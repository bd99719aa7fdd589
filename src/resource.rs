use vstd::prelude::*;

verus! {

/// Balls released by a volley when nothing has raised the quota yet.
pub const DEFAULT_BALL_COUNT: u32 = 40;

/// Outcome of the last completed round: unset, won (`Some(true)`) or lost
/// (`Some(false)`).
pub type HasWon = Option<bool>;

/// Configuration and progress of the current volley.
#[derive(Debug, Clone, Copy)]
pub struct Shooter {
    /// Balls per volley.
    pub count: u32,
    /// Balls emitted so far in this volley.
    pub shooted: u32,
    /// Whether the whole volley has been emitted.
    pub finished: bool,
}

impl Shooter {
    /// Progress is always strictly below the quota, which is never zero.
    pub open spec fn wf(&self) -> bool {
        self.count >= 1 && self.shooted < self.count
    }

    /// Starts a fresh volley; the quota is kept.
    pub fn reset(&mut self)
        ensures
            final(self).count == old(self).count,
            final(self).shooted == 0,
            !final(self).finished,
    {
        self.shooted = 0;
        self.finished = false;
    }
}

impl Default for Shooter {
    fn default() -> (r: Self)
        ensures
            r.count == DEFAULT_BALL_COUNT,
            r.shooted == 0,
            !r.finished,
    {
        Shooter { count: DEFAULT_BALL_COUNT, shooted: 0, finished: false }
    }
}

/// The message that invites the player to start a round, after the outcome
/// of the last one.
pub fn outcome_message(has_won: HasWon) -> (r: &'static str)
    ensures
        has_won == None::<bool> ==> r@ == "Init new Game with space or click!"@,
        has_won == Some(true) ==> r@ == "you won. Init new Game with space or click!"@,
        has_won == Some(false) ==> r@ == "you lost. Init new Game with space or click!"@,
{
    match has_won {
        None => "Init new Game with space or click!",
        Some(won) => if won {
            "you won. Init new Game with space or click!"
        } else {
            "you lost. Init new Game with space or click!"
        },
    }
}

} // verus!
