use vstd::prelude::*;
use crate::components::{bounced, flipped_x, flipped_y, lemma_flip_keeps_direction, moving_into};
use crate::constants::ConstantsManager;
use crate::entity::{advanced, Ball, Block, Brick};
use crate::geometry::{collide_spec, is_unit_direction, norm2, Collision, Vector};
use crate::builder::LayoutBrick;
use crate::resource::Shooter;
use crate::system::{
    advance_spec, aim_spec, any_crosses, ball_bounded, ball_in_play, below_floor, cadence_spec,
    check_blocks_spec, collided, confirm_spec, contact_step, contacts, end_volley, event_spec,
    events_spec, follows_aim, input_spec, lowered, resolve_all, tick_spec, wall_reflect,
    walls_spec, Contact, GameEvents, GameState, GameView, PlayerInput, Resolution,
};

verus! {

/// A direction after reflecting off the given sides, in order.
pub open spec fn bounced_all(d: Vector, sides: Seq<Collision>) -> Vector
    decreases sides.len(),
{
    if sides.len() == 0 {
        d
    } else {
        bounced(bounced_all(d, sides.drop_last()), sides.last())
    }
}

/// Any number of reflections keeps a direction non-zero, within unit
/// bounds, and of exactly the same length.
pub proof fn lemma_reflections_keep_direction(d: Vector, sides: Seq<Collision>)
    requires
        is_unit_direction(d),
    ensures
        is_unit_direction(bounced_all(d, sides)),
        norm2(bounced_all(d, sides)) == norm2(d),
    decreases sides.len(),
{
    if sides.len() > 0 {
        lemma_reflections_keep_direction(d, sides.drop_last());
        lemma_flip_keeps_direction(bounced_all(d, sides.drop_last()));
    }
}

/// Between ticks every ball in flight moves at its volley's speed, along a
/// usable direction exactly as long as the volley's aim, however often it has
/// been reflected.
pub proof fn lemma_balls_keep_aim_length(v: GameView)
    requires
        v.wf(),
    ensures
        forall|i: int| 0 <= i < v.balls.len() ==> {
            let m = (#[trigger] v.balls[i]).movement;
            &&& is_unit_direction(m.direction)
            &&& norm2(m.direction) == norm2(v.aim.direction)
            &&& m.speed == v.aim.speed
        },
{
    assert forall|i: int| 0 <= i < v.balls.len() implies {
        let m = (#[trigger] v.balls[i]).movement;
        &&& is_unit_direction(m.direction)
        &&& norm2(m.direction) == norm2(v.aim.direction)
        &&& m.speed == v.aim.speed
    } by {
        assert(ball_in_play(v.config, v.balls[i]));
        assert(follows_aim(v.aim, v.balls[i]));
    }
}

/// The wall step reflects like bricks do: the top wall as the bottom side of
/// a brick, the left wall as a right side, the right wall as a left side.
pub proof fn lemma_wall_reflect_is_bounce(c: ConstantsManager, b: Ball)
    requires
        c.wf(),
        ball_bounded(c, b),
    ensures
        ({
            let hw = c.half_width_spec();
            let hh = c.half_height_spec();
            let d = b.movement.direction;
            let d1 = if b.pos.y > hh { bounced(d, Collision::Bottom) } else { d };
            let d2 = if b.pos.x < -hw { bounced(d1, Collision::Right) } else { d1 };
            let d3 = if b.pos.x > hw { bounced(d2, Collision::Left) } else { d2 };
            wall_reflect(c, b).movement.direction == d3
        }),
        wall_reflect(c, b).movement.speed == b.movement.speed,
        is_unit_direction(wall_reflect(c, b).movement.direction),
        norm2(wall_reflect(c, b).movement.direction) == norm2(b.movement.direction),
{
    let d = b.movement.direction;
    lemma_flip_keeps_direction(d);
    lemma_flip_keeps_direction(flipped_y(d));
    lemma_flip_keeps_direction(flipped_x(d));
    lemma_flip_keeps_direction(flipped_x(flipped_y(d)));
}

/// The wall the ball is beyond and moving toward.
pub open spec fn hits_top(c: ConstantsManager, b: Ball) -> bool {
    b.pos.y > c.half_height_spec() && b.movement.direction.y > 0
}

pub open spec fn hits_left(c: ConstantsManager, b: Ball) -> bool {
    b.pos.x < -c.half_width_spec() && b.movement.direction.x < 0
}

pub open spec fn hits_right(c: ConstantsManager, b: Ball) -> bool {
    b.pos.x > c.half_width_spec() && b.movement.direction.x > 0
}

/// A ball reflected off a wall is not reflected off that wall again on the
/// next tick, wherever the next step of movement leaves it.
pub proof fn lemma_no_double_bounce_wall(c: ConstantsManager, b: Ball)
    requires
        c.wf(),
        ball_bounded(c, b),
    ensures
        hits_top(c, b) ==> !hits_top(c, advanced(wall_reflect(c, b))),
        hits_left(c, b) ==> !hits_left(c, advanced(wall_reflect(c, b))),
        hits_right(c, b) ==> !hits_right(c, advanced(wall_reflect(c, b))),
{
}

/// A reflection off a brick side leaves the ball moving away from that
/// side, so sustained overlap with it reflects no further.
pub proof fn lemma_no_double_bounce_brick(d: Vector, side: Collision)
    requires
        is_unit_direction(d),
    ensures
        bounced(bounced(d, side), side) == bounced(d, side),
{
}

/// One contact with a standard brick of health `h`. If the ball moves into
/// the touched side, a brick above one health point loses exactly one and
/// stays in place without scoring, otherwise it is removed and the score
/// rises by exactly one; the ball is reflected. If the ball already moves
/// away from that side (sustained overlap after a reflection), nothing
/// changes. No signal is queued either way.
pub proof fn lemma_standard_contact(c: ConstantsManager, pos: Vector, acc: Contact, br: Brick, h: u32)
    requires
        br.block == Block::Standard(h),
        collide_spec(pos, c.ball_half_spec(), br.pos, c.block_half_spec()) is Some,
        acc.score < u64::MAX,
    ensures
        ({
            let r = contact_step(c, pos, acc, br);
            let side = collide_spec(pos, c.ball_half_spec(), br.pos, c.block_half_spec())->Some_0;
            let into = moving_into(acc.movement.direction, side);
            &&& into && h > 1 ==> r.bricks == acc.bricks.push(
                Brick { pos: br.pos, block: Block::Standard((h - 1) as u32) },
            ) && r.score == acc.score
            &&& into && h <= 1 ==> r.bricks == acc.bricks && r.score == acc.score + 1
            &&& !into ==> r.bricks == acc.bricks.push(br) && r.score == acc.score
            &&& r.movement.direction == bounced(acc.movement.direction, side)
            &&& r.events == acc.events
        }),
{
}

/// One contact with a power-up brick removes it and queues exactly one
/// `AddBall` signal; score and ball are untouched.
pub proof fn lemma_add_ball_contact(c: ConstantsManager, pos: Vector, acc: Contact, br: Brick)
    requires
        br.block == Block::AddBall,
        collide_spec(pos, c.ball_half_spec(), br.pos, c.block_half_spec()) is Some,
    ensures
        ({
            let r = contact_step(c, pos, acc, br);
            &&& r.bricks == acc.bricks
            &&& r.events == acc.events.push(GameEvents::AddBall)
            &&& r.score == acc.score
            &&& r.movement == acc.movement
        }),
{
}

/// The `AddBall` signal raises the volley quota by exactly one and changes
/// nothing else.
pub proof fn lemma_add_ball_event(v: GameView)
    requires
        v.shooter.count < u32::MAX,
    ensures
        event_spec(v, GameEvents::AddBall) == (GameView {
            shooter: Shooter { count: (v.shooter.count + 1) as u32, ..v.shooter },
            ..v
        }),
{
}


pub open spec fn is_standard(b: Brick) -> bool {
    b.block is Standard
}

/// Number of standard bricks in `s`.
pub open spec fn standard_count(s: Seq<Brick>) -> nat
    decreases s.len(),
{
    if s.len() == 0 {
        0
    } else {
        standard_count(s.drop_last()) + if is_standard(s.last()) { 1nat } else { 0nat }
    }
}

proof fn lemma_standard_count_push(s: Seq<Brick>, x: Brick)
    ensures
        standard_count(s.push(x)) == standard_count(s) + if is_standard(x) { 1nat } else { 0nat },
{
    assert(s.push(x).drop_last() =~= s);
}

proof fn lemma_standard_count_lowered(c: ConstantsManager, s: Seq<Brick>)
    ensures
        standard_count(s.map_values(|b: Brick| lowered(c, b))) == standard_count(s),
    decreases s.len(),
{
    if s.len() > 0 {
        lemma_standard_count_lowered(c, s.drop_last());
        assert(s.map_values(|b: Brick| lowered(c, b)).drop_last() =~= s.drop_last().map_values(
            |b: Brick| lowered(c, b),
        ));
    }
}

proof fn lemma_contacts_score(c: ConstantsManager, pos: Vector, start: Contact, bricks: Seq<Brick>)
    ensures
        contacts(c, pos, start, bricks).score >= start.score,
        contacts(c, pos, start, bricks).score + standard_count(contacts(c, pos, start, bricks).bricks)
            <= start.score + standard_count(start.bricks) + standard_count(bricks),
    decreases bricks.len(),
{
    if bricks.len() > 0 {
        lemma_contacts_score(c, pos, start, bricks.drop_last());
        let p = contacts(c, pos, start, bricks.drop_last());
        let br = bricks.last();
        lemma_standard_count_push(p.bricks, br);
        if let Block::Standard(h) = br.block {
            lemma_standard_count_push(
                p.bricks,
                Brick { pos: br.pos, block: Block::Standard((h - 1) as u32) },
            );
        }
    }
}

proof fn lemma_resolve_score(c: ConstantsManager, start: Resolution, balls: Seq<Ball>)
    ensures
        resolve_all(c, start, balls).score >= start.score,
        resolve_all(c, start, balls).score + standard_count(resolve_all(c, start, balls).bricks)
            <= start.score + standard_count(start.bricks),
    decreases balls.len(),
{
    if balls.len() > 0 {
        lemma_resolve_score(c, start, balls.drop_last());
        let acc = resolve_all(c, start, balls.drop_last());
        let b = balls.last();
        lemma_contacts_score(
            c,
            b.pos,
            Contact { movement: b.movement, bricks: Seq::empty(), score: acc.score, events: acc.events },
            acc.bricks,
        );
    }
}

proof fn lemma_events_score(v: GameView, evs: Seq<GameEvents>)
    ensures
        events_spec(v, evs).score == v.score,
        standard_count(events_spec(v, evs).bricks) <= standard_count(v.bricks),
    decreases evs.len(),
{
    if evs.len() > 0 {
        lemma_events_score(v, evs.drop_last());
        let p = events_spec(v, evs.drop_last());
        lemma_standard_count_lowered(p.config, p.bricks);
    }
}

/// Over one tick the score never falls, and it rises by no more than the
/// number of standard bricks that leave the field: summed over a game, the
/// score gained is at most the number of standard bricks ever placed.
pub proof fn lemma_tick_score(v: GameView)
    ensures
        tick_spec(v).score >= v.score,
        tick_spec(v).score + standard_count(tick_spec(v).bricks) <= v.score + standard_count(v.bricks),
{
    if v.state == GameState::Shooting {
        let v2 = advance_spec(cadence_spec(v));
        let start = Resolution { balls: Seq::empty(), bricks: v2.bricks, score: v2.score, events: Seq::empty() };
        lemma_resolve_score(v2.config, start, v2.balls);
        let r = collided(v2, Seq::empty());
        let v3 = GameView { balls: r.balls, bricks: r.bricks, score: r.score, ..v2 };
        let w = walls_spec(v3.config, v3.balls);
        let v4 = GameView { balls: w.balls, ..v3 };
        lemma_events_score(check_blocks_spec(v4), r.events + w.events);
    }
}

/// `n` ticks in a row.
pub open spec fn ticks_spec(v: GameView, n: nat) -> GameView
    decreases n,
{
    if n == 0 {
        v
    } else {
        tick_spec(ticks_spec(v, (n - 1) as nat))
    }
}

proof fn lemma_ticks_score(v: GameView, n: nat)
    ensures
        ticks_spec(v, n).score >= v.score,
    decreases n,
{
    if n > 0 {
        lemma_ticks_score(v, (n - 1) as nat);
        lemma_tick_score(ticks_spec(v, (n - 1) as nat));
    }
}

/// A round with neither a win nor a loss: confirming in `Init` leads to
/// `Aiming`, a valid click to `Shooting` with a fresh volley, and after any
/// number of ticks the end of the volley leads through `MovingBlocks` back to
/// `Aiming`, again with a fresh volley; the score never decreases on the way.
pub proof fn lemma_round_trip(v: GameView, layout: Seq<LayoutBrick>, p: Vector, n: nat)
    requires
        v.state == GameState::Init,
        aim_spec(v.config, Some(p)) is Some,
        ticks_spec(input_spec(confirm_spec(v, layout), PlayerInput::AimClick(Some(p))), n).state
            == GameState::Shooting,
        !any_crosses(
            ticks_spec(input_spec(confirm_spec(v, layout), PlayerInput::AimClick(Some(p))), n).config,
            ticks_spec(input_spec(confirm_spec(v, layout), PlayerInput::AimClick(Some(p))), n).bricks,
        ),
    ensures
        ({
            let a = confirm_spec(v, layout);
            let s = input_spec(a, PlayerInput::AimClick(Some(p)));
            let t = ticks_spec(s, n);
            let m = end_volley(t);
            &&& a.state == GameState::Aiming
            &&& s.state == GameState::Shooting
            &&& s.shooter.shooted == 0 && !s.shooter.finished
            &&& m.state == GameState::Aiming
            &&& m.shooter.shooted == 0 && !m.shooter.finished
            &&& v.score == a.score && a.score == s.score
            &&& s.score <= t.score && t.score == m.score
        }),
{
    let a = confirm_spec(v, layout);
    let s = input_spec(a, PlayerInput::AimClick(Some(p)));
    lemma_ticks_score(s, n);
}
/// Number of balls in `balls` that lie below the floor.
pub open spec fn below_count(c: ConstantsManager, balls: Seq<Ball>) -> nat
    decreases balls.len(),
{
    if balls.len() == 0 {
        0
    } else {
        below_count(c, balls.drop_last()) + if below_floor(c, balls.last()) { 1nat } else { 0nat }
    }
}

/// The wall step over any number of balls: exactly one `DestroyBall` signal
/// per ball below the floor, and nothing else signalled; every other ball is
/// kept, in order, and reflected by the sign-gated wall rule alone, its
/// position untouched.
pub proof fn lemma_walls_shape(c: ConstantsManager, balls: Seq<Ball>)
    ensures
        walls_spec(c, balls).events.len() == below_count(c, balls),
        forall|k: int| 0 <= k < walls_spec(c, balls).events.len()
            ==> #[trigger] walls_spec(c, balls).events[k] == GameEvents::DestroyBall,
        walls_spec(c, balls).balls.len() + walls_spec(c, balls).events.len() == balls.len(),
        forall|j: int| 0 <= j < walls_spec(c, balls).balls.len() ==> exists|i: int|
            0 <= i < balls.len() && !below_floor(c, balls[i]) && #[trigger] walls_spec(c, balls).balls[j]
                == wall_reflect(c, balls[i]),
    decreases balls.len(),
{
    if balls.len() > 0 {
        let prev = balls.drop_last();
        lemma_walls_shape(c, prev);
        let r = walls_spec(c, prev);
        let w = walls_spec(c, balls);
        assert forall|j: int| 0 <= j < w.balls.len() implies exists|i: int|
            0 <= i < balls.len() && !below_floor(c, balls[i]) && #[trigger] w.balls[j]
                == wall_reflect(c, balls[i]) by {
            if j < r.balls.len() {
                assert(w.balls[j] == r.balls[j]);
                let i = choose|i: int|
                    0 <= i < prev.len() && !below_floor(c, prev[i]) && #[trigger] r.balls[j]
                        == wall_reflect(c, prev[i]);
                assert(prev[i] == balls[i]);
            } else {
                assert(w.balls[j] == wall_reflect(c, balls[balls.len() - 1]));
            }
        }
        assert forall|k: int| 0 <= k < w.events.len() implies #[trigger] w.events[k]
            == GameEvents::DestroyBall by {
            if k < r.events.len() {
                assert(w.events[k] == r.events[k]);
            }
        }
    }
}

pub open spec fn is_add_ball(b: Brick) -> bool {
    b.block is AddBall
}

/// Number of power-up bricks in `s`.
pub open spec fn add_ball_count(s: Seq<Brick>) -> nat
    decreases s.len(),
{
    if s.len() == 0 {
        0
    } else {
        add_ball_count(s.drop_last()) + if is_add_ball(s.last()) { 1nat } else { 0nat }
    }
}

proof fn lemma_add_ball_count_push(s: Seq<Brick>, x: Brick)
    ensures
        add_ball_count(s.push(x)) == add_ball_count(s) + if is_add_ball(x) { 1nat } else { 0nat },
{
    assert(s.push(x).drop_last() =~= s);
}

proof fn lemma_contacts_add_balls(c: ConstantsManager, pos: Vector, start: Contact, bricks: Seq<Brick>)
    ensures
        contacts(c, pos, start, bricks).events.len() >= start.events.len(),
        contacts(c, pos, start, bricks).events.len() + add_ball_count(
            contacts(c, pos, start, bricks).bricks,
        ) <= start.events.len() + add_ball_count(start.bricks) + add_ball_count(bricks),
    decreases bricks.len(),
{
    if bricks.len() > 0 {
        lemma_contacts_add_balls(c, pos, start, bricks.drop_last());
        let p = contacts(c, pos, start, bricks.drop_last());
        let br = bricks.last();
        lemma_add_ball_count_push(p.bricks, br);
        if let Block::Standard(h) = br.block {
            lemma_add_ball_count_push(
                p.bricks,
                Brick { pos: br.pos, block: Block::Standard((h - 1) as u32) },
            );
        }
    }
}

/// In the collision step each power-up brick yields at most one `AddBall`
/// signal, however many balls touch it: the signals raised plus the power-up
/// bricks left never exceed the power-up bricks there were.
pub proof fn lemma_resolve_add_balls(c: ConstantsManager, start: Resolution, balls: Seq<Ball>)
    ensures
        resolve_all(c, start, balls).events.len() >= start.events.len(),
        resolve_all(c, start, balls).events.len() + add_ball_count(
            resolve_all(c, start, balls).bricks,
        ) <= start.events.len() + add_ball_count(start.bricks),
    decreases balls.len(),
{
    if balls.len() > 0 {
        lemma_resolve_add_balls(c, start, balls.drop_last());
        let acc = resolve_all(c, start, balls.drop_last());
        let b = balls.last();
        lemma_contacts_add_balls(
            c,
            b.pos,
            Contact { movement: b.movement, bricks: Seq::empty(), score: acc.score, events: acc.events },
            acc.bricks,
        );
    }
}

} // verus!
