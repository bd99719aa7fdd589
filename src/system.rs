use vstd::prelude::*;
use crate::builder::{
    aim_offset_spec, construct_ball, construct_block_add_ball, construct_block_standard,
    direction_ball_to_mouse, field_pos_spec, in_grid, in_window, origin_spec, BrickType,
    LayoutBrick, BRICK_BOUND,
};
use crate::components::{bounced, flipped_x, flipped_y, moving_into, Movement, MAX_SPEED};
use crate::constants::{ConstantsManager, MAX_BLOCK, MAX_WINDOW};
use crate::entity::{advanced, Ball, Block, Brick};
use crate::geometry::{collide, collide_spec, in_range, norm2, normalized, Vector, MAX_COORD, UNIT};
use crate::resource::{HasWon, Shooter, DEFAULT_BALL_COUNT};

verus! {

/// Phase of a round.
#[derive(Clone, Copy, Debug, PartialEq, Eq, Structural, Hash)]
pub enum GameState {
    Init,
    Shooting,
    Aiming,
    MovingBlocks,
}

/// Signals raised by the collision steps and consumed by `read_game_events`.
#[derive(Clone, Copy, Debug, PartialEq, Eq, Structural)]
pub enum GameEvents {
    /// A ball fell through the floor and was removed.
    DestroyBall,
    /// A power-up brick was hit and removed.
    AddBall,
}

/// Points scored: one per destroyed standard brick.
#[derive(Clone, Copy, Debug)]
pub struct Scoreboard {
    pub score: u64,
}

/// A player action polled once per tick.
#[derive(Clone, Copy, Debug)]
pub enum PlayerInput {
    /// A left click, with the pointer position in window pixels if the
    /// pointer is over the window.
    AimClick(Option<Vector>),
    /// The key that ends the current volley at once.
    SkipVolley,
}

/// The whole simulation state, passed explicitly to every step.
pub struct Game {
    pub config: ConstantsManager,
    pub state: GameState,
    pub shooter: Shooter,
    pub scoreboard: Scoreboard,
    pub has_won: HasWon,
    pub balls: Vec<Ball>,
    pub bricks: Vec<Brick>,
    /// Direction and speed shared by every ball of the current volley.
    pub aim: Movement,
    /// Ticks between two emitted balls.
    pub emit_every: u32,
    /// Ticks since the last emission, modulo `emit_every`.
    pub emit_clock: u32,
}

pub struct GameView {
    pub config: ConstantsManager,
    pub state: GameState,
    pub shooter: Shooter,
    pub score: u64,
    pub has_won: HasWon,
    pub balls: Seq<Ball>,
    pub bricks: Seq<Brick>,
    pub aim: Movement,
    pub emit_every: u32,
    pub emit_clock: u32,
}

impl View for Game {
    type V = GameView;

    open spec fn view(&self) -> GameView {
        GameView {
            config: self.config,
            state: self.state,
            shooter: self.shooter,
            score: self.scoreboard.score,
            has_won: self.has_won,
            balls: self.balls@,
            bricks: self.bricks@,
            aim: self.aim,
            emit_every: self.emit_every,
            emit_clock: self.emit_clock,
        }
    }
}

/// Farthest a ball can travel in one tick, in sub-pixels.
pub const STEP: i64 = UNIT * MAX_SPEED;

/// A ball anywhere a single tick can take it from the field.
pub open spec fn ball_bounded(c: ConstantsManager, b: Ball) -> bool {
    let hw = c.half_width_spec();
    let hh = c.half_height_spec();
    &&& b.movement.wf()
    &&& -hw - STEP <= b.pos.x <= hw + STEP
    &&& -hh - STEP <= b.pos.y <= hh + STEP
}

/// A ball still in play after the wall step: above the floor, and moving
/// back toward the field along every wall it lies beyond.
pub open spec fn ball_in_play(c: ConstantsManager, b: Ball) -> bool {
    let hw = c.half_width_spec();
    let hh = c.half_height_spec();
    &&& ball_bounded(c, b)
    &&& -hh <= b.pos.y
    &&& (b.pos.x < -hw ==> b.movement.direction.x >= 0)
    &&& (b.pos.x > hw ==> b.movement.direction.x <= 0)
    &&& (b.pos.y > hh ==> b.movement.direction.y <= 0)
}

/// The ball moves as the volley's aim: at its speed, along a direction of
/// the same length.
pub open spec fn follows_aim(aim: Movement, b: Ball) -> bool {
    b.movement.speed == aim.speed && norm2(b.movement.direction) == norm2(aim.direction)
}

pub open spec fn brick_ok(b: Brick) -> bool {
    in_range(b.pos, BRICK_BOUND as int)
}

pub open spec fn reset_spec(s: Shooter) -> Shooter {
    Shooter { count: s.count, shooted: 0, finished: false }
}

pub open spec fn sat_inc_u64(v: u64) -> u64 {
    if v < u64::MAX { (v + 1) as u64 } else { v }
}

pub open spec fn sat_inc_u32(v: u32) -> u32 {
    if v < u32::MAX { (v + 1) as u32 } else { v }
}

impl GameView {
    /// Everything but the balls is well formed.
    pub open spec fn wf_base(&self) -> bool {
        &&& self.config.wf()
        &&& self.shooter.wf()
        &&& self.aim.wf()
        &&& 1 <= self.emit_every
        &&& self.emit_clock < self.emit_every
        &&& forall|i: int| 0 <= i < self.bricks.len() ==> brick_ok(#[trigger] self.bricks[i])
        &&& self.state != GameState::Shooting ==> self.balls.len() == 0
        &&& forall|i: int| 0 <= i < self.balls.len() ==> follows_aim(self.aim, #[trigger] self.balls[i])
    }

    /// The state between two ticks.
    pub open spec fn wf(&self) -> bool {
        &&& self.wf_base()
        &&& forall|i: int| 0 <= i < self.balls.len() ==> ball_in_play(self.config, #[trigger] self.balls[i])
    }

    /// The state within a tick, after movement and before the wall step.
    pub open spec fn wf_moving(&self) -> bool {
        &&& self.wf_base()
        &&& forall|i: int| 0 <= i < self.balls.len() ==> ball_bounded(self.config, #[trigger] self.balls[i])
    }
}

/// Leaving `Shooting`: every ball is removed and the volley is reset.
pub open spec fn exit_shooting(v: GameView) -> GameView {
    GameView { balls: Seq::empty(), shooter: reset_spec(v.shooter), ..v }
}

/// Entering `Init` with the given outcome: every brick is removed.
pub open spec fn enter_init(v: GameView, outcome: HasWon) -> GameView {
    GameView { state: GameState::Init, bricks: Seq::empty(), has_won: outcome, ..v }
}

/// Entering `Shooting`: the volley is reset and the first ball is due now.
pub open spec fn enter_shooting(v: GameView) -> GameView {
    GameView { state: GameState::Shooting, shooter: reset_spec(v.shooter), emit_clock: 0, ..v }
}

pub open spec fn lowered(c: ConstantsManager, b: Brick) -> Brick {
    Brick { pos: Vector { x: b.pos.x, y: (b.pos.y - c.block_spec()) as i64 }, block: b.block }
}

/// After one row of descent the brick would stand at or below the loss line.
pub open spec fn crosses_loss_line(c: ConstantsManager, b: Brick) -> bool {
    b.pos.y - c.block_spec() <= c.loss_line_spec()
}

pub open spec fn any_crosses(c: ConstantsManager, bricks: Seq<Brick>) -> bool {
    exists|i: int| 0 <= i < bricks.len() && crosses_loss_line(c, #[trigger] bricks[i])
}

/// The descent of `MovingBlocks`: lost if a brick would cross the loss line,
/// else every brick one row lower and a new aim.
pub open spec fn move_blocks_spec(v: GameView) -> GameView {
    if any_crosses(v.config, v.bricks) {
        enter_init(v, Some(false))
    } else {
        GameView {
            state: GameState::Aiming,
            bricks: v.bricks.map_values(|b: Brick| lowered(v.config, b)),
            ..v
        }
    }
}

/// `Shooting` → `MovingBlocks`, and on from there.
pub open spec fn end_volley(v: GameView) -> GameView {
    move_blocks_spec(GameView { state: GameState::MovingBlocks, ..exit_shooting(v) })
}

/// `Shooting` → `Init` on a cleared field.
pub open spec fn win(v: GameView) -> GameView {
    enter_init(exit_shooting(v), Some(true))
}

pub open spec fn check_blocks_spec(v: GameView) -> GameView {
    if v.state == GameState::Shooting && v.bricks.len() == 0 {
        win(v)
    } else {
        v
    }
}

pub open spec fn event_spec(v: GameView, e: GameEvents) -> GameView {
    match e {
        GameEvents::AddBall => GameView {
            shooter: Shooter { count: sat_inc_u32(v.shooter.count), ..v.shooter },
            ..v
        },
        GameEvents::DestroyBall => if v.state == GameState::Shooting && v.balls.len() == 0 {
            end_volley(v)
        } else {
            v
        },
    }
}

pub open spec fn events_spec(v: GameView, evs: Seq<GameEvents>) -> GameView
    decreases evs.len(),
{
    if evs.len() == 0 {
        v
    } else {
        event_spec(events_spec(v, evs.drop_last()), evs.last())
    }
}

/// The bricks that a layout places, in layout order; empty cells and cells
/// off the grid place none.
pub open spec fn layout_bricks(c: ConstantsManager, layout: Seq<LayoutBrick>) -> Seq<Brick>
    decreases layout.len(),
{
    if layout.len() == 0 {
        Seq::empty()
    } else {
        let prev = layout_bricks(c, layout.drop_last());
        let cell = layout.last();
        if !in_grid(c, cell.position) {
            prev
        } else {
            match cell.brick_type {
                BrickType::Empty => prev,
                BrickType::Standard(h) => prev.push(
                    Brick { pos: field_pos_spec(c, cell.position), block: Block::Standard(h) },
                ),
                BrickType::AddBall => prev.push(
                    Brick { pos: field_pos_spec(c, cell.position), block: Block::AddBall },
                ),
            }
        }
    }
}

/// Confirming in `Init`: the outcome is cleared, the new layout placed, and
/// the player aims.
pub open spec fn confirm_spec(v: GameView, layout: Seq<LayoutBrick>) -> GameView {
    if v.state == GameState::Init {
        GameView {
            state: GameState::Aiming,
            has_won: None,
            bricks: v.bricks + layout_bricks(v.config, layout),
            ..v
        }
    } else {
        v
    }
}

/// The aim that a click at `p` gives, if any: none off the window or exactly
/// on the shooting origin.
pub open spec fn aim_spec(c: ConstantsManager, p: Option<Vector>) -> Option<Movement> {
    match p {
        Some(q) => {
            let d = aim_offset_spec(c, q);
            if in_window(c, q) && (d.x != 0 || d.y != 0) {
                Some(Movement { direction: normalized(d), speed: c.ballspeed })
            } else {
                None
            }
        },
        None => None,
    }
}

pub open spec fn input_spec(v: GameView, input: PlayerInput) -> GameView {
    match input {
        PlayerInput::AimClick(p) => if v.state == GameState::Aiming {
            match aim_spec(v.config, p) {
                Some(m) => enter_shooting(GameView { aim: m, ..v }),
                None => v,
            }
        } else {
            v
        },
        PlayerInput::SkipVolley => if v.state == GameState::Shooting {
            end_volley(v)
        } else {
            v
        },
    }
}

impl Game {
    /// A game waiting in `Init` with an empty field and no outcome.
    pub fn new(config: ConstantsManager, emit_every: u32) -> (r: Self)
        requires
            config.wf(),
            1 <= emit_every,
        ensures
            r@.wf(),
            r@.config == config,
            r@.state == GameState::Init,
            r@.shooter == (Shooter { count: DEFAULT_BALL_COUNT, shooted: 0, finished: false }),
            r@.score == 0,
            r@.has_won == None::<bool>,
            r@.balls.len() == 0,
            r@.bricks.len() == 0,
            r@.emit_every == emit_every,
            r@.emit_clock == 0,
            r@.aim == (Movement { direction: Vector { x: 0, y: UNIT }, speed: config.ballspeed }),
    {
        Game {
            config,
            state: GameState::Init,
            shooter: Shooter::default(),
            scoreboard: Scoreboard { score: 0 },
            has_won: None,
            balls: Vec::new(),
            bricks: Vec::new(),
            aim: Movement { direction: Vector { x: 0, y: UNIT }, speed: config.ballspeed },
            emit_every,
            emit_clock: 0,
        }
    }
}


impl Game {
    /// Exit hook of `Shooting`: removes every ball and resets the volley.
    pub fn despawn_balls_system(&mut self)
        requires
            old(self)@.wf(),
        ensures
            final(self)@ == exit_shooting(old(self)@),
            final(self)@.wf(),
    {
        self.shooter.reset();
        self.balls = Vec::new();
        assert(self@.balls =~= Seq::<Ball>::empty());
    }

    /// Entry hook of `Init`: removes every brick.
    pub fn despawn_blocks_system(&mut self)
        requires
            old(self)@.wf(),
        ensures
            final(self)@ == (GameView { bricks: Seq::empty(), ..old(self)@ }),
            final(self)@.wf(),
    {
        self.bricks = Vec::new();
        assert(self@.bricks =~= Seq::<Brick>::empty());
    }

    fn enter_init(&mut self, outcome: HasWon)
        requires
            old(self)@.wf(),
            old(self)@.balls.len() == 0,
        ensures
            final(self)@ == enter_init(old(self)@, outcome),
            final(self)@.wf(),
    {
        self.despawn_blocks_system();
        self.state = GameState::Init;
        self.has_won = outcome;
    }

    /// Entry hook of `MovingBlocks`: every brick descends one row, unless one
    /// of them would cross the loss line, which loses the game.
    pub fn move_blocks_system(&mut self)
        requires
            old(self)@.wf(),
            old(self).state == GameState::MovingBlocks,
        ensures
            final(self)@ == move_blocks_spec(old(self)@),
            final(self)@.wf(),
    {
        let ghost v = self@;
        let c = self.config;
        let line = c.loss_line();
        let b = c.block();
        let mut moved: Vec<Brick> = Vec::new();
        let n = self.bricks.len();
        let mut lost = false;
        let mut i: usize = 0;
        while i < n
            invariant_except_break
                !lost,
            invariant
                self@ == v,
                v.wf(),
                c == v.config,
                line == c.loss_line_spec(),
                b == c.block_spec(),
                n == v.bricks.len(),
                i <= n,
                moved@ =~= v.bricks.subrange(0, i as int).map_values(|x: Brick| lowered(c, x)),
                forall|j: int| 0 <= j < i ==> !crosses_loss_line(c, #[trigger] v.bricks[j]),
            ensures
                self@ == v,
                i <= n,
                moved@ =~= v.bricks.subrange(0, i as int).map_values(|x: Brick| lowered(c, x)),
                forall|j: int| 0 <= j < i ==> !crosses_loss_line(c, #[trigger] v.bricks[j]),
                lost ==> any_crosses(c, v.bricks),
                !lost ==> i == n,
            decreases n - i,
        {
            let br = self.bricks[i];
            assert(brick_ok(v.bricks[i as int]));
            if br.pos.y - b <= line {
                assert(crosses_loss_line(c, v.bricks[i as int]));
                assert(any_crosses(c, v.bricks));
                lost = true;
                break;
            }
            moved.push(Brick { pos: Vector { x: br.pos.x, y: br.pos.y - b }, block: br.block });
            i = i + 1;
        }
        if lost {
            self.enter_init(Some(false));
        } else {
            assert(v.bricks.subrange(0, n as int) =~= v.bricks);
            self.bricks = moved;
            self.state = GameState::Aiming;
            assert forall|j: int| 0 <= j < self.bricks@.len() implies brick_ok(
                #[trigger] self.bricks@[j],
            ) by {
                assert(!crosses_loss_line(c, v.bricks[j]));
                assert(brick_ok(v.bricks[j]));
            }
        }
    }

    fn end_volley(&mut self)
        requires
            old(self)@.wf(),
        ensures
            final(self)@ == end_volley(old(self)@),
            final(self)@.wf(),
    {
        self.despawn_balls_system();
        self.state = GameState::MovingBlocks;
        self.move_blocks_system();
    }

    /// While shooting, a cleared field wins the round at once.
    pub fn check_blocks_system(&mut self)
        requires
            old(self)@.wf(),
        ensures
            final(self)@ == check_blocks_spec(old(self)@),
            final(self)@.wf(),
    {
        if self.state == GameState::Shooting && self.bricks.len() == 0 {
            self.despawn_balls_system();
            self.enter_init(Some(true));
        }
    }

    /// Applies queued signals in order: a power-up raises the volley quota; a
    /// lost ball that leaves none in flight ends the volley.
    pub fn read_game_events(&mut self, events: &Vec<GameEvents>)
        requires
            old(self)@.wf(),
        ensures
            final(self)@ == events_spec(old(self)@, events@),
            final(self)@.score == old(self)@.score,
            final(self)@.wf(),
    {
        let ghost v = self@;
        let mut i: usize = 0;
        while i < events.len()
            invariant
                i <= events@.len(),
                self@ == events_spec(v, events@.subrange(0, i as int)),
                self@.score == v.score,
                self@.wf(),
            decreases events@.len() - i,
        {
            assert(events@.subrange(0, i + 1).drop_last() =~= events@.subrange(0, i as int));
            match events[i] {
                GameEvents::AddBall => {
                    if self.shooter.count < u32::MAX {
                        self.shooter.count = self.shooter.count + 1;
                    }
                },
                GameEvents::DestroyBall => {
                    if self.state == GameState::Shooting && self.balls.len() == 0 {
                        self.end_volley();
                    }
                },
            }
            i = i + 1;
        }
        assert(events@.subrange(0, events@.len() as int) =~= events@);
    }

    /// Exit hook of `Init`: places the bricks of a generated layout.
    pub fn block_setup(&mut self, layout: &Vec<LayoutBrick>)
        requires
            old(self)@.wf(),
        ensures
            final(self)@ == (GameView {
                bricks: old(self)@.bricks + layout_bricks(old(self)@.config, layout@),
                ..old(self)@
            }),
            final(self)@.wf(),
    {
        let ghost v = self@;
        let c = self.config;
        let mut i: usize = 0;
        while i < layout.len()
            invariant
                c == v.config,
                v.wf(),
                i <= layout@.len(),
                self@ == (GameView {
                    bricks: v.bricks + layout_bricks(c, layout@.subrange(0, i as int)),
                    ..v
                }),
                self@.wf(),
            decreases layout@.len() - i,
        {
            assert(layout@.subrange(0, i + 1).drop_last() =~= layout@.subrange(0, i as int));
            let cell = layout[i];
            let ghost old_len = self@.bricks.len();
            let ghost old_bricks = self@.bricks;
            let (px, py) = cell.position;
            let fits = if px <= MAX_WINDOW as usize && py <= MAX_WINDOW as usize {
                assert((px as i64) * c.block_size <= MAX_WINDOW * MAX_BLOCK) by (nonlinear_arith)
                    requires 0 <= px <= MAX_WINDOW, 1 <= c.block_size <= MAX_BLOCK;
                assert((py as i64) * c.block_size <= MAX_WINDOW * MAX_BLOCK) by (nonlinear_arith)
                    requires 0 <= py <= MAX_WINDOW, 1 <= c.block_size <= MAX_BLOCK;
                (px as i64) * c.block_size <= c.window_width
                    && (py as i64) * c.block_size <= c.window_height
            } else {
                false
            };
            if fits {
                match cell.brick_type {
                    BrickType::Empty => {},
                    BrickType::Standard(h) => {
                        let br = construct_block_standard(&c, cell.position, h);
                        self.bricks.push(br);
                    },
                    BrickType::AddBall => {
                        let br = construct_block_add_ball(&c, cell.position);
                        self.bricks.push(br);
                    },
                }
            } else {
                proof {
                    if in_grid(c, cell.position) {
                        assert(px <= c.window_width) by (nonlinear_arith)
                            requires px * c.block_size <= c.window_width, 1 <= c.block_size;
                        assert(py <= c.window_height) by (nonlinear_arith)
                            requires py * c.block_size <= c.window_height, 1 <= c.block_size;
                    }
                }
            }
            assert(self@.bricks =~= v.bricks + layout_bricks(c, layout@.subrange(0, i + 1)));
            assert forall|j: int| 0 <= j < self@.bricks.len() implies brick_ok(
                #[trigger] self@.bricks[j],
            ) by {
                if j < old_len {
                    assert(self@.bricks[j] == old_bricks[j]);
                }
            }
            i = i + 1;
        }
        assert(layout@.subrange(0, layout@.len() as int) =~= layout@);
    }

    /// Confirm input in `Init` (button or key): clears the outcome, places
    /// the new layout and starts aiming. Elsewhere it does nothing.
    pub fn button_system(&mut self, layout: &Vec<LayoutBrick>)
        requires
            old(self)@.wf(),
        ensures
            final(self)@ == confirm_spec(old(self)@, layout@),
            final(self)@.wf(),
    {
        if self.state == GameState::Init {
            self.has_won = None;
            self.state = GameState::Aiming;
            self.block_setup(layout);
        }
    }

    /// The aim that a click gives, if the pointer is over the window and not
    /// exactly on the shooting origin.
    pub fn aim_from_click(&self, mouse_pos: Option<Vector>) -> (r: Option<Movement>)
        requires
            self@.wf(),
        ensures
            r == aim_spec(self.config, mouse_pos),
            r matches Some(m) ==> m.wf(),
    {
        match mouse_pos {
            Some(p) => {
                if 0 <= p.x && p.x <= self.config.window_width && 0 <= p.y
                    && p.y <= self.config.window_height {
                    let d = direction_ball_to_mouse(&self.config, p);
                    if d.x != 0 || d.y != 0 {
                        Some(Movement::new(d, self.config.ballspeed))
                    } else {
                        None
                    }
                } else {
                    None
                }
            },
            None => None,
        }
    }

    /// Player input: a click while aiming fixes the volley's direction and
    /// starts shooting; the skip key while shooting ends the volley.
    pub fn mouse_listener_system(&mut self, input: PlayerInput)
        requires
            old(self)@.wf(),
        ensures
            final(self)@ == input_spec(old(self)@, input),
            final(self)@.wf(),
    {
        match input {
            PlayerInput::AimClick(p) => {
                if self.state == GameState::Aiming {
                    match self.aim_from_click(p) {
                        Some(m) => {
                            self.aim = m;
                            self.shooter.reset();
                            self.emit_clock = 0;
                            self.state = GameState::Shooting;
                        },
                        None => {},
                    }
                }
            },
            PlayerInput::SkipVolley => {
                if self.state == GameState::Shooting {
                    self.end_volley();
                }
            },
        }
    }
}


/// One emission: while shooting an unfinished volley, a ball leaves the
/// origin along the volley's aim; the volley finishes at its quota.
pub open spec fn emit_spec(v: GameView) -> GameView {
    if v.state == GameState::Shooting && !v.shooter.finished {
        let s = (v.shooter.shooted + 1) as u32;
        GameView {
            balls: v.balls.push(Ball { pos: origin_spec(v.config), movement: v.aim }),
            shooter: if s == v.shooter.count {
                Shooter { count: v.shooter.count, shooted: 0, finished: true }
            } else {
                Shooter { count: v.shooter.count, shooted: s, finished: false }
            },
            ..v
        }
    } else {
        v
    }
}

/// The emission cadence: an emission on every `emit_every`-th tick, the
/// first one on the tick that starts the volley.
pub open spec fn cadence_spec(v: GameView) -> GameView {
    let v1 = if v.emit_clock == 0 { emit_spec(v) } else { v };
    GameView { emit_clock: ((v.emit_clock + 1) % (v.emit_every as int)) as u32, ..v1 }
}

pub open spec fn advance_spec(v: GameView) -> GameView {
    GameView { balls: v.balls.map_values(|b: Ball| advanced(b)), ..v }
}

/// Progress of one ball through the bricks.
pub struct Contact {
    pub movement: Movement,
    pub bricks: Seq<Brick>,
    pub score: u64,
    pub events: Seq<GameEvents>,
}

/// One ball at `pos` against one brick. A standard brick that the ball
/// touches while moving into the touched side loses one health point, or is
/// destroyed and scores, and reflects the ball; touching it while already
/// moving away changes nothing. A touched power-up brick is removed and
/// signalled, and does not reflect.
pub open spec fn contact_step(c: ConstantsManager, pos: Vector, acc: Contact, br: Brick) -> Contact {
    match collide_spec(pos, c.ball_half_spec(), br.pos, c.block_half_spec()) {
        None => Contact { bricks: acc.bricks.push(br), ..acc },
        Some(side) => match br.block {
            Block::Standard(h) => {
                if !moving_into(acc.movement.direction, side) {
                    Contact { bricks: acc.bricks.push(br), ..acc }
                } else {
                    let m = Movement {
                        direction: bounced(acc.movement.direction, side),
                        speed: acc.movement.speed,
                    };
                    if h > 1 {
                        Contact {
                            movement: m,
                            bricks: acc.bricks.push(
                                Brick { pos: br.pos, block: Block::Standard((h - 1) as u32) },
                            ),
                            ..acc
                        }
                    } else {
                        Contact { movement: m, score: sat_inc_u64(acc.score), ..acc }
                    }
                }
            },
            Block::AddBall => Contact { events: acc.events.push(GameEvents::AddBall), ..acc },
        },
    }
}

pub open spec fn contacts(c: ConstantsManager, pos: Vector, start: Contact, bricks: Seq<Brick>) -> Contact
    decreases bricks.len(),
{
    if bricks.len() == 0 {
        start
    } else {
        contact_step(c, pos, contacts(c, pos, start, bricks.drop_last()), bricks.last())
    }
}

/// Progress of the collision step through the balls.
pub struct Resolution {
    pub balls: Seq<Ball>,
    pub bricks: Seq<Brick>,
    pub score: u64,
    pub events: Seq<GameEvents>,
}

pub open spec fn resolve_ball(c: ConstantsManager, acc: Resolution, b: Ball) -> Resolution {
    let k = contacts(
        c,
        b.pos,
        Contact { movement: b.movement, bricks: Seq::empty(), score: acc.score, events: acc.events },
        acc.bricks,
    );
    Resolution {
        balls: acc.balls.push(Ball { pos: b.pos, movement: k.movement }),
        bricks: k.bricks,
        score: k.score,
        events: k.events,
    }
}

/// Every ball, in order, against every brick still standing.
pub open spec fn resolve_all(c: ConstantsManager, start: Resolution, balls: Seq<Ball>) -> Resolution
    decreases balls.len(),
{
    if balls.len() == 0 {
        start
    } else {
        resolve_ball(c, resolve_all(c, start, balls.drop_last()), balls.last())
    }
}

pub open spec fn collided(v: GameView, evs: Seq<GameEvents>) -> Resolution {
    resolve_all(
        v.config,
        Resolution { balls: Seq::empty(), bricks: v.bricks, score: v.score, events: evs },
        v.balls,
    )
}

/// Sign-gated reflection off the top, left and right walls.
pub open spec fn wall_reflect(c: ConstantsManager, b: Ball) -> Ball {
    let hw = c.half_width_spec();
    let hh = c.half_height_spec();
    let d0 = b.movement.direction;
    let d1 = if b.pos.y > hh && d0.y > 0 { flipped_y(d0) } else { d0 };
    let d2 = if b.pos.x < -hw && d1.x < 0 { flipped_x(d1) } else { d1 };
    let d3 = if b.pos.x > hw && d2.x > 0 { flipped_x(d2) } else { d2 };
    Ball { pos: b.pos, movement: Movement { direction: d3, speed: b.movement.speed } }
}

pub open spec fn below_floor(c: ConstantsManager, b: Ball) -> bool {
    b.pos.y < -c.half_height_spec()
}

pub struct WallOutcome {
    pub balls: Seq<Ball>,
    pub events: Seq<GameEvents>,
}

/// The wall step: balls below the floor are removed and signalled, the
/// others reflected off the walls they press against.
pub open spec fn walls_spec(c: ConstantsManager, balls: Seq<Ball>) -> WallOutcome
    decreases balls.len(),
{
    if balls.len() == 0 {
        WallOutcome { balls: Seq::empty(), events: Seq::empty() }
    } else {
        let r = walls_spec(c, balls.drop_last());
        let b = balls.last();
        if below_floor(c, b) {
            WallOutcome { balls: r.balls, events: r.events.push(GameEvents::DestroyBall) }
        } else {
            WallOutcome { balls: r.balls.push(wall_reflect(c, b)), events: r.events }
        }
    }
}

/// One simulation tick. Outside `Shooting` nothing moves. While shooting:
/// emission on cadence, movement, brick contacts, walls, then the win check,
/// then the queued signals.
pub open spec fn tick_spec(v: GameView) -> GameView {
    if v.state != GameState::Shooting {
        v
    } else {
        let v2 = advance_spec(cadence_spec(v));
        let r = collided(v2, Seq::empty());
        let v3 = GameView { balls: r.balls, bricks: r.bricks, score: r.score, ..v2 };
        let w = walls_spec(v3.config, v3.balls);
        let v4 = GameView { balls: w.balls, ..v3 };
        events_spec(check_blocks_spec(v4), r.events + w.events)
    }
}

fn advance_ball(c: &ConstantsManager, b: Ball) -> (r: Ball)
    requires
        c.wf(),
        ball_in_play(*c, b),
    ensures
        r == advanced(b),
        ball_bounded(*c, r),
{
    let v = b.movement.velocity();
    let ghost hw = c.half_width_spec();
    let ghost hh = c.half_height_spec();
    let ghost m = b.movement;
    assert(b.pos.x < -hw ==> v.x >= 0) by (nonlinear_arith)
        requires
            v.x == m.direction.x * m.speed,
            m.speed >= 0,
            b.pos.x < -hw ==> m.direction.x >= 0;
    assert(b.pos.x > hw ==> v.x <= 0) by (nonlinear_arith)
        requires
            v.x == m.direction.x * m.speed,
            m.speed >= 0,
            b.pos.x > hw ==> m.direction.x <= 0;
    assert(b.pos.y > hh ==> v.y <= 0) by (nonlinear_arith)
        requires
            v.y == m.direction.y * m.speed,
            m.speed >= 0,
            b.pos.y > hh ==> m.direction.y <= 0;
    Ball { pos: Vector { x: b.pos.x + v.x, y: b.pos.y + v.y }, movement: b.movement }
}

fn wall_reflect_exec(c: &ConstantsManager, b: Ball) -> (r: Ball)
    requires
        c.wf(),
        ball_bounded(*c, b),
        !below_floor(*c, b),
    ensures
        r == wall_reflect(*c, b),
        ball_in_play(*c, r),
        r.movement.speed == b.movement.speed,
        norm2(r.movement.direction) == norm2(b.movement.direction),
{
    let hw = c.half_width();
    let hh = c.half_height();
    let mut m = b.movement;
    if b.pos.y > hh && m.direction.y > 0 {
        m.flip_y();
    }
    if b.pos.x < -hw && m.direction.x < 0 {
        m.flip_x();
    }
    if b.pos.x > hw && m.direction.x > 0 {
        m.flip_x();
    }
    Ball { pos: b.pos, movement: m }
}

fn contacts_exec(
    c: &ConstantsManager,
    pos: Vector,
    movement: Movement,
    bricks: &Vec<Brick>,
    score: u64,
    events: &mut Vec<GameEvents>,
) -> (r: (Movement, Vec<Brick>, u64))
    requires
        c.wf(),
        movement.wf(),
        in_range(pos, MAX_COORD as int),
        forall|i: int| 0 <= i < bricks@.len() ==> brick_ok(#[trigger] bricks@[i]),
    ensures
        ({
            let k = contacts(
                *c,
                pos,
                Contact { movement, bricks: Seq::empty(), score, events: old(events)@ },
                bricks@,
            );
            &&& r.0 == k.movement
            &&& r.1@ == k.bricks
            &&& r.2 == k.score
            &&& final(events)@ == k.events
        }),
        r.0.wf(),
        r.0.speed == movement.speed,
        norm2(r.0.direction) == norm2(movement.direction),
        r.2 >= score,
        forall|i: int| 0 <= i < r.1@.len() ==> brick_ok(#[trigger] r.1@[i]),
{
    let ghost start = Contact { movement, bricks: Seq::empty(), score, events: events@ };
    let ball_half = c.ball_half();
    let block_half = c.block_half();
    let mut m = movement;
    let mut kept: Vec<Brick> = Vec::new();
    let mut sc = score;
    let mut i: usize = 0;
    while i < bricks.len()
        invariant
            c.wf(),
            in_range(pos, MAX_COORD as int),
            ball_half == c.ball_half_spec(),
            block_half == c.block_half_spec(),
            forall|j: int| 0 <= j < bricks@.len() ==> brick_ok(#[trigger] bricks@[j]),
            i <= bricks@.len(),
            ({
                let k = contacts(*c, pos, start, bricks@.subrange(0, i as int));
                &&& m == k.movement
                &&& kept@ == k.bricks
                &&& sc == k.score
                &&& events@ == k.events
            }),
            m.wf(),
            m.speed == movement.speed,
            norm2(m.direction) == norm2(movement.direction),
            sc >= score,
            forall|j: int| 0 <= j < kept@.len() ==> brick_ok(#[trigger] kept@[j]),
        decreases bricks@.len() - i,
    {
        assert(bricks@.subrange(0, i + 1).drop_last() =~= bricks@.subrange(0, i as int));
        let br = bricks[i];
        assert(brick_ok(bricks@[i as int]));
        match collide(pos, ball_half, br.pos, block_half) {
            None => {
                kept.push(br);
            },
            Some(side) => {
                match br.block {
                    Block::Standard(h) => {
                        if !m.moving_into(side) {
                            kept.push(br);
                        } else {
                            m.bounce(side);
                            if h > 1 {
                                kept.push(Brick { pos: br.pos, block: Block::Standard(h - 1) });
                            } else if sc < u64::MAX {
                                sc = sc + 1;
                            }
                        }
                    },
                    Block::AddBall => {
                        events.push(GameEvents::AddBall);
                    },
                }
            },
        }
        i = i + 1;
    }
    assert(bricks@.subrange(0, bricks@.len() as int) =~= bricks@);
    (m, kept, sc)
}

impl Game {
    /// One emission while shooting (see `emit_spec`).
    pub fn ball_setup(&mut self)
        requires
            old(self)@.wf(),
        ensures
            final(self)@ == emit_spec(old(self)@),
            final(self)@.wf(),
    {
        if self.state == GameState::Shooting && !self.shooter.finished {
            let ball = construct_ball(&self.config, self.aim);
            self.balls.push(ball);
            self.shooter.shooted = self.shooter.shooted + 1;
            if self.shooter.shooted == self.shooter.count {
                self.shooter.shooted = 0;
                self.shooter.finished = true;
            }
        }
    }

    fn emission_system(&mut self)
        requires
            old(self)@.wf(),
        ensures
            final(self)@ == cadence_spec(old(self)@),
            final(self)@.wf(),
    {
        if self.emit_clock == 0 {
            self.ball_setup();
        }
        self.emit_clock = (self.emit_clock + 1) % self.emit_every;
    }

    /// Moves every ball by one fixed step.
    pub fn movement_system(&mut self)
        requires
            old(self)@.wf(),
        ensures
            final(self)@ == advance_spec(old(self)@),
            final(self)@.wf_moving(),
    {
        let ghost v = self@;
        let mut out: Vec<Ball> = Vec::new();
        let mut i: usize = 0;
        while i < self.balls.len()
            invariant
                self@ == v,
                v.wf(),
                i <= v.balls.len(),
                out@ =~= v.balls.subrange(0, i as int).map_values(|b: Ball| advanced(b)),
                forall|j: int| 0 <= j < out@.len() ==> ball_bounded(v.config, #[trigger] out@[j]),
                forall|j: int| 0 <= j < out@.len() ==> follows_aim(v.aim, #[trigger] out@[j]),
            decreases v.balls.len() - i,
        {
            assert(ball_in_play(v.config, v.balls[i as int]));
            assert(follows_aim(v.aim, v.balls[i as int]));
            let b = advance_ball(&self.config, self.balls[i]);
            out.push(b);
            i = i + 1;
        }
        assert(v.balls.subrange(0, v.balls.len() as int) =~= v.balls);
        self.balls = out;
    }

    /// Every ball against every brick (see `contact_step`). Contacts with
    /// power-up bricks are queued as `AddBall` signals.
    pub fn collision_events(&mut self, events: &mut Vec<GameEvents>)
        requires
            old(self)@.wf_moving(),
        ensures
            ({
                let r = collided(old(self)@, old(events)@);
                &&& final(self)@ == (GameView {
                    balls: r.balls,
                    bricks: r.bricks,
                    score: r.score,
                    ..old(self)@
                })
                &&& final(events)@ == r.events
            }),
            final(self)@.score >= old(self)@.score,
            final(self)@.wf_moving(),
    {
        let ghost v = self@;
        let ghost start = Resolution {
            balls: Seq::empty(),
            bricks: v.bricks,
            score: v.score,
            events: events@,
        };
        let c = self.config;
        let mut cur: Vec<Brick> = Vec::new();
        std::mem::swap(&mut cur, &mut self.bricks);
        let mut out: Vec<Ball> = Vec::new();
        let mut sc: u64 = self.scoreboard.score;
        let mut i: usize = 0;
        while i < self.balls.len()
            invariant
                c == v.config,
                v.wf_moving(),
                self.balls@ == v.balls,
                i <= v.balls.len(),
                ({
                    let r = resolve_all(c, start, v.balls.subrange(0, i as int));
                    &&& out@ == r.balls
                    &&& cur@ == r.bricks
                    &&& sc == r.score
                    &&& events@ == r.events
                }),
                sc >= v.score,
                forall|j: int| 0 <= j < out@.len() ==> ball_bounded(c, #[trigger] out@[j]),
                forall|j: int| 0 <= j < out@.len() ==> follows_aim(v.aim, #[trigger] out@[j]),
                forall|j: int| 0 <= j < cur@.len() ==> brick_ok(#[trigger] cur@[j]),
            decreases v.balls.len() - i,
        {
            assert(v.balls.subrange(0, i + 1).drop_last() =~= v.balls.subrange(0, i as int));
            let b = self.balls[i];
            assert(ball_bounded(c, v.balls[i as int]));
            assert(follows_aim(v.aim, v.balls[i as int]));
            let (m, kept, sc2) = contacts_exec(&c, b.pos, b.movement, &cur, sc, events);
            out.push(Ball { pos: b.pos, movement: m });
            cur = kept;
            sc = sc2;
            i = i + 1;
        }
        assert(v.balls.subrange(0, v.balls.len() as int) =~= v.balls);
        self.balls = out;
        self.bricks = cur;
        self.scoreboard.score = sc;
    }

    /// Removes the balls below the floor, queueing a `DestroyBall` signal
    /// for each, and reflects the others off the walls (see `wall_reflect`).
    pub fn ball_wall_collision_system(&mut self, events: &mut Vec<GameEvents>)
        requires
            old(self)@.wf_moving(),
        ensures
            ({
                let w = walls_spec(old(self)@.config, old(self)@.balls);
                &&& final(self)@ == (GameView { balls: w.balls, ..old(self)@ })
                &&& final(events)@ == old(events)@ + w.events
            }),
            final(self)@.wf(),
    {
        let ghost v = self@;
        let ghost e0 = events@;
        let c = self.config;
        let floor = -c.half_height();
        let mut out: Vec<Ball> = Vec::new();
        let mut i: usize = 0;
        while i < self.balls.len()
            invariant
                c == v.config,
                floor == -c.half_height_spec(),
                v.wf_moving(),
                self@ == v,
                i <= v.balls.len(),
                ({
                    let w = walls_spec(c, v.balls.subrange(0, i as int));
                    &&& out@ == w.balls
                    &&& events@ == e0 + w.events
                }),
                forall|j: int| 0 <= j < out@.len() ==> ball_in_play(c, #[trigger] out@[j]),
                forall|j: int| 0 <= j < out@.len() ==> follows_aim(v.aim, #[trigger] out@[j]),
            decreases v.balls.len() - i,
        {
            assert(v.balls.subrange(0, i + 1).drop_last() =~= v.balls.subrange(0, i as int));
            let ghost w = walls_spec(c, v.balls.subrange(0, i as int));
            let b = self.balls[i];
            assert(ball_bounded(c, v.balls[i as int]));
            assert(follows_aim(v.aim, v.balls[i as int]));
            if b.pos.y < floor {
                events.push(GameEvents::DestroyBall);
                assert(events@ =~= e0 + w.events.push(GameEvents::DestroyBall));
            } else {
                out.push(wall_reflect_exec(&c, b));
            }
            i = i + 1;
        }
        assert(v.balls.subrange(0, v.balls.len() as int) =~= v.balls);
        self.balls = out;
    }

    /// One simulation tick (see `tick_spec`); the score never decreases.
    pub fn tick(&mut self)
        requires
            old(self)@.wf(),
        ensures
            final(self)@ == tick_spec(old(self)@),
            final(self)@.score >= old(self)@.score,
            final(self)@.wf(),
    {
        if self.state != GameState::Shooting {
            return;
        }
        self.emission_system();
        self.movement_system();
        let mut events: Vec<GameEvents> = Vec::new();
        self.collision_events(&mut events);
        self.ball_wall_collision_system(&mut events);
        self.check_blocks_system();
        self.read_game_events(&events);
    }
}

} // verus!
