use brickgame::builder::{
    construct_ball, construct_block_add_ball, construct_block_standard, direction_ball_to_mouse,
    field_pos_to_transform, BrickType, LayoutBrick,
};
use brickgame::components::Movement;
use brickgame::constants::ConstantsManager;
use brickgame::entity::{Ball, Block, Brick};
use brickgame::geometry::{collide, isqrt, normalize, Collision, Vector, UNIT};
use brickgame::resource::{outcome_message, Shooter};
use brickgame::system::{Game, GameEvents, GameState, PlayerInput};

fn config() -> ConstantsManager {
    ConstantsManager {
        block_size: 10,
        ball_size: 2,
        window_width: 100,
        window_height: 100,
        ballspeed: 5,
    }
}

fn v(x: i64, y: i64) -> Vector {
    Vector { x, y }
}

fn up() -> Movement {
    Movement { direction: v(0, UNIT), speed: 5 }
}

fn shooting_game() -> Game {
    let mut g = Game::new(config(), 10);
    g.state = GameState::Shooting;
    g.emit_clock = 1;
    g
}

#[test]
fn shooter_default_and_reset() {
    let mut s = Shooter::default();
    assert_eq!(s.count, 40);
    assert_eq!(s.shooted, 0);
    assert!(!s.finished);
    s.shooted = 7;
    s.finished = true;
    s.count = 41;
    s.reset();
    assert_eq!(s.count, 41);
    assert_eq!(s.shooted, 0);
    assert!(!s.finished);
}

#[test]
fn integer_square_root() {
    assert_eq!(isqrt(0), 0);
    assert_eq!(isqrt(1), 1);
    assert_eq!(isqrt(24), 4);
    assert_eq!(isqrt(25), 5);
    assert_eq!(isqrt(u64::MAX as u128), 4294967295);
    assert_eq!(isqrt(2097152), 1448);
}

#[test]
fn normalize_scales_to_unit() {
    assert_eq!(normalize(v(3, 4)), v(614, 819));
    assert_eq!(normalize(v(-3, 4)), v(-614, 819));
    assert_eq!(normalize(v(0, -7)), v(0, -UNIT));
    assert_eq!(normalize(v(1, 1)), v(724, 724));
    assert_eq!(normalize(v(0, 1)), v(0, UNIT));
}

#[test]
fn movement_new_and_flips() {
    let mut m = Movement::new(v(0, 5), 3);
    assert_eq!(m.x(), 0);
    assert_eq!(m.y(), UNIT);
    assert_eq!(m.speed, 3);
    m.flip_y();
    assert_eq!(m.y(), -UNIT);
    m.set_x(-UNIT);
    assert_eq!((m.x(), m.y()), (-724, -724));
    m.flip_x();
    assert_eq!(m.x(), 724);
    m.set_y(0);
    assert_eq!((m.x(), m.y()), (UNIT, 0));
    assert_eq!(m.velocity(), v(3 * UNIT, 0));
}

#[test]
fn bounce_is_sign_gated() {
    let mut m = Movement { direction: v(600, 800), speed: 1 };
    m.bounce(Collision::Left);
    assert_eq!(m.direction, v(-600, 800));
    m.bounce(Collision::Left);
    assert_eq!(m.direction, v(-600, 800));
    m.bounce(Collision::Bottom);
    assert_eq!(m.direction, v(-600, -800));
    m.bounce(Collision::Top);
    assert_eq!(m.direction, v(-600, 800));
    m.bounce(Collision::Right);
    assert_eq!(m.direction, v(600, 800));
}

#[test]
fn reflections_keep_direction_length() {
    let mut m = Movement::new(v(3, 4), 2);
    let n0 = m.x() * m.x() + m.y() * m.y();
    for side in [Collision::Left, Collision::Top, Collision::Right, Collision::Bottom, Collision::Left] {
        m.bounce(side);
        assert_eq!(m.x() * m.x() + m.y() * m.y(), n0);
        assert!(m.x() != 0 || m.y() != 0);
    }
}

#[test]
fn collide_classifies_sides() {
    let b = v(0, 0);
    assert_eq!(collide(v(-900, 100), 100, b, 1000), Some(Collision::Left));
    assert_eq!(collide(v(900, -100), 100, b, 1000), Some(Collision::Right));
    assert_eq!(collide(v(100, 900), 100, b, 1000), Some(Collision::Top));
    assert_eq!(collide(v(-100, -900), 100, b, 1000), Some(Collision::Bottom));
    assert_eq!(collide(v(0, 0), 100, b, 1000), Some(Collision::Top));
    assert_eq!(collide(v(1100, 0), 100, b, 1000), None);
    assert_eq!(collide(v(0, -1100), 100, b, 1000), None);
}

#[test]
fn field_positions_and_builders() {
    let c = config();
    assert_eq!(field_pos_to_transform(&c, (0, 0)), v(-46080, -5120));
    assert_eq!(field_pos_to_transform(&c, (3, 2)), v(-15360, 15360));
    let s = construct_block_standard(&c, (3, 2), 4);
    assert_eq!(s.pos, v(-15360, 15360));
    assert_eq!(s.block, Block::Standard(4));
    let a = construct_block_add_ball(&c, (0, 0));
    assert_eq!(a.pos, v(-46080, -5120));
    assert_eq!(a.block, Block::AddBall);
    let b = construct_ball(&c, up());
    assert_eq!(b.pos, v(0, -51200));
    assert_eq!(b.movement.direction, v(0, UNIT));
}

#[test]
fn aim_offset_and_click() {
    let c = config();
    assert_eq!(direction_ball_to_mouse(&c, v(50, 30)), v(0, 30720));
    assert_eq!(direction_ball_to_mouse(&c, v(0, 0)), v(-51200, 0));
    let g = Game::new(c, 4);
    let m = g.aim_from_click(Some(v(50, 30))).unwrap();
    assert_eq!(m.direction, v(0, UNIT));
    assert_eq!(m.speed, 5);
    let m = g.aim_from_click(Some(v(100, 50))).unwrap();
    assert_eq!(m.direction, v(724, 724));
    assert!(g.aim_from_click(Some(v(50, 0))).is_none());
    assert!(g.aim_from_click(Some(v(101, 10))).is_none());
    assert!(g.aim_from_click(Some(v(10, -1))).is_none());
    assert!(g.aim_from_click(None).is_none());
}

#[test]
fn confirm_places_layout_and_starts_aiming() {
    let mut g = Game::new(config(), 4);
    g.has_won = Some(false);
    let layout = vec![
        LayoutBrick { position: (1, 2), brick_type: BrickType::Standard(3) },
        LayoutBrick { position: (0, 0), brick_type: BrickType::AddBall },
        LayoutBrick { position: (2, 2), brick_type: BrickType::Empty },
        LayoutBrick { position: (100, 0), brick_type: BrickType::Standard(1) },
    ];
    g.button_system(&layout);
    assert_eq!(g.state, GameState::Aiming);
    assert_eq!(g.has_won, None);
    assert_eq!(g.bricks.len(), 2);
    assert_eq!(g.bricks[0].pos, v(-35840, 15360));
    assert_eq!(g.bricks[0].block, Block::Standard(3));
    assert_eq!(g.bricks[1].block, Block::AddBall);
    g.button_system(&layout);
    assert_eq!(g.bricks.len(), 2);
}

#[test]
fn click_while_aiming_starts_a_fresh_volley() {
    let mut g = Game::new(config(), 4);
    g.button_system(&vec![]);
    g.shooter.shooted = 3;
    g.shooter.finished = true;
    g.mouse_listener_system(PlayerInput::AimClick(None));
    assert_eq!(g.state, GameState::Aiming);
    g.mouse_listener_system(PlayerInput::AimClick(Some(v(50, 30))));
    assert_eq!(g.state, GameState::Shooting);
    assert_eq!(g.shooter.shooted, 0);
    assert!(!g.shooter.finished);
    assert_eq!(g.aim.direction, v(0, UNIT));
}

#[test]
fn volley_of_three_emits_three_balls() {
    let mut g = shooting_game();
    g.shooter.count = 3;
    g.ball_setup();
    g.ball_setup();
    assert_eq!(g.shooter.shooted, 2);
    assert!(!g.shooter.finished);
    g.ball_setup();
    assert_eq!(g.balls.len(), 3);
    assert!(g.shooter.finished);
    assert_eq!(g.shooter.shooted, 0);
    g.ball_setup();
    assert_eq!(g.balls.len(), 3);
    assert!(g.shooter.finished);
}

#[test]
fn emission_follows_the_cadence() {
    let mut g = Game::new(config(), 3);
    g.state = GameState::Shooting;
    g.aim = up();
    g.bricks.push(Brick { pos: v(40000, 40000), block: Block::Standard(9) });
    let mut counts = Vec::new();
    for _ in 0..7 {
        g.tick();
        counts.push(g.balls.len());
    }
    assert_eq!(counts, vec![1, 1, 1, 2, 2, 2, 3]);
}

#[test]
fn standard_brick_loses_one_health_per_contact() {
    let mut g = shooting_game();
    g.bricks.push(Brick { pos: v(0, 9000), block: Block::Standard(3) });
    g.bricks.push(Brick { pos: v(40000, 40000), block: Block::Standard(9) });
    g.balls.push(Ball { pos: v(0, 0), movement: up() });
    g.tick();
    assert_eq!(g.bricks.len(), 2);
    assert_eq!(g.bricks[0].block, Block::Standard(2));
    assert_eq!(g.scoreboard.score, 0);
    g.balls[0] = Ball { pos: v(0, 0), movement: up() };
    g.tick();
    assert_eq!(g.bricks[0].block, Block::Standard(1));
    g.balls[0] = Ball { pos: v(0, 0), movement: up() };
    g.tick();
    assert_eq!(g.bricks.len(), 1);
    assert_eq!(g.bricks[0].block, Block::Standard(9));
    assert_eq!(g.scoreboard.score, 1);
    assert_eq!(g.state, GameState::Shooting);
}

#[test]
fn overlap_while_moving_away_does_no_damage() {
    let mut g = shooting_game();
    g.bricks.push(Brick { pos: v(0, 9000), block: Block::Standard(3) });
    let down = Movement { direction: v(0, -UNIT), speed: 1 };
    g.balls.push(Ball { pos: v(0, 5000), movement: down });
    g.tick();
    assert_eq!(g.bricks[0].block, Block::Standard(3));
    assert_eq!(g.balls[0].movement.direction, v(0, -UNIT));
    assert_eq!(g.scoreboard.score, 0);
}

#[test]
fn contact_from_below_reflects_the_ball() {
    let mut g = shooting_game();
    g.bricks.push(Brick { pos: v(0, 9000), block: Block::Standard(5) });
    g.balls.push(Ball { pos: v(0, 0), movement: up() });
    g.tick();
    assert_eq!(g.bricks[0].block, Block::Standard(4));
    assert_eq!(g.balls[0].movement.direction, v(0, -UNIT));
    g.tick();
    assert_eq!(g.bricks[0].block, Block::Standard(4));
}

#[test]
fn add_ball_brick_raises_the_quota() {
    let mut g = shooting_game();
    g.shooter.shooted = 2;
    g.bricks.push(Brick { pos: v(0, 5120), block: Block::AddBall });
    g.bricks.push(Brick { pos: v(40000, 40000), block: Block::Standard(9) });
    g.balls.push(Ball { pos: v(0, 0), movement: up() });
    g.tick();
    assert_eq!(g.shooter.count, 41);
    assert_eq!(g.shooter.shooted, 2);
    assert_eq!(g.bricks.len(), 1);
    assert_eq!(g.scoreboard.score, 0);
    assert_eq!(g.balls[0].movement.direction, v(0, UNIT));
}

#[test]
fn read_game_events_applies_signals() {
    let mut g = shooting_game();
    g.balls.push(Ball { pos: v(0, 0), movement: up() });
    g.read_game_events(&vec![GameEvents::AddBall, GameEvents::AddBall, GameEvents::DestroyBall]);
    assert_eq!(g.shooter.count, 42);
    assert_eq!(g.state, GameState::Shooting);
    g.balls.clear();
    g.read_game_events(&vec![GameEvents::DestroyBall]);
    assert_eq!(g.state, GameState::Aiming);
}

#[test]
fn wall_reflection_happens_once() {
    let mut g = shooting_game();
    g.bricks.push(Brick { pos: v(-40000, 40000), block: Block::Standard(9) });
    let right = Movement { direction: v(UNIT, 0), speed: 5 };
    g.balls.push(Ball { pos: v(50000, 0), movement: right });
    g.tick();
    assert_eq!(g.balls[0].pos, v(55120, 0));
    assert_eq!(g.balls[0].movement.direction, v(-UNIT, 0));
    g.tick();
    assert_eq!(g.balls[0].pos, v(50000, 0));
    assert_eq!(g.balls[0].movement.direction, v(-UNIT, 0));
}

#[test]
fn top_wall_reflects_downward() {
    let mut g = shooting_game();
    g.bricks.push(Brick { pos: v(-40000, 40000), block: Block::Standard(9) });
    g.balls.push(Ball { pos: v(0, 50000), movement: up() });
    g.tick();
    assert_eq!(g.balls[0].movement.direction, v(0, -UNIT));
    g.tick();
    assert_eq!(g.balls[0].movement.direction, v(0, -UNIT));
}

#[test]
fn clearing_the_field_wins_at_once() {
    let mut g = shooting_game();
    g.bricks.push(Brick { pos: v(0, 9000), block: Block::Standard(1) });
    g.balls.push(Ball { pos: v(0, 0), movement: up() });
    g.balls.push(Ball { pos: v(-30000, 0), movement: up() });
    g.tick();
    assert_eq!(g.state, GameState::Init);
    assert_eq!(g.has_won, Some(true));
    assert!(g.balls.is_empty());
    assert!(g.bricks.is_empty());
    assert_eq!(g.scoreboard.score, 1);
    assert_eq!(g.shooter.shooted, 0);
    assert!(!g.shooter.finished);
}

#[test]
fn last_ball_lost_with_bricks_near_floor_loses() {
    let mut g = shooting_game();
    g.shooter.finished = true;
    g.bricks.push(Brick { pos: v(0, 20000), block: Block::Standard(2) });
    g.bricks.push(Brick { pos: v(20000, -25000), block: Block::Standard(2) });
    let down = Movement { direction: v(0, -UNIT), speed: 5 };
    g.balls.push(Ball { pos: v(0, -51100), movement: down });
    g.tick();
    assert_eq!(g.has_won, Some(false));
    assert_eq!(g.state, GameState::Init);
    assert!(g.bricks.is_empty());
    assert!(g.balls.is_empty());
}

#[test]
fn last_ball_lost_moves_bricks_down() {
    let mut g = shooting_game();
    g.shooter.finished = true;
    g.shooter.shooted = 0;
    g.scoreboard.score = 6;
    g.bricks.push(Brick { pos: v(0, 20000), block: Block::Standard(2) });
    g.bricks.push(Brick { pos: v(20000, -20000), block: Block::AddBall });
    let down = Movement { direction: v(0, -UNIT), speed: 5 };
    g.balls.push(Ball { pos: v(0, -51100), movement: down });
    g.tick();
    assert_eq!(g.state, GameState::Aiming);
    assert_eq!(g.has_won, None);
    assert_eq!(g.bricks[0].pos, v(0, 9760));
    assert_eq!(g.bricks[1].pos, v(20000, -30240));
    assert!(g.balls.is_empty());
    assert_eq!(g.shooter.shooted, 0);
    assert!(!g.shooter.finished);
    assert_eq!(g.scoreboard.score, 6);
}

#[test]
fn move_blocks_stops_at_the_loss_line() {
    let mut g = Game::new(config(), 4);
    g.state = GameState::MovingBlocks;
    g.bricks.push(Brick { pos: v(0, -20000), block: Block::Standard(2) });
    g.move_blocks_system();
    assert_eq!(g.state, GameState::Aiming);
    assert_eq!(g.bricks[0].pos, v(0, -30240));
    g.state = GameState::MovingBlocks;
    g.move_blocks_system();
    assert_eq!(g.state, GameState::Init);
    assert_eq!(g.has_won, Some(false));
    assert!(g.bricks.is_empty());
}

#[test]
fn full_round_returns_to_aiming() {
    let mut g = Game::new(config(), 2);
    let layout = vec![
        LayoutBrick { position: (9, 9), brick_type: BrickType::Standard(50) },
    ];
    g.button_system(&layout);
    assert_eq!(g.state, GameState::Aiming);
    g.mouse_listener_system(PlayerInput::AimClick(Some(v(0, 10))));
    assert_eq!(g.state, GameState::Shooting);
    let mut last = g.scoreboard.score;
    for _ in 0..20 {
        g.tick();
        assert!(g.scoreboard.score >= last);
        last = g.scoreboard.score;
    }
    assert_eq!(g.state, GameState::Shooting);
    g.mouse_listener_system(PlayerInput::SkipVolley);
    assert_eq!(g.state, GameState::Aiming);
    assert_eq!(g.shooter.shooted, 0);
    assert!(!g.shooter.finished);
    assert!(g.balls.is_empty());
    assert_eq!(g.bricks.len(), 1);
}

#[test]
fn nothing_moves_outside_shooting() {
    let mut g = Game::new(config(), 1);
    g.balls.push(Ball { pos: v(0, 0), movement: up() });
    g.tick();
    assert_eq!(g.balls[0].pos, v(0, 0));
    assert_eq!(g.state, GameState::Init);
    g.check_blocks_system();
    assert_eq!(g.state, GameState::Init);
    g.mouse_listener_system(PlayerInput::SkipVolley);
    assert_eq!(g.state, GameState::Init);
}

#[test]
fn despawn_systems_clear_the_field() {
    let mut g = shooting_game();
    g.shooter.shooted = 4;
    g.balls.push(Ball { pos: v(0, 0), movement: up() });
    g.bricks.push(Brick { pos: v(0, 0), block: Block::AddBall });
    g.despawn_balls_system();
    assert!(g.balls.is_empty());
    assert_eq!(g.shooter.shooted, 0);
    assert_eq!(g.bricks.len(), 1);
    g.despawn_blocks_system();
    assert!(g.bricks.is_empty());
}

#[test]
fn outcome_messages() {
    assert_eq!(outcome_message(None), "Init new Game with space or click!");
    assert_eq!(outcome_message(Some(true)), "you won. Init new Game with space or click!");
    assert_eq!(outcome_message(Some(false)), "you lost. Init new Game with space or click!");
}

#[test]
fn normalized_length_is_near_unit() {
    for (x, y) in [(3000, 4000), (-1024, 0), (777, -12345), (50000, 50001)] {
        let d = normalize(v(x, y));
        let n = d.x * d.x + d.y * d.y;
        assert!(n > UNIT * UNIT - 4 * UNIT - 2);
        assert!(n < (UNIT + 1) * (UNIT + 1));
    }
    assert_eq!(normalize(v(3000, 4000)), v(614, 819));
}

#[test]
fn two_balls_on_one_power_up_raise_the_quota_once() {
    let mut g = shooting_game();
    g.bricks.push(Brick { pos: v(0, 5120), block: Block::AddBall });
    g.bricks.push(Brick { pos: v(40000, 40000), block: Block::Standard(9) });
    g.balls.push(Ball { pos: v(0, 0), movement: up() });
    g.balls.push(Ball { pos: v(100, 0), movement: up() });
    g.tick();
    assert_eq!(g.shooter.count, 41);
    assert_eq!(g.bricks.len(), 1);
    assert_eq!(g.balls.len(), 2);
}

#[test]
fn wall_step_over_several_balls() {
    let mut g = shooting_game();
    let right = Movement { direction: v(UNIT, 0), speed: 5 };
    let left = Movement { direction: v(-UNIT, 0), speed: 5 };
    g.balls.push(Ball { pos: v(60000, 0), movement: right });
    g.balls.push(Ball { pos: v(0, -60000), movement: up() });
    g.balls.push(Ball { pos: v(-60000, 100), movement: right });
    g.balls.push(Ball { pos: v(-60000, 200), movement: left });
    let mut events = Vec::new();
    g.ball_wall_collision_system(&mut events);
    assert_eq!(events, vec![GameEvents::DestroyBall]);
    assert_eq!(g.balls.len(), 3);
    assert_eq!(g.balls[0].movement.direction, v(-UNIT, 0));
    assert_eq!(g.balls[0].pos, v(60000, 0));
    assert_eq!(g.balls[1].movement.direction, v(UNIT, 0));
    assert_eq!(g.balls[2].movement.direction, v(UNIT, 0));
    assert_eq!(g.balls[2].pos, v(-60000, 200));
}
