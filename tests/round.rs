use stone_sheet::chunk::{vert_height_to_color, HeightBand};
use stone_sheet::collision::{detect_collisions, detect_powerup_collisions};
use stone_sheet::constants::{CELL_SIZE, NUM_CHUNKS, SPLASH_DELAY, STOPPED_DELAY};
use stone_sheet::fixed::{ONE, UNIT};
use stone_sheet::game::{
    Game, GameEvent, GamePhase, GameState, HurlStone, PointerInput, PowerupHit, RayHit,
};
use stone_sheet::player::{AimInput, Aiming};
use stone_sheet::point::Point3;
use stone_sheet::sheet::{Sheet, TerrainSculpt};
use stone_sheet::timey::Timey;

fn tick(g: &mut Game, dt: u64) {
    g.dispatch(GameEvent::Tick { dt, click: false, shift: false });
}

fn game_in_aiming() -> Game {
    let mut g = Game::new();
    assert_eq!(g.state, GameState::Splash);
    tick(&mut g, SPLASH_DELAY);
    assert_eq!(g.state, GameState::InGame);
    assert_eq!(g.phase, GamePhase::Aiming);
    g
}

fn flat_sheet() -> Sheet {
    Sheet::setup(&vec![vec![0i64; CELL_SIZE]; CELL_SIZE * NUM_CHUNKS])
}

#[test]
fn height_field_scenario() {
    let mut m = stone_sheet::height_map::HeightMap::new(100 * UNIT, 100 * UNIT, 10, 10);
    m.map[0][0] = 1234;
    m.map[5][5] = 4321;
    assert_eq!(m.pos_to_height(0, 0), Some(1234));
    assert_eq!(m.pos_to_height(50 * UNIT, 50 * UNIT), Some(4321));
    assert_eq!(m.pos_to_height(100_100, 0), None);
}

#[test]
fn hurl_starts_sculpting() {
    let mut g = game_in_aiming();
    assert!(!g.stone.dynamic);
    g.dispatch(GameEvent::Hurl(HurlStone { power: 600_000, angle: 100_000 }));
    assert_eq!(g.phase, GamePhase::Sculpting);
    assert!(g.stone.dynamic);
    assert_eq!(g.stone.vel, Point3::new(20 * UNIT, -100 * UNIT, 300 * UNIT));
    // A second hurl is ignored outside aiming.
    g.dispatch(GameEvent::Hurl(HurlStone { power: ONE, angle: -(ONE as i64) }));
    assert_eq!(g.stone.vel, Point3::new(20 * UNIT, -100 * UNIT, 300 * UNIT));
}

#[test]
fn negative_aim_launches_left() {
    let mut g = game_in_aiming();
    g.dispatch(GameEvent::Hurl(HurlStone { power: 0, angle: -250_000 }));
    assert_eq!(g.stone.vel.x, -50 * UNIT);
}

#[test]
fn aim_timeout_fires_the_stone() {
    let mut g = game_in_aiming();
    tick(&mut g, 24_999);
    assert_eq!(g.phase, GamePhase::Aiming);
    tick(&mut g, 1);
    assert_eq!(g.phase, GamePhase::Sculpting);
    assert!(g.stone.dynamic);
}

#[test]
fn sculpt_raises_the_terrain_around_the_hit() {
    let mut g = game_in_aiming();
    g.dispatch(GameEvent::Hurl(HurlStone { power: 600_000, angle: 0 }));
    let mut sheet = flat_sheet();
    let generation = sheet.chunks[1].mesh.collider_generation;
    let hit = Point3::new(0, 0, 400 * UNIT);
    let orders = g.click_terrain(
        PointerInput { left: false, right: true, alt_right: false, shift: false },
        &vec![RayHit { chunk: 1, point: hit, triangle: Some(7) }],
    );
    assert_eq!(orders, vec![(1, TerrainSculpt { up: true, idx: 7, point: hit })]);
    assert!(g.dispatch_sculpt(&mut sheet, orders[0].0, orders[0].1));
    let map = &sheet.height_map.map;
    let row = CELL_SIZE + 70;
    assert_eq!(map[row][70], 400);
    assert!(map[row][74] > 0 && map[row][74] < map[row][70]);
    assert_eq!(map[row][74], 258);
    assert_eq!(map[row + 4][74], 0);
    assert_eq!(map[row + 5][70], 0);
    assert_eq!(sheet.chunks[1].mesh.collider_generation, generation + 1);
    assert_eq!(sheet.chunks[1].mesh.heights[70 * CELL_SIZE + 70], 400);
    assert_eq!(sheet.chunks[0].mesh.collider_generation, 1);
    // The same spot again is held back until the pointer moves.
    let again = g.click_terrain(
        PointerInput { left: false, right: true, alt_right: false, shift: false },
        &vec![RayHit { chunk: 1, point: hit, triangle: Some(7) }],
    );
    assert!(again.is_empty());
}

#[test]
fn sculpt_lowering_and_guards() {
    let mut g = game_in_aiming();
    let mut sheet = flat_sheet();
    let ev = TerrainSculpt { up: false, idx: 0, point: Point3::new(0, 0, 0) };
    // Not sculpting yet: nothing happens.
    assert!(!g.dispatch_sculpt(&mut sheet, 0, ev));
    g.dispatch(GameEvent::Hurl(HurlStone { power: 600_000, angle: 0 }));
    sheet.height_map.add_height(70, 70, 1000, 0);
    assert!(g.dispatch_sculpt(&mut sheet, 0, ev));
    assert_eq!(sheet.height_map.map[70][70], 600);
    // Off the field, or on a chunk that does not exist.
    let off = TerrainSculpt { up: true, idx: 0, point: Point3::new(300 * UNIT, 0, 0) };
    assert!(!g.dispatch_sculpt(&mut sheet, 0, off));
    assert!(!g.dispatch_sculpt(&mut sheet, 99, ev));
    // Too close to the stone: no order goes out.
    let near = g.stone.pos;
    let orders = g.click_terrain(
        PointerInput { left: true, right: false, alt_right: false, shift: false },
        &vec![RayHit { chunk: 0, point: near, triangle: Some(1) }],
    );
    assert!(orders.is_empty());
    // Shift hands the pointer to the camera.
    let orders = g.click_terrain(
        PointerInput { left: true, right: false, alt_right: false, shift: true },
        &vec![RayHit { chunk: 0, point: Point3::new(0, 0, 0), triangle: Some(1) }],
    );
    assert!(orders.is_empty());
}

#[test]
fn slow_stone_stops_once() {
    let mut g = game_in_aiming();
    g.dispatch(GameEvent::Hurl(HurlStone { power: 600_000, angle: 0 }));
    let pos = Point3::new(30 * UNIT, 0, 5640 * UNIT);
    g.dispatch(GameEvent::StoneMoved { pos, vel: Point3::new(0, 0, 0) });
    tick(&mut g, 16);
    assert_eq!(g.phase, GamePhase::StoneStopped);
    assert!(!g.stone.dynamic);
    let result = g.result.unwrap();
    assert_eq!(result.distance, 50 * UNIT as u64);
    assert!(result.new_best);
    assert_eq!(g.hi.score, 50 * UNIT as u64);
    for _ in 0..10 {
        tick(&mut g, 16);
        assert_eq!(g.phase, GamePhase::StoneStopped);
        assert!(!g.stone.dynamic);
        assert_eq!(g.result, Some(result));
    }
    assert_eq!(g.stopped_timer.elapsed, 160);
    tick(&mut g, STOPPED_DELAY);
    assert_eq!(g.phase, GamePhase::EndGame);
    tick(&mut g, 16);
    assert_eq!(g.state, GameState::Splash);
}

#[test]
fn moving_stone_keeps_sculpting() {
    let mut g = game_in_aiming();
    g.dispatch(GameEvent::Hurl(HurlStone { power: 600_000, angle: 0 }));
    g.dispatch(GameEvent::StoneMoved { pos: Point3::new(0, 5 * UNIT, 100 * UNIT), vel: Point3::new(0, 0, 400) });
    let damping = g.stone.angular_damping;
    tick(&mut g, 1000);
    assert_eq!(g.phase, GamePhase::StoneStopped);
    let mut g = game_in_aiming();
    g.dispatch(GameEvent::Hurl(HurlStone { power: 600_000, angle: 0 }));
    g.dispatch(GameEvent::StoneMoved { pos: Point3::new(0, 5 * UNIT, 100 * UNIT), vel: Point3::new(0, 0, 10 * UNIT) });
    tick(&mut g, 1000);
    assert_eq!(g.phase, GamePhase::Sculpting);
    assert_eq!(g.stone.angular_damping, damping + 15_000);
}

#[test]
fn stone_in_hole_stops_and_confirm_ends_round() {
    let mut g = game_in_aiming();
    g.dispatch(GameEvent::StoneInHole);
    assert_eq!(g.phase, GamePhase::Aiming);
    g.dispatch(GameEvent::Hurl(HurlStone { power: ONE, angle: 0 }));
    g.dispatch(GameEvent::StoneInHole);
    assert_eq!(g.phase, GamePhase::StoneStopped);
    g.dispatch(GameEvent::Tick { dt: 500, click: true, shift: false });
    assert_eq!(g.phase, GamePhase::StoneStopped);
    g.dispatch(GameEvent::Tick { dt: 1500, click: false, shift: false });
    g.dispatch(GameEvent::Tick { dt: 16, click: true, shift: true });
    assert_eq!(g.phase, GamePhase::StoneStopped);
    g.dispatch(GameEvent::Tick { dt: 16, click: true, shift: false });
    assert_eq!(g.phase, GamePhase::EndGame);
}

#[test]
fn nudging_faults_the_round() {
    let mut g = game_in_aiming();
    g.dispatch(GameEvent::Nudge { forward: true, back: false, left: false, right: false });
    assert!(!g.hi.fault);
    g.dispatch(GameEvent::Hurl(HurlStone { power: 0, angle: 0 }));
    g.dispatch(GameEvent::Nudge { forward: true, back: false, left: false, right: true });
    assert!(g.hi.fault);
    assert_eq!(g.stone.vel, Point3::new(-500, -100 * UNIT, 500));
    g.dispatch(GameEvent::StoneMoved { pos: Point3::new(0, 0, 5200 * UNIT), vel: Point3::new(0, 0, 0) });
    tick(&mut g, 16);
    let r = g.result.unwrap();
    assert!(r.fault && !r.new_best);
    assert_eq!(g.hi.score, 2000 * UNIT as u64);
}

#[test]
fn phase_is_always_single_and_physics_only_while_sculpting() {
    let mut g = Game::new();
    let events = [
        GameEvent::Tick { dt: 2000, click: true, shift: false },
        GameEvent::Hurl(HurlStone { power: 500_000, angle: 0 }),
        GameEvent::Powerup(PowerupHit { speed: Point3::new(100, 0, 20 * UNIT) }),
        GameEvent::StoneMoved { pos: Point3::new(0, 0, 0), vel: Point3::new(0, 0, 0) },
        GameEvent::Tick { dt: 16, click: false, shift: false },
        GameEvent::Tick { dt: 30_000, click: false, shift: false },
        GameEvent::Tick { dt: 16, click: false, shift: false },
        GameEvent::Restart,
    ];
    for ev in events {
        g.dispatch(ev);
        let sculpting = g.state == GameState::InGame && g.phase == GamePhase::Sculpting;
        assert_eq!(g.stone.dynamic, sculpting);
    }
    assert_eq!(g.state, GameState::Splash);
}

#[test]
fn stone_leaving_the_sheet_is_put_back() {
    let mut g = game_in_aiming();
    g.dispatch(GameEvent::StoneMoved { pos: Point3::new(401 * UNIT, 0, 0), vel: Point3::new(5, 5, 5) });
    assert_eq!(g.stone.pos, Point3::new(0, 200 * UNIT, -350 * UNIT));
    assert_eq!(g.stone.vel, Point3::new(0, 0, 0));
}

#[test]
fn powerup_adds_speed() {
    let mut g = game_in_aiming();
    let v = g.stone.vel;
    g.dispatch(GameEvent::Powerup(PowerupHit { speed: Point3::new(-3, 0, 20 * UNIT) }));
    assert_eq!(g.stone.vel, Point3::new(v.x - 3, v.y, v.z + 20 * UNIT));
}

#[test]
fn timer_finishes_once() {
    let mut t = Timey::new(1000);
    assert!(!t.tick(400));
    assert_eq!(t.elapsed(), 400);
    assert!(t.tick(700));
    assert_eq!(t.elapsed(), 1000);
    assert!(!t.tick(700));
    assert_eq!(t.elapsed_secs(), 1);
}

#[test]
fn aiming_charges_and_fires() {
    let mut a = Aiming::new();
    let input = |pressed, released, dt| AimInput { shift: false, pressed, released, cursor: Some(750_000), dt };
    let (viz, hurl) = a.aim_and_powerup_for_hurl(input(true, false, 1500));
    assert_eq!(viz.unwrap().power, 500_000);
    assert_eq!(viz.unwrap().angle, 250_000);
    assert!(hurl.is_none());
    let (viz, hurl) = a.aim_and_powerup_for_hurl(input(false, true, 300));
    assert!(viz.unwrap().reset);
    assert_eq!(hurl.unwrap(), HurlStone { power: 600_000, angle: 250_000 });
    assert_eq!(a.power, 0);
    // A short press does not fire.
    a.aim_and_powerup_for_hurl(input(true, false, 500));
    let (_, hurl) = a.aim_and_powerup_for_hurl(input(false, true, 100));
    assert!(hurl.is_none());
    // Charge tops out.
    let (viz, _) = a.aim_and_powerup_for_hurl(input(true, false, 10_000));
    assert_eq!(viz.unwrap().power, ONE);
    let shifted = AimInput { shift: true, pressed: true, released: true, cursor: None, dt: 5 };
    assert_eq!(a.aim_and_powerup_for_hurl(shifted), (None, None));
}

#[test]
fn collisions_are_classified() {
    let pairs = vec![(1, 9), (9, 1), (2, 9), (1, 5), (6, 1)];
    assert_eq!(detect_collisions(&pairs, 1, 9), 2);
    assert_eq!(detect_collisions(&pairs, 1, 7), 0);
    let powerups = vec![5, 6, 7];
    assert_eq!(detect_powerup_collisions(&pairs, 1, &powerups), vec![0, 1]);
    assert_eq!(detect_powerup_collisions(&pairs, 2, &powerups), Vec::<usize>::new());
}

#[test]
fn colour_bands_follow_height() {
    let bands = vert_height_to_color(&vec![0, 1000, 1001, 7001, 18_001, 40_001, -5]);
    assert_eq!(
        bands,
        vec![
            HeightBand::Lowland,
            HeightBand::Lowland,
            HeightBand::Grass,
            HeightBand::Meadow,
            HeightBand::Rock,
            HeightBand::Snow,
            HeightBand::Lowland
        ]
    );
}

#[test]
fn sheet_setup_builds_chunks() {
    let sheet = flat_sheet();
    assert_eq!(sheet.chunks.len(), NUM_CHUNKS - 1);
    for (i, c) in sheet.chunks.iter().enumerate() {
        assert_eq!(c.band, i);
        assert_eq!(c.origin_z, i as i64 * 400 * UNIT);
        assert!(c.sheet);
        assert_eq!(c.mesh.heights.len(), CELL_SIZE * CELL_SIZE);
    }
    // Flat noise still gives the halfpipe walls at the edges mid-sheet.
    assert_eq!(sheet.chunks[0].mesh.heights[0], 0);
    assert!(sheet.chunks[5].mesh.heights[0] > 40 * UNIT);
    assert_eq!(sheet.chunks[5].mesh.bands[0], HeightBand::Snow);
}

#[test]
fn track_and_dampen_stone_stops_a_slow_stone() {
    let mut g = game_in_aiming();
    g.dispatch(GameEvent::StoneMoved { pos: Point3::new(0, 0, 5600 * UNIT), vel: Point3::new(0, 0, 100) });
    let before = g;
    g.track_and_dampen_stone(16);
    assert_eq!(g, before);
    g.dispatch(GameEvent::Hurl(HurlStone { power: 0, angle: 0 }));
    g.dispatch(GameEvent::StoneMoved { pos: Point3::new(0, 0, 5600 * UNIT), vel: Point3::new(0, 0, 100) });
    let damping = g.stone.angular_damping;
    g.track_and_dampen_stone(1000);
    assert_eq!(g.phase, GamePhase::StoneStopped);
    assert!(!g.stone.dynamic);
    assert_eq!(g.stone.angular_damping, damping + 15_000);
    assert_eq!(g.result.unwrap().distance, 0);
    let mut fast = game_in_aiming();
    fast.dispatch(GameEvent::Hurl(HurlStone { power: ONE, angle: 0 }));
    fast.track_and_dampen_stone(16);
    assert_eq!(fast.phase, GamePhase::Sculpting);
}
