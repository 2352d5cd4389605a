//! The round: the outer game state, the phase machine inside a round, the
//! stone as the phases see it, and the best score.
use vstd::prelude::*;
use crate::constants::{
    AIM_TIMEOUT, CHEAT_NUDGE, CHUNK_SIZE, CONFIRM_GRACE_SECS, INITIAL_HI_SCORE,
    MIN_SCULPT_DIST_FROM_STONE, SCULPT_MOVE_THRESHOLD, SPLASH_DELAY, STONE_ANGULAR_DAMPENING,
    STONE_ANGULAR_DAMPENING_INC_AMOUNT, STONE_ANGULAR_DAMPENING_INC_START_AT,
    STONE_HURL_AIM_ANGLE_MULTIPLIER, STONE_HURL_DROP_VEL, STONE_MAX_VEL, STONE_RADIUS,
    STONE_START_VEL, STONE_STOP_VEL, STONE_X, STONE_Y, STONE_Z, STOPPED_DELAY, TARGET_X, TARGET_Y,
    TARGET_Z,
};
use crate::fixed::{ONE, UNIT, sqrt_floor};
use crate::point::{
    Point3, clamp_i64, clamp_wide, dist_sq, dist_sq3, dist_sq_flat, dist_sq_xz, distance,
};
use crate::sheet::{Sheet, TerrainSculpt};
use crate::timey::Timey;

verus! {

/// Outer state: the splash screen, or a round in play.
#[derive(Clone, Copy, Debug, PartialEq, Eq, Structural)]
pub enum GameState {
    Splash,
    InGame,
}

/// Phase of a round.
#[derive(Clone, Copy, Debug, PartialEq, Eq, Structural)]
pub enum GamePhase {
    Aiming,
    Sculpting,
    EndGame,
    StoneStopped,
}

/// Launch request: `power` in `[0, ONE]`, `angle` in `[-ONE, ONE]`.
#[derive(Clone, Copy, Debug, PartialEq, Eq, Structural)]
pub struct HurlStone {
    pub power: u64,
    pub angle: i64,
}

/// The stone passed through a powerup, which adds `speed` to its velocity.
#[derive(Clone, Copy, Debug, PartialEq, Eq, Structural)]
pub struct PowerupHit {
    pub speed: Point3,
}

/// The stone as the phase machine sees it.
#[derive(Clone, Copy, Debug, PartialEq, Eq, Structural)]
pub struct Stone {
    pub pos: Point3,
    pub vel: Point3,
    /// Angular damping over `ONE`.
    pub angular_damping: u64,
    /// Whether the physics engine moves the stone.
    pub dynamic: bool,
}

/// Best (smallest) distance to the target so far, and whether the current
/// round was disqualified by a manual nudge.
#[derive(Clone, Copy, Debug, PartialEq, Eq, Structural)]
pub struct HiScore {
    pub score: u64,
    pub fault: bool,
}

/// Outcome of a round, fixed when the stone stops.
#[derive(Clone, Copy, Debug, PartialEq, Eq, Structural)]
pub struct RoundResult {
    pub distance: u64,
    pub fault: bool,
    pub new_best: bool,
    pub best_before: u64,
}

/// Everything the game's decisions read and write.
#[derive(Clone, Copy, Debug, PartialEq, Eq, Structural)]
pub struct Game {
    pub state: GameState,
    pub phase: GamePhase,
    pub stone: Stone,
    pub hi: HiScore,
    pub splash_timer: Timey,
    pub aim_timer: Timey,
    pub stopped_timer: Timey,
    pub result: Option<RoundResult>,
    /// Where the last sculpt edit went out.
    pub last_mouse: Point3,
}

/// An input to the game, one per call.
#[derive(Clone, Copy, Debug, PartialEq, Eq, Structural)]
pub enum GameEvent {
    /// A frame of `dt` milliseconds; `click` is a fresh left click, `shift`
    /// the held modifier.
    Tick { dt: u64, click: bool, shift: bool },
    Hurl(HurlStone),
    StoneInHole,
    /// Where physics has moved the stone.
    StoneMoved { pos: Point3, vel: Point3 },
    Powerup(PowerupHit),
    /// Manual nudges of the stone (forward, back, left, right).
    Nudge { forward: bool, back: bool, left: bool, right: bool },
    /// Back to the splash screen.
    Restart,
}

/// Component-wise sum, each component clamped to `i64`.
pub open spec fn add_vec(a: Point3, b: Point3) -> Point3 {
    Point3 { x: clamp_i64(a.x + b.x), y: clamp_i64(a.y + b.y), z: clamp_i64(a.z + b.z) }
}

/// The vector is shorter than `limit`.
pub open spec fn slower_than(v: Point3, limit: int) -> bool {
    v.x * v.x + v.y * v.y + v.z * v.z < limit * limit
}

/// The centre of the hole.
pub open spec fn target() -> Point3 {
    Point3 { x: TARGET_X, y: TARGET_Y, z: TARGET_Z }
}

/// A stone at the start line, at rest and not yet moved by physics.
pub open spec fn start_stone() -> Stone {
    Stone {
        pos: Point3 { x: STONE_X, y: STONE_Y, z: STONE_Z },
        vel: Point3 { x: 0, y: 0, z: STONE_START_VEL },
        angular_damping: STONE_ANGULAR_DAMPENING,
        dynamic: false,
    }
}

/// Sideways launch speed for an aim angle: `angle * 200` units, rounded
/// toward zero.
pub open spec fn launch_side(angle: int) -> int {
    let m = (if angle < 0 { -angle } else { angle }) * STONE_HURL_AIM_ANGLE_MULTIPLIER * UNIT / (ONE as int);
    if angle < 0 {
        -m
    } else {
        m
    }
}

/// Launch velocity of a hurl: sideways from the angle, down at a fixed
/// speed, forward from the power up to the stone's top speed.
pub open spec fn launch_velocity(h: HurlStone) -> Point3 {
    Point3 {
        x: launch_side(h.angle as int) as i64,
        y: (-STONE_HURL_DROP_VEL) as i64,
        z: (h.power * STONE_MAX_VEL / (ONE as int)) as i64,
    }
}

/// Extra spin damping of `dt` milliseconds, saturating.
pub open spec fn damping_after(d: u64, dt: u64) -> u64 {
    let v = d + STONE_ANGULAR_DAMPENING_INC_AMOUNT * dt / 1000;
    if v > u64::MAX {
        u64::MAX
    } else {
        v as u64
    }
}

impl HurlStone {
    pub open spec fn valid(&self) -> bool {
        self.power <= ONE && -(ONE as int) <= self.angle <= ONE
    }
}

impl GameEvent {
    /// Positions handed in lie in the world, hurls in their ranges.
    pub open spec fn valid(&self) -> bool {
        match *self {
            GameEvent::Hurl(h) => h.valid(),
            GameEvent::StoneMoved { pos, vel } => pos.in_world(),
            _ => true,
        }
    }
}

impl Stone {
    /// The stone after a sculpting frame of `dt` ms: slow and low, it spins down harder.
    pub open spec fn damped(self, dt: u64) -> Stone {
        if slower_than(self.vel, STONE_ANGULAR_DAMPENING_INC_START_AT as int) && self.pos.y
            < STONE_ANGULAR_DAMPENING_INC_START_AT {
            Stone { angular_damping: damping_after(self.angular_damping, dt), ..self }
        } else {
            self
        }
    }

    /// The stone after physics moved it: put back at the start, at rest,
    /// when it has left the sheet sideways or fallen far below it.
    pub open spec fn moved(self, pos: Point3, vel: Point3) -> Stone {
        if pos.x > CHUNK_SIZE || pos.x < -CHUNK_SIZE || pos.y < -STONE_RADIUS * 12 {
            Stone {
                pos: Point3 { x: STONE_X, y: STONE_Y, z: STONE_Z },
                vel: Point3 { x: 0, y: 0, z: 0 },
                ..self
            }
        } else {
            Stone { pos, vel, ..self }
        }
    }
}

impl Game {
    pub open spec fn wf(&self) -> bool {
        &&& self.stone.pos.in_world()
        &&& self.last_mouse.in_world()
        &&& self.stone.dynamic == (self.state == GameState::InGame && self.phase == GamePhase::Sculpting)
        &&& self.splash_timer.wf()
        &&& self.aim_timer.wf()
        &&& self.stopped_timer.wf()
    }

    /// The round is in play and in phase `p`.
    pub open spec fn in_phase(&self, p: GamePhase) -> bool {
        self.state == GameState::InGame && self.phase == p
    }

    /// A game on its splash screen, before any round.
    pub open spec fn initial() -> Game {
        Game {
            state: GameState::Splash,
            phase: GamePhase::Aiming,
            stone: start_stone(),
            hi: HiScore { score: INITIAL_HI_SCORE as u64, fault: false },
            splash_timer: Timey::started(SPLASH_DELAY),
            aim_timer: Timey::started(AIM_TIMEOUT),
            stopped_timer: Timey::started(STOPPED_DELAY),
            result: None,
            last_mouse: Point3 { x: 0, y: 0, z: 0 },
        }
    }

    /// Entering a round: aiming, a fresh stone, the fault flag cleared.
    pub open spec fn started_round(self) -> Game {
        Game {
            state: GameState::InGame,
            phase: GamePhase::Aiming,
            stone: start_stone(),
            hi: HiScore { fault: false, ..self.hi },
            aim_timer: Timey::started(AIM_TIMEOUT),
            result: None,
            ..self
        }
    }

    /// Entering sculpting: physics takes the stone.
    pub open spec fn launched(self) -> Game {
        Game { phase: GamePhase::Sculpting, stone: Stone { dynamic: true, ..self.stone }, ..self }
    }

    /// Outcome of the round with the stone where it is now.
    pub open spec fn round_result(self) -> RoundResult {
        let d = sqrt_floor(dist_sq3(self.stone.pos, target()) as nat);
        RoundResult {
            distance: d as u64,
            fault: self.hi.fault,
            new_best: !self.hi.fault && d < self.hi.score,
            best_before: self.hi.score,
        }
    }

    /// Entering the stopped phase: the stone is frozen, the round scored, and
    /// the best score replaced by a better clean one.
    pub open spec fn stopped(self) -> Game {
        let r = self.round_result();
        Game {
            phase: GamePhase::StoneStopped,
            stone: Stone { dynamic: false, ..self.stone },
            hi: if r.new_best {
                HiScore { score: r.distance, ..self.hi }
            } else {
                self.hi
            },
            stopped_timer: Timey::started(STOPPED_DELAY),
            result: Some(r),
            ..self
        }
    }

    /// Back to the splash screen.
    pub open spec fn to_splash(self) -> Game {
        Game {
            state: GameState::Splash,
            phase: GamePhase::Aiming,
            stone: Stone { dynamic: false, ..self.stone },
            splash_timer: Timey::started(SPLASH_DELAY),
            ..self
        }
    }

    /// The game after a frame of `dt` milliseconds.
    pub open spec fn after_tick(self, dt: u64, click: bool, shift: bool) -> Game {
        match self.state {
            GameState::Splash => {
                let t = self.splash_timer.ticked(dt);
                let g = Game { splash_timer: t, ..self };
                if self.splash_timer.finishes_on(dt) || (t.secs() > CONFIRM_GRACE_SECS && click) {
                    g.started_round()
                } else {
                    g
                }
            },
            GameState::InGame => match self.phase {
                GamePhase::Aiming => {
                    let g = Game { aim_timer: self.aim_timer.ticked(dt), ..self };
                    if self.aim_timer.finishes_on(dt) {
                        g.launched()
                    } else {
                        g
                    }
                },
                GamePhase::Sculpting => self.after_sculpting_frame(dt),
                GamePhase::StoneStopped => {
                    let confirm = self.stopped_timer.secs() > CONFIRM_GRACE_SECS && click && !shift;
                    let g = Game { stopped_timer: self.stopped_timer.ticked(dt), ..self };
                    if confirm || self.stopped_timer.finishes_on(dt) {
                        Game { phase: GamePhase::EndGame, ..g }
                    } else {
                        g
                    }
                },
                GamePhase::EndGame => self.to_splash(),
            },
        }
    }

    /// A sculpting frame of `dt` ms: the stone spins down harder when slow
    /// and low, and the round moves to StoneStopped once the stone is slower
    /// than `STONE_STOP_VEL`.
    pub open spec fn after_sculpting_frame(self, dt: u64) -> Game {
        let g = Game { stone: self.stone.damped(dt), ..self };
        if slower_than(g.stone.vel, STONE_STOP_VEL as int) {
            g.stopped()
        } else {
            g
        }
    }

    /// The game after manual nudges; only while sculpting, and any nudge
    /// disqualifies the round.
    pub open spec fn after_nudge(self, forward: bool, back: bool, left: bool, right: bool) -> Game {
        if self.in_phase(GamePhase::Sculpting) && (forward || back || left || right) {
            let dz = (if forward { CHEAT_NUDGE } else { 0 }) - (if back { CHEAT_NUDGE } else { 0 });
            let dx = (if left { CHEAT_NUDGE } else { 0 }) - (if right { CHEAT_NUDGE } else { 0 });
            Game {
                stone: Stone { vel: add_vec(self.stone.vel, Point3 { x: dx as i64, y: 0, z: dz as i64 }), ..self.stone },
                hi: HiScore { fault: true, ..self.hi },
                ..self
            }
        } else {
            self
        }
    }

    /// The game after event `ev`.
    pub open spec fn after(self, ev: GameEvent) -> Game {
        match ev {
            GameEvent::Tick { dt, click, shift } => self.after_tick(dt, click, shift),
            GameEvent::Hurl(h) => if self.in_phase(GamePhase::Aiming) {
                Game { stone: Stone { vel: launch_velocity(h), ..self.stone }, ..self }.launched()
            } else {
                self
            },
            GameEvent::StoneInHole => if self.in_phase(GamePhase::Sculpting) {
                self.stopped()
            } else {
                self
            },
            GameEvent::StoneMoved { pos, vel } => Game { stone: self.stone.moved(pos, vel), ..self },
            GameEvent::Powerup(p) => if self.state == GameState::InGame {
                Game { stone: Stone { vel: add_vec(self.stone.vel, p.speed), ..self.stone }, ..self }
            } else {
                self
            },
            GameEvent::Nudge { forward, back, left, right } => self.after_nudge(forward, back, left, right),
            GameEvent::Restart => self.to_splash(),
        }
    }
}

/// Component-wise sum, each component clamped to `i64`.
pub fn add_clamped(a: Point3, b: Point3) -> (r: Point3)
    ensures
        r == add_vec(a, b),
{
    Point3 {
        x: clamp_wide(a.x as i128 + b.x as i128),
        y: clamp_wide(a.y as i128 + b.y as i128),
        z: clamp_wide(a.z as i128 + b.z as i128),
    }
}

/// Whether the vector is shorter than `limit`.
pub fn is_slower_than(v: Point3, limit: i64) -> (r: bool)
    requires
        0 < limit <= 0x100_0000_0000,
    ensures
        r == slower_than(v, limit as int),
{
    let x = v.x as i128;
    let y = v.y as i128;
    let z = v.z as i128;
    let l = limit as i128;
    if x >= l || x <= -l || y >= l || y <= -l || z >= l || z <= -l {
        assert(!slower_than(v, limit as int)) by (nonlinear_arith)
            requires
                x >= l || x <= -l || y >= l || y <= -l || z >= l || z <= -l,
                l > 0,
                x == v.x,
                y == v.y,
                z == v.z,
                l == limit,
        ;
        return false;
    }
    assert(0 <= x * x < 0x1_0000_0000_0000_0000_0000) by (nonlinear_arith)
        requires
            -l < x < l,
            0 < l <= 0x100_0000_0000,
    ;
    assert(0 <= y * y < 0x1_0000_0000_0000_0000_0000) by (nonlinear_arith)
        requires
            -l < y < l,
            0 < l <= 0x100_0000_0000,
    ;
    assert(0 <= z * z < 0x1_0000_0000_0000_0000_0000) by (nonlinear_arith)
        requires
            -l < z < l,
            0 < l <= 0x100_0000_0000,
    ;
    assert(l * l <= 0x1_0000_0000_0000_0000_0000) by (nonlinear_arith)
        requires
            0 < l <= 0x100_0000_0000,
    ;
    let xx: i128 = x * x;
    let yy: i128 = y * y;
    let zz: i128 = z * z;
    xx + yy + zz < l * l
}

impl Game {
    /// A game on its splash screen, before any round.
    pub fn new() -> (g: Game)
        ensures
            g == Game::initial(),
            g.wf(),
    {
        Game {
            state: GameState::Splash,
            phase: GamePhase::Aiming,
            stone: Game::start_stone_exec(),
            hi: HiScore { score: INITIAL_HI_SCORE as u64, fault: false },
            splash_timer: Timey::new(SPLASH_DELAY),
            aim_timer: Timey::new(AIM_TIMEOUT),
            stopped_timer: Timey::new(STOPPED_DELAY),
            result: None,
            last_mouse: Point3::zero(),
        }
    }

    fn start_stone_exec() -> (s: Stone)
        ensures
            s == start_stone(),
    {
        Stone {
            pos: Point3 { x: STONE_X, y: STONE_Y, z: STONE_Z },
            vel: Point3 { x: 0, y: 0, z: STONE_START_VEL },
            angular_damping: STONE_ANGULAR_DAMPENING,
            dynamic: false,
        }
    }

    fn start_round(&mut self)
        requires
            old(self).wf(),
        ensures
            *final(self) == old(self).started_round(),
            final(self).wf(),
    {
        self.state = GameState::InGame;
        self.phase = GamePhase::Aiming;
        self.stone = Game::start_stone_exec();
        self.hi.fault = false;
        self.aim_timer = Timey::new(AIM_TIMEOUT);
        self.result = None;
    }

    fn launch(&mut self)
        ensures
            *final(self) == old(self).launched(),
    {
        self.phase = GamePhase::Sculpting;
        self.stone.dynamic = true;
    }

    /// Freezes the stone and scores the round.
    pub fn on_stone_stopped_enter(&mut self)
        requires
            old(self).wf(),
        ensures
            *final(self) == old(self).stopped(),
    {
        let d = distance(self.stone.pos, Point3 { x: TARGET_X, y: TARGET_Y, z: TARGET_Z });
        let best_before = self.hi.score;
        let fault = self.hi.fault;
        let new_best = !fault && d < best_before;
        if new_best {
            self.hi.score = d;
        }
        self.phase = GamePhase::StoneStopped;
        self.stone.dynamic = false;
        self.stopped_timer = Timey::new(STOPPED_DELAY);
        self.result = Some(RoundResult { distance: d, fault, new_best, best_before });
    }

    fn go_to_splash(&mut self)
        ensures
            *final(self) == old(self).to_splash(),
    {
        self.state = GameState::Splash;
        self.phase = GamePhase::Aiming;
        self.stone.dynamic = false;
        self.splash_timer = Timey::new(SPLASH_DELAY);
    }

    /// Launch velocity of a hurl.
    pub fn hurl_velocity(h: HurlStone) -> (v: Point3)
        requires
            h.valid(),
        ensures
            v == launch_velocity(h),
    {
        let a: u64 = if h.angle < 0 { (-(h.angle as i128)) as u64 } else { h.angle as u64 };
        assert(a <= ONE);
        assert(a * 200 <= 200 * ONE && a * 200 * 1000 <= 200_000 * ONE) by (nonlinear_arith)
            requires
                a <= ONE,
        ;
        let m: u64 = a * (STONE_HURL_AIM_ANGLE_MULTIPLIER as u64) * (UNIT as u64) / ONE;
        let side: i64 = if h.angle < 0 { -(m as i64) } else { m as i64 };
        assert(h.power * 500_000 <= 500_000 * ONE) by (nonlinear_arith)
            requires
                h.power <= ONE,
        ;
        Point3 { x: side, y: -STONE_HURL_DROP_VEL, z: (h.power * (STONE_MAX_VEL as u64) / ONE) as i64 }
    }

    /// One frame of the phase machine.
    fn tick(&mut self, dt: u64, click: bool, shift: bool)
        requires
            old(self).wf(),
        ensures
            *final(self) == old(self).after_tick(dt, click, shift),
    {
        match self.state {
            GameState::Splash => {
                let done = self.splash_timer.tick(dt);
                if done || (self.splash_timer.elapsed_secs() > CONFIRM_GRACE_SECS && click) {
                    self.start_round();
                }
            },
            GameState::InGame => match self.phase {
                GamePhase::Aiming => {
                    if self.aim_timer.tick(dt) {
                        self.launch();
                    }
                },
                GamePhase::Sculpting => {
                    self.track_and_dampen_stone(dt);
                },
                GamePhase::StoneStopped => {
                    let confirm = self.stopped_timer.elapsed_secs() > CONFIRM_GRACE_SECS && click && !shift;
                    let done = self.stopped_timer.tick(dt);
                    if confirm || done {
                        self.phase = GamePhase::EndGame;
                    }
                },
                GamePhase::EndGame => {
                    self.go_to_splash();
                },
            },
        }
    }

    /// One sculpting frame of `dt` ms: spins the stone down harder once it
    /// is slow and low, then stops the round (StoneStopped, stone frozen and
    /// scored) when it is slower than `STONE_STOP_VEL`. Outside sculpting
    /// nothing changes.
    pub fn track_and_dampen_stone(&mut self, dt: u64)
        requires
            old(self).wf(),
        ensures
            old(self).in_phase(GamePhase::Sculpting) ==> *final(self) == old(self).after_sculpting_frame(dt),
            !old(self).in_phase(GamePhase::Sculpting) ==> *final(self) == *old(self),
            final(self).wf(),
    {
        if !(self.state == GameState::InGame && self.phase == GamePhase::Sculpting) {
            return;
        }
        if is_slower_than(self.stone.vel, STONE_ANGULAR_DAMPENING_INC_START_AT) && self.stone.pos.y
            < STONE_ANGULAR_DAMPENING_INC_START_AT {
            let v: u128 = self.stone.angular_damping as u128 + (STONE_ANGULAR_DAMPENING_INC_AMOUNT as u128)
                * (dt as u128) / 1000;
            self.stone.angular_damping = if v > u64::MAX as u128 { u64::MAX } else { v as u64 };
        }
        if is_slower_than(self.stone.vel, STONE_STOP_VEL) {
            self.on_stone_stopped_enter();
        }
    }

    /// Manual nudges of the stone while sculpting; any nudge marks the round
    /// as faulted.
    pub fn cheat_control_stone(&mut self, forward: bool, back: bool, left: bool, right: bool)
        ensures
            *final(self) == old(self).after_nudge(forward, back, left, right),
    {
        if !(self.state == GameState::InGame && self.phase == GamePhase::Sculpting) {
            return;
        }
        if forward || back || left || right {
            let dz: i64 = (if forward { CHEAT_NUDGE } else { 0 }) - (if back { CHEAT_NUDGE } else { 0 });
            let dx: i64 = (if left { CHEAT_NUDGE } else { 0 }) - (if right { CHEAT_NUDGE } else { 0 });
            self.stone.vel = add_clamped(self.stone.vel, Point3 { x: dx, y: 0, z: dz });
            self.hi.fault = true;
        }
    }

    /// Handles one event.
    pub fn dispatch(&mut self, ev: GameEvent)
        requires
            old(self).wf(),
            ev.valid(),
        ensures
            *final(self) == old(self).after(ev),
            final(self).wf(),
    {
        match ev {
            GameEvent::Tick { dt, click, shift } => self.tick(dt, click, shift),
            GameEvent::Hurl(h) => {
                if self.state == GameState::InGame && self.phase == GamePhase::Aiming {
                    self.stone.vel = Game::hurl_velocity(h);
                    self.launch();
                }
            },
            GameEvent::StoneInHole => {
                if self.state == GameState::InGame && self.phase == GamePhase::Sculpting {
                    self.on_stone_stopped_enter();
                }
            },
            GameEvent::StoneMoved { pos, vel } => {
                if pos.x > CHUNK_SIZE || pos.x < -CHUNK_SIZE || pos.y < -STONE_RADIUS * 12 {
                    self.stone.pos = Point3 { x: STONE_X, y: STONE_Y, z: STONE_Z };
                    self.stone.vel = Point3::zero();
                } else {
                    self.stone.pos = pos;
                    self.stone.vel = vel;
                }
            },
            GameEvent::Powerup(p) => {
                if self.state == GameState::InGame {
                    self.stone.vel = add_clamped(self.stone.vel, p.speed);
                }
            },
            GameEvent::Nudge { forward, back, left, right } => self.cheat_control_stone(
                forward,
                back,
                left,
                right,
            ),
            GameEvent::Restart => self.go_to_splash(),
        }
        proof {
            lemma_after_keeps_wf(*old(self), ev);
        }
    }
}

proof fn lemma_after_keeps_wf(g: Game, ev: GameEvent)
    requires
        g.wf(),
        ev.valid(),
    ensures
        g.after(ev).wf(),
{
}

/// Phase `q` may follow phase `p` within one round.
pub open spec fn phase_step_allowed(p: GamePhase, q: GamePhase) -> bool {
    ||| p == q
    ||| p == GamePhase::Aiming && q == GamePhase::Sculpting
    ||| p == GamePhase::Sculpting && q == GamePhase::StoneStopped
    ||| p == GamePhase::StoneStopped && q == GamePhase::EndGame
}

/// One phase at a time: every event takes a well-formed game to a
/// well-formed one, in which the stone is under physics exactly while the
/// round is sculpting; within a round the phase only moves along the table
/// Aiming, Sculpting, StoneStopped, EndGame; and outside sculpting the
/// stone's controls (nudges) change nothing.
pub proof fn lemma_phase_machine_exclusive(g: Game, ev: GameEvent)
    requires
        g.wf(),
        ev.valid(),
    ensures
        g.after(ev).wf(),
        g.after(ev).stone.dynamic <==> g.after(ev).in_phase(GamePhase::Sculpting),
        g.state == GameState::InGame && g.after(ev).state == GameState::InGame ==> phase_step_allowed(
            g.phase,
            g.after(ev).phase,
        ),
        !g.in_phase(GamePhase::Sculpting) ==> (ev matches GameEvent::Nudge { .. } ==> g.after(ev) == g),
        !g.in_phase(GamePhase::Sculpting) && !g.in_phase(GamePhase::Aiming) ==> (ev matches GameEvent::Hurl(_)
            ==> g.after(ev) == g),
{
    lemma_after_keeps_wf(g, ev);
}

/// Pointer buttons during sculpting: `left` lowers, `right` (or `alt_right`,
/// the modifier key standing in for it) raises, `shift` hands the pointer to
/// the camera.
#[derive(Clone, Copy, Debug, PartialEq, Eq, Structural)]
pub struct PointerInput {
    pub left: bool,
    pub right: bool,
    pub alt_right: bool,
    pub shift: bool,
}

/// A pointer ray hit on the terrain: the chunk hit, the world point, and the
/// mesh triangle if the hit has one.
#[derive(Clone, Copy, Debug, PartialEq, Eq, Structural)]
pub struct RayHit {
    pub chunk: usize,
    pub point: Point3,
    pub triangle: Option<usize>,
}

/// The sculpt order a hit gives, and the new last-sculpt point: none when
/// the hit is within `MIN_SCULPT_DIST_FROM_STONE` of the stone, has no
/// triangle, or lies within `SCULPT_MOVE_THRESHOLD` (seen from above) of
/// the last edit.
pub open spec fn click_step(stone: Point3, last: Point3, up: bool, hit: RayHit) -> (
    Option<(usize, TerrainSculpt)>,
    Point3,
) {
    if dist_sq3(stone, hit.point) < MIN_SCULPT_DIST_FROM_STONE * MIN_SCULPT_DIST_FROM_STONE {
        (None, last)
    } else {
        match hit.triangle {
            None => (None, last),
            Some(idx) => if dist_sq_xz(hit.point, last) > SCULPT_MOVE_THRESHOLD * SCULPT_MOVE_THRESHOLD {
                (Some((hit.chunk, TerrainSculpt { up, idx, point: hit.point })), hit.point)
            } else {
                (None, last)
            },
        }
    }
}

/// The sculpt orders of the hits, in order, and the final last-sculpt point.
pub open spec fn click_all(stone: Point3, last: Point3, up: bool, hits: Seq<RayHit>) -> (
    Seq<(usize, TerrainSculpt)>,
    Point3,
)
    decreases hits.len(),
{
    if hits.len() == 0 {
        (seq![], last)
    } else {
        let (os, l) = click_all(stone, last, up, hits.drop_last());
        let (o, l2) = click_step(stone, l, up, hits.last());
        (
            match o {
                Some(x) => os.push(x),
                None => os,
            },
            l2,
        )
    }
}

impl Game {
    /// Turns pointer hits into sculpt orders while sculpting: nothing in any
    /// other phase, with shift held, or with no button down; otherwise each
    /// hit in turn, far enough from the stone and moved far enough from the
    /// last edit, orders a raise (right button) or lower (left) on its chunk.
    pub fn click_terrain(&mut self, input: PointerInput, hits: &Vec<RayHit>) -> (orders: Vec<(usize, TerrainSculpt)>)
        requires
            old(self).wf(),
            forall|i: int| 0 <= i < hits@.len() ==> (#[trigger] hits@[i]).point.in_world(),
        ensures
            final(self).wf(),
            !old(self).in_phase(GamePhase::Sculpting) || input.shift || !(input.left || input.right
                || input.alt_right) ==> orders@.len() == 0 && *final(self) == *old(self),
            old(self).in_phase(GamePhase::Sculpting) && !input.shift && (input.left || input.right
                || input.alt_right) ==> ({
                let (os, l) = click_all(old(self).stone.pos, old(self).last_mouse, input.right || input.alt_right, hits@);
                &&& orders@ == os
                &&& *final(self) == (Game { last_mouse: l, ..*old(self) })
            }),
    {
        let mut orders: Vec<(usize, TerrainSculpt)> = Vec::new();
        if !(self.state == GameState::InGame && self.phase == GamePhase::Sculpting) || input.shift
            || !(input.left || input.right || input.alt_right) {
            return orders;
        }
        let up = input.right || input.alt_right;
        let stone = self.stone.pos;
        let ghost last0 = self.last_mouse;
        let ghost g0 = *self;
        let mut k: usize = 0;
        while k < hits.len()
            invariant
                k <= hits@.len(),
                g0.wf(),
                stone == g0.stone.pos,
                forall|i: int| 0 <= i < hits@.len() ==> (#[trigger] hits@[i]).point.in_world(),
                self.last_mouse.in_world(),
                *self == (Game { last_mouse: self.last_mouse, ..g0 }),
                (orders@, self.last_mouse) == click_all(stone, last0, up, hits@.take(k as int)),
            decreases hits@.len() - k,
        {
            let hit = hits[k];
            proof {
                assert(hits@.take(k as int + 1).drop_last() =~= hits@.take(k as int));
                assert(hits@.take(k as int + 1).last() == hit);
            }
            let near = dist_sq(stone, hit.point);
            let limit: u128 = (MIN_SCULPT_DIST_FROM_STONE as u128) * (MIN_SCULPT_DIST_FROM_STONE as u128);
            if near >= limit {
                match hit.triangle {
                    Some(idx) => {
                        let moved = dist_sq_flat(hit.point, self.last_mouse);
                        let step: u128 = (SCULPT_MOVE_THRESHOLD as u128) * (SCULPT_MOVE_THRESHOLD as u128);
                        if moved > step {
                            orders.push((hit.chunk, TerrainSculpt { up, idx, point: hit.point }));
                            self.last_mouse = hit.point;
                        }
                    },
                    None => {},
                }
            }
            k = k + 1;
        }
        assert(hits@.take(hits@.len() as int) =~= hits@);
        orders
    }

    /// Applies a sculpt order, but only while sculpting: in any other phase
    /// the sheet is left as it is.
    pub fn dispatch_sculpt(&self, sheet: &mut Sheet, chunk: usize, ev: TerrainSculpt) -> (done: bool)
        requires
            old(sheet).wf(),
            ev.point.in_world(),
        ensures
            !self.in_phase(GamePhase::Sculpting) ==> !done && *final(sheet) == *old(sheet),
            self.in_phase(GamePhase::Sculpting) ==> Sheet::sculpted(*old(sheet), *final(sheet), chunk, ev, done),
    {
        if self.state == GameState::InGame && self.phase == GamePhase::Sculpting {
            sheet.terrain_sculpt(chunk, ev)
        } else {
            false
        }
    }
}

/// Hurling from aiming starts sculpting: the stone comes under physics at
/// once, moving with the launch velocity of the hurl and still where it was.
pub proof fn lemma_hurl_launches(g: Game, h: HurlStone)
    requires
        g.wf(),
        h.valid(),
        g.in_phase(GamePhase::Aiming),
    ensures
        ({
            let n = g.after(GameEvent::Hurl(h));
            &&& n.wf()
            &&& n.in_phase(GamePhase::Sculpting)
            &&& n.stone.dynamic
            &&& n.stone.vel == launch_velocity(h)
            &&& n.stone.pos == g.stone.pos
        }),
{
    lemma_after_keeps_wf(g, GameEvent::Hurl(h));
}

} // verus!
