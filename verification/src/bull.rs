//! The bull actor: its state machine, cooldown bookkeeping, and the
//! per-actor steps of the simulation (decision, charge requests, movement
//! integration, collision response, animation selection).

use vstd::prelude::*;
use rand::Rng;

verus! {

use crate::fixed::{
    SCALE, FIX_MAX, in_range, abs, fmul, fixed_mul, scale_div, sqrt_floor, lemma_fmul_bound,
};
use crate::vector::{
    Vec2, Vec3, ZeroSignum, spec_zero_signum, spec_normalized, spec_clamp_length_max,
};
use vstd::arithmetic::div_mod::lemma_div_pos_is_pos;

/// Seconds (scaled) a charge lasts before it converts into a run; a run then
/// lasts twice this long.
pub const CHARGE_LIMIT: i64 = 2500;

/// Screen-shake increment added per wall hit while running.
pub const TRAUMA_AMOUNT: i64 = 500;

/// Cap of the screen-shake accumulator.
pub const TRAUMA_MAX: i64 = 1000;

/// Seconds (scaled) a collision recoil lasts.
pub const COLLISION_COOLDOWN: i64 = 1000;

/// Lower clamp of the decision cooldown.
pub const MIND_COOLDOWN_MIN: i64 = -10_000;

/// Upper clamp of the decision cooldown.
pub const MIND_COOLDOWN_MAX: i64 = 30_000;

/// Seconds (scaled) between decisions once one is taken.
pub const MIND_COOLDOWN_RESET: i64 = 2000;

/// Default base speed of a bull (units per second, scaled).
pub const DEFAULT_SPEED: i64 = 20_000;

/// Default rotation speed of a bull (scaled).
pub const DEFAULT_ROTATION_SPEED: i64 = 1000;

/// Default per-second friction factor (scaled): each second, velocity decays
/// to this fraction of itself.
pub const DEFAULT_FRICTION: i64 = 10;

/// Bound on a per-actor base speed.
pub const MAX_SPEED: i64 = 100_000;

/// Bound on velocity components handed to the movement step.
pub const VEL_MAX: i64 = 100_000_000;

/// Bound on position components.
pub const POS_MAX: i64 = 100_000_000;

/// Bound on the per-tick elapsed time (scaled seconds).
pub const DT_MAX: i64 = 100_000;

/// Half-width of the square from which a random heading is drawn (scaled).
pub const HEADING_RANGE: i64 = 100_000;

/// Largest effective speed: the running multiplier applied to the largest
/// base speed.
pub const EFF_SPEED_MAX: i64 = 250_000;

/// Largest velocity increment one acceleration adds per tick.
pub const ACCEL_MAX: i64 = 25_000_000;

/// Bound on the number of tracked player-like actors.
pub const PLAYERS_MAX: usize = 8;

/// Behavioral state of a bull.
#[derive(Clone, Copy, Debug, PartialEq, Eq, Structural)]
pub enum BullState {
    Idle,
    Charging,
    Walking,
    Running,
    Collision,
}

impl Default for BullState {
    /// A bull starts idle.
    fn default() -> (s: BullState)
        ensures
            s == BullState::Idle,
    {
        BullState::Idle
    }
}

/// The animation clip bound to each behavioral state.
#[derive(Clone, Copy, Debug, PartialEq, Eq, Structural)]
pub enum AnimationClip {
    Idle,
    Walk,
    Charge,
    Run,
    Collide,
}

/// A request from the player-input subsystem to start (or end) a charge.
#[derive(Clone, Copy, Debug, PartialEq, Eq, Structural)]
pub struct BullChargeEvent {
    pub charging: bool,
}

/// A movement command for one actor, re-emitted every tick while a heading
/// is set.
#[derive(Clone, Copy, Debug, PartialEq, Eq, Structural)]
pub struct BullMoveEvent {
    pub entity: u64,
    pub direction: Vec2,
}

/// A request to relocate an actor whose position became invalid.
#[derive(Clone, Copy, Debug, PartialEq, Eq, Structural)]
pub struct ResetBullEvent(pub u64);

/// Per-actor behavioral record.
#[derive(Clone, Copy, Debug)]
pub struct Bull {
    pub current_animation: Option<AnimationClip>,
    pub state: BullState,
    pub random: i64,
    pub speed: i64,
    pub rotation_speed: i64,
    pub friction: i64,
    pub mind_cooldown: i64,
    pub heading_to: Option<Vec2>,
    pub charging_cooldown: i64,
}

impl Bull {
    /// Whether the state runs the charge timer down every tick.
    pub open spec fn is_timed(self) -> bool {
        self.state == BullState::Charging || self.state == BullState::Running || self.state
            == BullState::Collision
    }

    /// Structural bounds every bull the library hands out satisfies and
    /// every step preserves. The charge timer is only ever run down while a
    /// timed state holds, and such a state is left the tick the timer
    /// expires, so the timer sits above `-DT_MAX` while timed and above
    /// `-2 * DT_MAX` always.
    pub open spec fn wf(self) -> bool {
        &&& 0 <= self.speed <= MAX_SPEED
        &&& 0 <= self.rotation_speed <= FIX_MAX
        &&& 0 <= self.friction <= SCALE
        &&& 0 <= self.random <= SCALE
        &&& in_range(self.mind_cooldown as int)
        &&& -2 * DT_MAX <= self.charging_cooldown <= FIX_MAX
        &&& (self.is_timed() ==> self.charging_cooldown >= -DT_MAX)
        &&& (self.heading_to matches Some(h) ==> h.bounded(SCALE as int))
    }

    /// Whether both cooldowns have expired, so the actor may re-evaluate its
    /// behavior this tick.
    pub fn can_think(&self) -> (r: bool)
        ensures
            r == (self.mind_cooldown <= 0 && self.charging_cooldown <= 0),
    {
        self.mind_cooldown <= 0 && self.charging_cooldown <= 0
    }
}

impl Default for Bull {
    /// A fresh bull: idle, default tuning constants, expired cooldowns, no
    /// heading, and a random behavioral scalar in `[0.5, 1.0)`.
    fn default() -> (b: Bull)
        ensures
            b.current_animation is None,
            b.state == BullState::Idle,
            b.speed == DEFAULT_SPEED,
            b.rotation_speed == DEFAULT_ROTATION_SPEED,
            b.friction == DEFAULT_FRICTION,
            500 <= b.random < 1000,
            b.mind_cooldown == 0,
            b.charging_cooldown == 0,
            b.heading_to is None,
            b.wf(),
    {
        let random = random_in_range(500, 1000);
        Bull {
            current_animation: None,
            state: BullState::Idle,
            random,
            speed: DEFAULT_SPEED,
            rotation_speed: DEFAULT_ROTATION_SPEED,
            friction: DEFAULT_FRICTION,
            mind_cooldown: 0,
            heading_to: None,
            charging_cooldown: 0,
        }
    }
}

/// Relies on rand::Rng::gen_range on rand::thread_rng: returns a uniformly
/// distributed value of the half-open range; it panics on an empty range,
/// which the requires keeps out.
#[verifier::external_body]
pub(crate) fn random_in_range(lo: i64, hi: i64) -> (r: i64)
    requires
        lo < hi,
    ensures
        lo <= r < hi,
{
    rand::thread_rng().gen_range(lo..hi)
}

/// One charge request applied to one bull: re-arms only an actor whose
/// charge timer has fully expired.
pub open spec fn spec_apply_charge(b: Bull, e: BullChargeEvent) -> Bull {
    if e.charging && b.charging_cooldown <= 0 {
        Bull { state: BullState::Charging, charging_cooldown: CHARGE_LIMIT, ..b }
    } else {
        b
    }
}

/// Applies one charge request to one bull.
pub fn apply_charge_event(b: Bull, e: &BullChargeEvent) -> (r: Bull)
    ensures
        r == spec_apply_charge(b, *e),
        b.charging_cooldown > 0 ==> r == b,
        b.wf() ==> r.wf(),
{
    if e.charging && b.charging_cooldown <= 0 {
        Bull { state: BullState::Charging, charging_cooldown: CHARGE_LIMIT, ..b }
    } else {
        b
    }
}

/// The capped-additive screen-shake update.
pub open spec fn spec_add_trauma(t: int) -> int {
    if t + TRAUMA_AMOUNT >= TRAUMA_MAX {
        TRAUMA_MAX as int
    } else {
        t + TRAUMA_AMOUNT
    }
}

/// Raises the screen-shake accumulator by one increment, capped at its
/// maximum.
pub fn add_trauma(t: i64) -> (r: i64)
    requires
        in_range(t as int),
    ensures
        r == spec_add_trauma(t as int),
{
    if t + TRAUMA_AMOUNT >= TRAUMA_MAX {
        TRAUMA_MAX
    } else {
        t + TRAUMA_AMOUNT
    }
}

/// The clip each behavioral state plays.
pub open spec fn clip_for(state: BullState) -> AnimationClip {
    match state {
        BullState::Collision => AnimationClip::Collide,
        BullState::Walking => AnimationClip::Walk,
        BullState::Charging => AnimationClip::Charge,
        BullState::Running => AnimationClip::Run,
        BullState::Idle => AnimationClip::Idle,
    }
}

/// Playback rate of the clip for each state (scaled).
pub open spec fn anim_speed_for(state: BullState) -> int {
    if state == BullState::Running {
        3000
    } else {
        2000
    }
}

/// What the animation pass asks the playback collaborator to do for one
/// actor this tick.
#[derive(Clone, Copy, Debug, PartialEq, Eq, Structural)]
pub struct AnimationCommand {
    /// A clip to start playing, absent when the right clip is already bound.
    pub play: Option<AnimationClip>,
    /// Playback rate to set (scaled).
    pub speed: i64,
}

/// Animation selection for one actor: binds the clip of the current state,
/// avoiding a redundant switch when it is already bound.
pub open spec fn spec_animate(b: Bull) -> (Bull, AnimationCommand) {
    let clip = clip_for(b.state);
    let speed = anim_speed_for(b.state);
    if b.current_animation == Some(clip) {
        (b, AnimationCommand { play: None, speed: speed as i64 })
    } else {
        (
            Bull { current_animation: Some(clip), ..b },
            AnimationCommand { play: Some(clip), speed: speed as i64 },
        )
    }
}

/// Selects the clip for one actor's state and records it as bound.
pub fn animate_bull_actor(b: Bull) -> (r: (Bull, AnimationCommand))
    ensures
        r == spec_animate(b),
        b.wf() ==> r.0.wf(),
{
    let clip = match b.state {
        BullState::Collision => AnimationClip::Collide,
        BullState::Walking => AnimationClip::Walk,
        BullState::Charging => AnimationClip::Charge,
        BullState::Running => AnimationClip::Run,
        BullState::Idle => AnimationClip::Idle,
    };
    let speed: i64 = if matches!(b.state, BullState::Running) {
        3000
    } else {
        2000
    };
    let already = match b.current_animation {
        Some(c) => c == clip,
        None => false,
    };
    if already {
        (b, AnimationCommand { play: None, speed })
    } else {
        (
            Bull { current_animation: Some(clip), ..b },
            AnimationCommand { play: Some(clip), speed },
        )
    }
}

/// Clamps a scalar to an inclusive interval.
pub open spec fn clamp_spec(v: int, lo: int, hi: int) -> int {
    if v < lo {
        lo
    } else if v > hi {
        hi
    } else {
        v
    }
}

/// The heading drawn from two random square coordinates: their planar
/// direction, normalized; a degenerate all-zero draw falls back to the
/// positive first axis.
pub open spec fn spec_random_heading(x: int, z: int) -> Vec2 {
    if x == 0 && z == 0 {
        Vec2 { x: SCALE, y: 0 }
    } else {
        let q = x * x + z * z;
        let l = sqrt_floor(q);
        Vec2 { x: scale_div(x, SCALE as int, l) as i64, y: scale_div(z, SCALE as int, l) as i64 }
    }
}

/// Draws a random planar heading: a point of the heading square, normalized
/// to roughly unit length.
pub fn get_random_direction() -> (d: Vec2)
    ensures
        d.bounded(SCALE as int),
        exists|x: int, z: int|
            -HEADING_RANGE <= x < HEADING_RANGE && -HEADING_RANGE <= z < HEADING_RANGE && d
                == spec_random_heading(x, z),
{
    let x = random_in_range(-HEADING_RANGE, HEADING_RANGE);
    let z = random_in_range(-HEADING_RANGE, HEADING_RANGE);
    if x == 0 && z == 0 {
        let d = Vec2 { x: SCALE, y: 0 };
        proof {
            assert(d == spec_random_heading(0, 0));
        }
        d
    } else {
        let v = Vec3 { x, y: 0, z };
        proof {
            assert(v.len_sq() == x as int * x as int + z as int * z as int);
            assert(v.len_sq() > 0) by (nonlinear_arith)
                requires
                    v.len_sq() == x as int * x as int + z as int * z as int,
                    !(x == 0 && z == 0),
            ;
        }
        let n = v.normalized();
        let d = Vec2 { x: n.x, y: n.z };
        proof {
            assert(d == spec_random_heading(x as int, z as int));
        }
        d
    }
}

/// The decision step for one actor: the cooldown ticks down (clamped); a set
/// heading is re-emitted as a movement command; and, when both cooldowns have
/// expired, the actor alternates between walking (along `fresh` as its new
/// heading) and idling.
pub open spec fn spec_mind_step(b: Bull, dt: int, fresh: Vec2) -> (Bull, Option<Vec2>) {
    let mc = clamp_spec(b.mind_cooldown - dt, MIND_COOLDOWN_MIN as int, MIND_COOLDOWN_MAX as int);
    let emit = b.heading_to;
    if !(mc <= 0 && b.charging_cooldown <= 0) {
        (Bull { mind_cooldown: mc as i64, ..b }, emit)
    } else if b.state == BullState::Walking {
        (Bull { mind_cooldown: MIND_COOLDOWN_RESET, state: BullState::Idle, ..b }, emit)
    } else {
        (
            Bull {
                mind_cooldown: MIND_COOLDOWN_RESET,
                state: BullState::Walking,
                heading_to: Some(fresh),
                ..b
            },
            emit,
        )
    }
}

/// Ticks one actor's decision cooldown and, once it may think, alternates
/// between walking along `fresh` and idling; returns the movement command
/// the set heading keeps emitting.
pub fn update_bull_mind(b: Bull, dt: i64, fresh: Vec2) -> (r: (Bull, Option<Vec2>))
    requires
        b.wf(),
        0 <= dt <= DT_MAX,
        fresh.bounded(SCALE as int),
    ensures
        r == spec_mind_step(b, dt as int, fresh),
        r.0.wf(),
        !(clamp_spec(
            b.mind_cooldown - dt,
            MIND_COOLDOWN_MIN as int,
            MIND_COOLDOWN_MAX as int,
        ) <= 0 && b.charging_cooldown <= 0) ==> r.0.heading_to == b.heading_to,
{
    let mut mc = b.mind_cooldown - dt;
    if mc < MIND_COOLDOWN_MIN {
        mc = MIND_COOLDOWN_MIN;
    } else if mc > MIND_COOLDOWN_MAX {
        mc = MIND_COOLDOWN_MAX;
    }
    let emit = b.heading_to;
    if !(mc <= 0 && b.charging_cooldown <= 0) {
        (Bull { mind_cooldown: mc, ..b }, emit)
    } else if matches!(b.state, BullState::Walking) {
        (Bull { mind_cooldown: MIND_COOLDOWN_RESET, state: BullState::Idle, ..b }, emit)
    } else {
        (
            Bull {
                mind_cooldown: MIND_COOLDOWN_RESET,
                state: BullState::Walking,
                heading_to: Some(fresh),
                ..b
            },
            emit,
        )
    }
}

/// While either cooldown still runs at decision time, the decision step
/// leaves the chosen heading and the state untouched: only the decision
/// cooldown ticks down.
pub proof fn lemma_mind_keeps_heading(b: Bull, dt: int, fresh: Vec2)
    requires
        !(clamp_spec(b.mind_cooldown - dt, MIND_COOLDOWN_MIN as int, MIND_COOLDOWN_MAX as int) <= 0
            && b.charging_cooldown <= 0),
    ensures
        spec_mind_step(b, dt, fresh).0.heading_to == b.heading_to,
        spec_mind_step(b, dt, fresh).0.state == b.state,
{
}

/// What the movement step asks of the transform owner for one actor.
#[derive(Clone, Copy, Debug, PartialEq, Eq, Structural)]
pub enum RotationIntent {
    /// Leave the rotation as it is.
    Keep,
    /// While charging: yaw in place toward the planar offset `(dx, dz)`.
    Face { dx: i64, dz: i64 },
    /// While moving fast enough: turn along the translation delta `(dx, dz)`.
    Turn { dx: i64, dz: i64 },
}

/// Everything one movement step produces for one actor.
#[derive(Clone, Copy, Debug)]
pub struct BullUpdate {
    pub bull: Bull,
    pub velocity: Vec3,
    pub angvel: Vec3,
    /// Whether an invalid position was detected and a relocation requested.
    pub reset: bool,
    pub rotation: RotationIntent,
}

/// Speed cap of a state: the base speed, raised while running (2.5x) or
/// recoiling from a collision (1.5x).
pub open spec fn eff_speed(state: BullState, speed: int) -> int {
    match state {
        BullState::Running => fmul(speed, 2500),
        BullState::Collision => fmul(speed, 1500),
        _ => speed,
    }
}

/// Computes the speed cap of a state.
pub fn eff_speed_exec(state: BullState, speed: i64) -> (r: i64)
    requires
        0 <= speed <= MAX_SPEED,
    ensures
        r == eff_speed(state, speed as int),
        0 <= r <= EFF_SPEED_MAX,
{
    proof {
        lemma_fmul_bound(speed as int, 2500, MAX_SPEED as int, 2500);
        lemma_fmul_bound(speed as int, 1500, MAX_SPEED as int, 2500);
        assert(speed as int * 2500 >= 0 && speed as int * 1500 >= 0) by (nonlinear_arith)
            requires
                speed >= 0,
        ;
        lemma_div_pos_is_pos(speed as int * 2500, SCALE as int);
        lemma_div_pos_is_pos(speed as int * 1500, SCALE as int);
    }
    match state {
        BullState::Running => fixed_mul(speed, 2500),
        BullState::Collision => fixed_mul(speed, 1500),
        _ => speed,
    }
}

/// Exponential friction decay applied to a velocity: every component scaled
/// by the per-tick decay factor.
pub open spec fn spec_decayed(v: Vec3, decay: int) -> Vec3 {
    Vec3 {
        x: fmul(v.x as int, decay) as i64,
        y: fmul(v.y as int, decay) as i64,
        z: fmul(v.z as int, decay) as i64,
    }
}

/// One acceleration increment: `speed * dt` along the unit direction `n`.
pub open spec fn spec_accel(v: Vec3, n: Vec3, speed: int, dt: int) -> Vec3 {
    Vec3 {
        x: (v.x + fmul(fmul(n.x as int, speed), dt)) as i64,
        y: (v.y + fmul(fmul(n.y as int, speed), dt)) as i64,
        z: (v.z + fmul(fmul(n.z as int, speed), dt)) as i64,
    }
}

/// The ground-plane offset from an actor's position to a player's.
pub open spec fn spec_planar_offset(pos: Vec3, p: Vec3) -> Vec3 {
    Vec3 { x: (p.x - pos.x) as i64, y: 0, z: (p.z - pos.z) as i64 }
}

/// One acceleration burst toward one player; a player standing exactly on
/// the actor's planar position gives no direction and is skipped.
pub open spec fn spec_chase_one(v: Vec3, pos: Vec3, p: Vec3, speed: int, dt: int) -> Vec3 {
    let off = spec_planar_offset(pos, p);
    if off.len_sq() == 0 {
        v
    } else {
        spec_accel(v, spec_normalized(off), speed, dt)
    }
}

/// Acceleration bursts toward the first `i` players, in order.
pub open spec fn spec_chase(
    v: Vec3,
    pos: Vec3,
    players: Seq<Vec3>,
    speed: int,
    dt: int,
    i: int,
) -> Vec3
    decreases i,
{
    if i <= 0 {
        v
    } else {
        spec_chase_one(spec_chase(v, pos, players, speed, dt, i - 1), pos, players[i - 1], speed, dt)
    }
}

/// Applies one acceleration increment along a unit direction.
fn accel_step(v: Vec3, n: Vec3, speed: i64, dt: i64) -> (r: Vec3)
    requires
        v.bounded(FIX_MAX as int - ACCEL_MAX as int),
        n.bounded(SCALE as int),
        0 <= speed <= EFF_SPEED_MAX,
        0 <= dt <= DT_MAX,
    ensures
        r == spec_accel(v, n, speed as int, dt as int),
        abs(r.x as int) <= abs(v.x as int) + ACCEL_MAX,
        abs(r.y as int) <= abs(v.y as int) + ACCEL_MAX,
        abs(r.z as int) <= abs(v.z as int) + ACCEL_MAX,
{
    proof {
        lemma_fmul_bound(n.x as int, speed as int, SCALE as int, EFF_SPEED_MAX as int);
        lemma_fmul_bound(n.y as int, speed as int, SCALE as int, EFF_SPEED_MAX as int);
        lemma_fmul_bound(n.z as int, speed as int, SCALE as int, EFF_SPEED_MAX as int);
        lemma_fmul_bound(
            fmul(n.x as int, speed as int),
            dt as int,
            EFF_SPEED_MAX as int,
            DT_MAX as int,
        );
        lemma_fmul_bound(
            fmul(n.y as int, speed as int),
            dt as int,
            EFF_SPEED_MAX as int,
            DT_MAX as int,
        );
        lemma_fmul_bound(
            fmul(n.z as int, speed as int),
            dt as int,
            EFF_SPEED_MAX as int,
            DT_MAX as int,
        );
    }
    let a1 = n.scaled_by(speed);
    let d = a1.scaled_by(dt);
    v.plus(d)
}

/// The movement integration of one actor for one tick.
///
/// An absent position stands for one the physics engine drove to a
/// non-finite value: velocities are zeroed and a relocation is requested,
/// nothing else happens. An idle actor is skipped. A charging actor only
/// faces the last tracked player and runs its charge timer down, converting
/// to a run when it expires. Any other actor is decelerated by friction,
/// accelerated by its state's policy (running: toward the players inside the
/// initial window, then along its own velocity; collision: along its negated
/// recoil velocity; walking: along the discretized movement command), and
/// finally speed-capped by the state's effective speed.
pub open spec fn spec_update_bull(
    b: Bull,
    position: Option<Vec3>,
    velocity: Vec3,
    angvel: Vec3,
    move_dir: Option<Vec2>,
    players: Seq<Vec3>,
    dt: int,
    decay: int,
) -> BullUpdate {
    match position {
        None => BullUpdate {
            bull: b,
            velocity: Vec3 { x: 0, y: 0, z: 0 },
            angvel: Vec3 { x: 0, y: 0, z: 0 },
            reset: true,
            rotation: RotationIntent::Keep,
        },
        Some(pos) => if b.state == BullState::Idle {
            BullUpdate { bull: b, velocity, angvel, reset: false, rotation: RotationIntent::Keep }
        } else if b.state == BullState::Charging {
            let rotation = if players.len() > 0 {
                RotationIntent::Face {
                    dx: (players.last().x - pos.x) as i64,
                    dz: (players.last().z - pos.z) as i64,
                }
            } else {
                RotationIntent::Keep
            };
            let cc = b.charging_cooldown - dt;
            let nb = if cc <= 0 {
                Bull { state: BullState::Running, charging_cooldown: (2 * CHARGE_LIMIT) as i64, ..b }
            } else {
                Bull { charging_cooldown: cc as i64, ..b }
            };
            BullUpdate { bull: nb, velocity, angvel, reset: false, rotation }
        } else {
            let speed = eff_speed(b.state, b.speed as int);
            let v1 = spec_decayed(velocity, decay);
            let stepped = match b.state {
                BullState::Running => {
                    let cc = b.charging_cooldown - dt;
                    let v2 = if cc <= CHARGE_LIMIT {
                        if v1.len_sq() == 0 {
                            v1
                        } else {
                            spec_accel(v1, spec_normalized(v1), speed, dt)
                        }
                    } else {
                        spec_chase(v1, pos, players, speed, dt, players.len() as int)
                    };
                    let st = if cc <= 0 {
                        BullState::Idle
                    } else {
                        BullState::Running
                    };
                    (v2, st, cc)
                },
                BullState::Collision => {
                    let cc = b.charging_cooldown - dt;
                    let v2 = if v1.len_sq() == 0 {
                        v1
                    } else {
                        spec_accel(v1, spec_normalized(v1), speed, dt)
                    };
                    let st = if cc <= 0 {
                        BullState::Idle
                    } else {
                        BullState::Collision
                    };
                    (v2, st, cc)
                },
                _ => {
                    let v2 = match move_dir {
                        Some(d) => spec_accel(
                            v1,
                            spec_zero_signum(Vec3 { x: d.x, y: 0, z: d.y }),
                            speed,
                            dt,
                        ),
                        None => v1,
                    };
                    (v2, b.state, b.charging_cooldown as int)
                },
            };
            let v3 = spec_clamp_length_max(stepped.0, speed);
            let lin = if stepped.1 == BullState::Collision {
                Vec3 { x: (-v3.x) as i64, y: (-v3.y) as i64, z: (-v3.z) as i64 }
            } else {
                v3
            };
            let rotation = if lin.len_sq() > SCALE * SCALE {
                RotationIntent::Turn {
                    dx: fmul(lin.x as int, dt) as i64,
                    dz: fmul(lin.z as int, dt) as i64,
                }
            } else {
                RotationIntent::Keep
            };
            BullUpdate {
                bull: Bull { state: stepped.1, charging_cooldown: stepped.2 as i64, ..b },
                velocity: v3,
                angvel,
                reset: false,
                rotation,
            }
        },
    }
}

/// A charging bull converts to running exactly when its charge timer
/// crosses zero, and the run is then armed with twice the charge window;
/// until then it stays charging with the timer run down, and its velocity is
/// never touched while charging.
pub proof fn lemma_charge_to_run(
    b: Bull,
    pos: Vec3,
    velocity: Vec3,
    angvel: Vec3,
    md: Option<Vec2>,
    players: Seq<Vec3>,
    dt: int,
    decay: int,
)
    requires
        b.state == BullState::Charging,
        b.wf(),
        0 <= dt <= DT_MAX,
    ensures
        ({
            let u = spec_update_bull(b, Some(pos), velocity, angvel, md, players, dt, decay);
            &&& (u.bull.state == BullState::Running <==> b.charging_cooldown - dt <= 0)
            &&& (u.bull.state == BullState::Running ==> u.bull.charging_cooldown == 2
                * CHARGE_LIMIT)
            &&& (u.bull.state != BullState::Running ==> u.bull.state == BullState::Charging
                && u.bull.charging_cooldown == b.charging_cooldown - dt)
            &&& u.velocity == velocity
        }),
{
}

/// Integrates one actor's movement for one tick; see [`spec_update_bull`]
/// for the policy.
pub fn update_bull(
    b: Bull,
    position: Option<Vec3>,
    velocity: Vec3,
    angvel: Vec3,
    move_dir: Option<Vec2>,
    players: &Vec<Vec3>,
    dt: i64,
    decay: i64,
) -> (r: BullUpdate)
    requires
        b.wf(),
        velocity.bounded(VEL_MAX as int),
        position matches Some(p) ==> p.bounded(POS_MAX as int),
        forall|i: int| 0 <= i < players@.len() ==> players@[i].bounded(POS_MAX as int),
        players@.len() <= PLAYERS_MAX,
        0 <= dt <= DT_MAX,
        0 <= decay <= SCALE,
    ensures
        r == spec_update_bull(
            b,
            position,
            velocity,
            angvel,
            move_dir,
            players@,
            dt as int,
            decay as int,
        ),
        r.bull.wf(),
        r.velocity.bounded(VEL_MAX as int),
        position is None ==> r.velocity == (Vec3 { x: 0, y: 0, z: 0 }) && r.angvel == (Vec3 {
            x: 0,
            y: 0,
            z: 0,
        }) && r.reset && r.bull == b,
        position is Some && (b.state == BullState::Walking || b.state == BullState::Running
            || b.state == BullState::Collision) ==> r.velocity.len_sq() <= eff_speed(
            b.state,
            b.speed as int,
        ) * eff_speed(b.state, b.speed as int),
        position is Some && b.state == BullState::Charging ==> ((r.bull.state
            == BullState::Running) <==> b.charging_cooldown - dt <= 0) && (r.bull.state
            == BullState::Running ==> r.bull.charging_cooldown == 2 * CHARGE_LIMIT) && (r.bull.state
            != BullState::Running ==> r.bull.state == BullState::Charging
            && r.bull.charging_cooldown == b.charging_cooldown - dt) && r.velocity == velocity,
{
    let pos = match position {
        None => {
            return BullUpdate {
                bull: b,
                velocity: Vec3::zero(),
                angvel: Vec3::zero(),
                reset: true,
                rotation: RotationIntent::Keep,
            };
        },
        Some(p) => p,
    };
    if matches!(b.state, BullState::Idle) {
        return BullUpdate { bull: b, velocity, angvel, reset: false, rotation: RotationIntent::Keep };
    }
    if matches!(b.state, BullState::Charging) {
        let rotation = if players.len() > 0 {
            let p = players[players.len() - 1];
            RotationIntent::Face { dx: p.x - pos.x, dz: p.z - pos.z }
        } else {
            RotationIntent::Keep
        };
        let cc = b.charging_cooldown - dt;
        let nb = if cc <= 0 {
            Bull { state: BullState::Running, charging_cooldown: 2 * CHARGE_LIMIT, ..b }
        } else {
            Bull { charging_cooldown: cc, ..b }
        };
        return BullUpdate { bull: nb, velocity, angvel, reset: false, rotation };
    }
    let speed = eff_speed_exec(b.state, b.speed);
    proof {
        lemma_fmul_bound(velocity.x as int, decay as int, VEL_MAX as int, SCALE as int);
        lemma_fmul_bound(velocity.y as int, decay as int, VEL_MAX as int, SCALE as int);
        lemma_fmul_bound(velocity.z as int, decay as int, VEL_MAX as int, SCALE as int);
    }
    let v1 = velocity.scaled_by(decay);
    let ghost gv1 = spec_decayed(velocity, decay as int);
    proof {
        assert(v1 == gv1);
        assert(v1.bounded(VEL_MAX as int));
    }
    let (v2, state2, cc2): (Vec3, BullState, i64) = if matches!(b.state, BullState::Running) {
        let cc = b.charging_cooldown - dt;
        let v2 = if cc <= CHARGE_LIMIT {
            let q = v1.len_sq_exec();
            if q == 0 {
                v1
            } else {
                accel_step(v1, v1.normalized(), speed, dt)
            }
        } else {
            let mut vc = v1;
            let mut i: usize = 0;
            while i < players.len()
                invariant
                    0 <= i <= players@.len(),
                    players@.len() <= PLAYERS_MAX,
                    forall|j: int| 0 <= j < players@.len() ==> players@[j].bounded(POS_MAX as int),
                    pos.bounded(POS_MAX as int),
                    v1.bounded(VEL_MAX as int),
                    0 <= speed <= EFF_SPEED_MAX,
                    0 <= dt <= DT_MAX,
                    vc == spec_chase(v1, pos, players@, speed as int, dt as int, i as int),
                    vc.bounded(VEL_MAX as int + i as int * ACCEL_MAX as int),
                decreases players@.len() - i,
            {
                let p = players[i];
                let off = Vec3 { x: p.x - pos.x, y: 0, z: p.z - pos.z };
                proof {
                    assert(off == spec_planar_offset(pos, p));
                }
                let q = off.len_sq_exec();
                if q != 0 {
                    let n = off.normalized();
                    vc = accel_step(vc, n, speed, dt);
                }
                proof {
                    assert(vc == spec_chase(
                        v1,
                        pos,
                        players@,
                        speed as int,
                        dt as int,
                        i as int + 1,
                    ));
                }
                i = i + 1;
            }
            vc
        };
        let st = if cc <= 0 {
            BullState::Idle
        } else {
            BullState::Running
        };
        (v2, st, cc)
    } else if matches!(b.state, BullState::Collision) {
        let cc = b.charging_cooldown - dt;
        let q = v1.len_sq_exec();
        let v2 = if q == 0 {
            v1
        } else {
            accel_step(v1, v1.normalized(), speed, dt)
        };
        let st = if cc <= 0 {
            BullState::Idle
        } else {
            BullState::Collision
        };
        (v2, st, cc)
    } else {
        let v2 = match move_dir {
            Some(d) => {
                let dir = Vec3 { x: d.x, y: 0, z: d.y };
                accel_step(v1, dir.zero_signum(), speed, dt)
            },
            None => v1,
        };
        (v2, b.state, b.charging_cooldown)
    };
    let v3 = v2.clamp_length_max(speed);
    let lin = if matches!(state2, BullState::Collision) {
        v3.negated()
    } else {
        v3
    };
    proof {
        lemma_fmul_bound(lin.x as int, dt as int, EFF_SPEED_MAX as int, DT_MAX as int);
        lemma_fmul_bound(lin.z as int, dt as int, EFF_SPEED_MAX as int, DT_MAX as int);
    }
    let lq = lin.len_sq_exec();
    let rotation = if lq > SCALE * SCALE {
        RotationIntent::Turn { dx: fixed_mul(lin.x, dt), dz: fixed_mul(lin.z, dt) }
    } else {
        RotationIntent::Keep
    };
    BullUpdate {
        bull: Bull { state: state2, charging_cooldown: cc2, ..b },
        velocity: v3,
        angvel,
        reset: false,
        rotation,
    }
}

} // verus!
