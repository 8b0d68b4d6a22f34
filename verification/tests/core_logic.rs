//! Tests of the fixed-point arithmetic, the vector utilities, and the
//! per-actor state machine steps.

use bull_core::bull::{
    add_trauma, animate_bull_actor, apply_charge_event, eff_speed_exec, get_random_direction,
    update_bull, update_bull_mind, AnimationClip, Bull, BullChargeEvent, BullState, RotationIntent,
    CHARGE_LIMIT, DEFAULT_FRICTION, DEFAULT_SPEED, MIND_COOLDOWN_RESET,
};
use bull_core::fixed::{isqrt, isqrt_ceil, mul_div, fixed_mul};
use bull_core::vector::{Vec2, Vec3, ZeroSignum};

fn bull_with(state: BullState, mind_cooldown: i64, charging_cooldown: i64) -> Bull {
    Bull {
        current_animation: None,
        state,
        random: 750,
        speed: DEFAULT_SPEED,
        rotation_speed: 1000,
        friction: DEFAULT_FRICTION,
        mind_cooldown,
        heading_to: None,
        charging_cooldown,
    }
}

#[test]
fn mul_div_rounds_toward_zero() {
    assert_eq!(mul_div(7, 3, 2), 10);
    assert_eq!(mul_div(-7, 3, 2), -10);
    assert_eq!(mul_div(7, -3, 2), -10);
    assert_eq!(mul_div(-7, -3, 2), 10);
    assert_eq!(mul_div(0, 5, 9), 0);
    assert_eq!(fixed_mul(10_000, 10), 100);
    assert_eq!(fixed_mul(1500, 1500), 2250);
}

#[test]
fn isqrt_exact_values() {
    assert_eq!(isqrt(0), 0);
    assert_eq!(isqrt(1), 1);
    assert_eq!(isqrt(2), 1);
    assert_eq!(isqrt(99), 9);
    assert_eq!(isqrt(100), 10);
    assert_eq!(isqrt(100_000_000), 10_000);
    assert_eq!(isqrt_ceil(100), 10);
    assert_eq!(isqrt_ceil(101), 11);
}

#[test]
fn zero_signum_deadzone_edges() {
    let v = Vec3 { x: 99, y: -99, z: 0 };
    let r = v.zero_signum();
    assert_eq!((r.x, r.y, r.z), (0, 0, 0));
    let v = Vec3 { x: 100, y: -100, z: 5000 };
    let r = v.zero_signum();
    assert_eq!((r.x, r.y, r.z), (1000, -1000, 1000));
    let v = Vec3 { x: -5000, y: 0, z: -100_000 };
    let r = v.zero_signum();
    assert_eq!((r.x, r.y, r.z), (-1000, 0, -1000));
}

#[test]
fn length_rounds_down() {
    assert_eq!(Vec3 { x: 3000, y: 0, z: 4000 }.length(), 5000);
    assert_eq!(Vec3 { x: 1000, y: 1000, z: 0 }.length(), 1414);
    assert_eq!(Vec3 { x: 0, y: 0, z: 0 }.length(), 0);
}

#[test]
fn normalize_and_clamp_exact() {
    let v = Vec3 { x: 3000, y: 0, z: 4000 };
    let n = v.normalized();
    assert_eq!((n.x, n.y, n.z), (600, 0, 800));
    let v = Vec3 { x: 10_000, y: 0, z: 0 };
    let c = v.clamp_length_max(5000);
    assert_eq!((c.x, c.y, c.z), (5000, 0, 0));
    let small = Vec3 { x: 100, y: 200, z: -300 };
    let c = small.clamp_length_max(5000);
    assert_eq!((c.x, c.y, c.z), (100, 200, -300));
}

#[test]
fn effective_speed_multipliers() {
    assert_eq!(eff_speed_exec(BullState::Idle, 20_000), 20_000);
    assert_eq!(eff_speed_exec(BullState::Walking, 20_000), 20_000);
    assert_eq!(eff_speed_exec(BullState::Running, 20_000), 50_000);
    assert_eq!(eff_speed_exec(BullState::Collision, 20_000), 30_000);
}

#[test]
fn can_think_iff_both_cooldowns_expired() {
    assert!(bull_with(BullState::Idle, 0, 0).can_think());
    assert!(bull_with(BullState::Idle, -5, -1).can_think());
    assert!(!bull_with(BullState::Idle, 1, 0).can_think());
    assert!(!bull_with(BullState::Idle, 0, 1).can_think());
    assert!(!bull_with(BullState::Idle, 1, 1).can_think());
}

#[test]
fn charge_event_arms_expired_bull() {
    let b = bull_with(BullState::Idle, 500, 0);
    let r = apply_charge_event(b, &BullChargeEvent { charging: true });
    assert_eq!(r.state, BullState::Charging);
    assert_eq!(r.charging_cooldown, CHARGE_LIMIT);
    assert_eq!(r.mind_cooldown, 500);
}

#[test]
fn charge_event_noop_while_timer_runs() {
    let b = bull_with(BullState::Running, 0, 4000);
    let r = apply_charge_event(b, &BullChargeEvent { charging: true });
    assert_eq!(r.state, BullState::Running);
    assert_eq!(r.charging_cooldown, 4000);
    let b = bull_with(BullState::Charging, 0, 1);
    let r = apply_charge_event(b, &BullChargeEvent { charging: true });
    assert_eq!(r.state, BullState::Charging);
    assert_eq!(r.charging_cooldown, 1);
}

#[test]
fn charge_event_not_charging_is_ignored() {
    let b = bull_with(BullState::Walking, 0, 0);
    let r = apply_charge_event(b, &BullChargeEvent { charging: false });
    assert_eq!(r.state, BullState::Walking);
    assert_eq!(r.charging_cooldown, 0);
}

#[test]
fn trauma_capped_additive() {
    assert_eq!(add_trauma(0), 500);
    assert_eq!(add_trauma(499), 999);
    assert_eq!(add_trauma(500), 1000);
    assert_eq!(add_trauma(600), 1000);
    assert_eq!(add_trauma(1000), 1000);
}

#[test]
fn animation_avoids_redundant_switch() {
    let b = bull_with(BullState::Running, 0, 4000);
    let (b2, cmd) = animate_bull_actor(b);
    assert_eq!(cmd.play, Some(AnimationClip::Run));
    assert_eq!(cmd.speed, 3000);
    assert_eq!(b2.current_animation, Some(AnimationClip::Run));
    let (b3, cmd2) = animate_bull_actor(b2);
    assert_eq!(cmd2.play, None);
    assert_eq!(cmd2.speed, 3000);
    assert_eq!(b3.current_animation, Some(AnimationClip::Run));
    let (_, cmd3) = animate_bull_actor(bull_with(BullState::Walking, 0, 0));
    assert_eq!(cmd3.play, Some(AnimationClip::Walk));
    assert_eq!(cmd3.speed, 2000);
}

#[test]
fn mind_step_enters_walking_with_fresh_heading() {
    let b = bull_with(BullState::Idle, 0, 0);
    let fresh = Vec2 { x: 600, y: -800 };
    let (nb, emit) = update_bull_mind(b, 16, fresh);
    assert_eq!(nb.state, BullState::Walking);
    assert_eq!(nb.heading_to, Some(fresh));
    assert_eq!(nb.mind_cooldown, MIND_COOLDOWN_RESET);
    assert_eq!(emit, None);
}

#[test]
fn mind_step_walking_returns_to_idle() {
    let mut b = bull_with(BullState::Walking, -100, 0);
    b.heading_to = Some(Vec2 { x: 1000, y: 0 });
    let (nb, emit) = update_bull_mind(b, 16, Vec2 { x: 0, y: 1000 });
    assert_eq!(nb.state, BullState::Idle);
    assert_eq!(nb.heading_to, Some(Vec2 { x: 1000, y: 0 }));
    assert_eq!(nb.mind_cooldown, MIND_COOLDOWN_RESET);
    assert_eq!(emit, Some(Vec2 { x: 1000, y: 0 }));
}

#[test]
fn mind_step_gated_by_cooldowns() {
    let mut b = bull_with(BullState::Idle, 2000, 0);
    b.heading_to = Some(Vec2 { x: 1000, y: 0 });
    let (nb, emit) = update_bull_mind(b, 16, Vec2 { x: 0, y: 1000 });
    assert_eq!(nb.state, BullState::Idle);
    assert_eq!(nb.heading_to, Some(Vec2 { x: 1000, y: 0 }));
    assert_eq!(nb.mind_cooldown, 2000 - 16);
    assert_eq!(emit, Some(Vec2 { x: 1000, y: 0 }));
    let b = bull_with(BullState::Charging, 0, 2500);
    let (nb, _) = update_bull_mind(b, 16, Vec2 { x: 0, y: 1000 });
    assert_eq!(nb.state, BullState::Charging);
    assert_eq!(nb.heading_to, None);
}

#[test]
fn mind_cooldown_clamped() {
    let b = bull_with(BullState::Charging, -9990, 2500);
    let (nb, _) = update_bull_mind(b, 100, Vec2 { x: 0, y: 1000 });
    assert_eq!(nb.mind_cooldown, -10_000);
}

#[test]
fn charging_one_frame_converts_to_running() {
    let b = bull_with(BullState::Charging, 0, 16);
    let velocity = Vec3 { x: 0, y: 0, z: 0 };
    let players: Vec<Vec3> = vec![Vec3 { x: 10_000, y: 0, z: 10_000 }];
    let u = update_bull(
        b,
        Some(Vec3 { x: 0, y: 2000, z: 0 }),
        velocity,
        Vec3 { x: 0, y: 0, z: 0 },
        None,
        &players,
        16,
        929,
    );
    assert!(u.bull.charging_cooldown <= 0 || u.bull.state == BullState::Running);
    assert_eq!(u.bull.state, BullState::Running);
    assert_eq!(u.bull.charging_cooldown, 2 * CHARGE_LIMIT);
    assert_eq!(u.velocity, velocity);
    assert_eq!(u.rotation, RotationIntent::Face { dx: 10_000, dz: 10_000 });
}

#[test]
fn charging_keeps_counting_down() {
    let b = bull_with(BullState::Charging, 0, 2500);
    let u = update_bull(
        b,
        Some(Vec3 { x: 0, y: 2000, z: 0 }),
        Vec3 { x: 0, y: 0, z: 0 },
        Vec3 { x: 0, y: 0, z: 0 },
        None,
        &Vec::new(),
        1000,
        929,
    );
    assert_eq!(u.bull.state, BullState::Charging);
    assert_eq!(u.bull.charging_cooldown, 1500);
    assert_eq!(u.rotation, RotationIntent::Keep);
}

#[test]
fn friction_decay_exact() {
    // One second at friction 0.01: the velocity keeps a hundredth of its
    // magnitude before any acceleration is added back.
    let v = Vec3 { x: 10_000, y: 0, z: 0 };
    let decayed = v.scaled_by(10);
    assert_eq!((decayed.x, decayed.y, decayed.z), (100, 0, 0));
    // The same decay seen through a full movement step with nothing to
    // accelerate toward (no players in reach of a committed run).
    let b = bull_with(BullState::Running, 0, 5000);
    let u = update_bull(
        b,
        Some(Vec3 { x: 0, y: 2000, z: 0 }),
        v,
        Vec3 { x: 0, y: 0, z: 0 },
        None,
        &Vec::new(),
        1000,
        10,
    );
    assert_eq!(u.velocity, Vec3 { x: 100, y: 0, z: 0 });
    assert_eq!(u.bull.state, BullState::Running);
    assert_eq!(u.bull.charging_cooldown, 4000);
}

#[test]
fn velocity_capped_at_effective_speed() {
    // A committed run accelerates along its own velocity and is then capped
    // at 2.5x the base speed.
    let b = bull_with(BullState::Running, 0, 1000);
    let u = update_bull(
        b,
        Some(Vec3 { x: 0, y: 2000, z: 0 }),
        Vec3 { x: 40_000, y: 0, z: 0 },
        Vec3 { x: 0, y: 0, z: 0 },
        None,
        &Vec::new(),
        500,
        1000,
    );
    assert_eq!(u.velocity, Vec3 { x: 50_000, y: 0, z: 0 });
    assert_eq!(u.bull.state, BullState::Running);
    assert_eq!(u.bull.charging_cooldown, 500);
}

#[test]
fn running_timer_expiry_returns_to_idle() {
    let b = bull_with(BullState::Running, 0, 16);
    let u = update_bull(
        b,
        Some(Vec3 { x: 0, y: 2000, z: 0 }),
        Vec3 { x: 1000, y: 0, z: 0 },
        Vec3 { x: 0, y: 0, z: 0 },
        None,
        &Vec::new(),
        16,
        1000,
    );
    assert_eq!(u.bull.state, BullState::Idle);
}

#[test]
fn collision_recoil_accelerates_and_expires() {
    let b = bull_with(BullState::Collision, 0, 1000);
    let u = update_bull(
        b,
        Some(Vec3 { x: 0, y: 2000, z: 0 }),
        Vec3 { x: 10_000, y: 0, z: 0 },
        Vec3 { x: 0, y: 0, z: 0 },
        None,
        &Vec::new(),
        1000,
        1000,
    );
    // Accelerated along its own direction at 1.5x speed, then the timer ends
    // the recoil.
    assert_eq!(u.bull.state, BullState::Idle);
    assert_eq!(u.velocity, Vec3 { x: 30_000, y: 0, z: 0 });
}

#[test]
fn walking_accelerates_along_discretized_command() {
    let b = bull_with(BullState::Walking, 0, 0);
    let u = update_bull(
        b,
        Some(Vec3 { x: 0, y: 2000, z: 0 }),
        Vec3 { x: 0, y: 0, z: 0 },
        Vec3 { x: 0, y: 0, z: 0 },
        Some(Vec2 { x: 600, y: -800 }),
        &Vec::new(),
        16,
        929,
    );
    // zero_signum of (600, 0, -800) is (1000, 0, -1000); each axis gains
    // speed * dt = 20000 * 16 / 1000 = 320 thousandths.
    assert_eq!(u.velocity, Vec3 { x: 320, y: 0, z: -320 });
    assert_eq!(u.bull.state, BullState::Walking);
}

#[test]
fn walking_without_command_only_decays() {
    let b = bull_with(BullState::Walking, 0, 0);
    let u = update_bull(
        b,
        Some(Vec3 { x: 0, y: 2000, z: 0 }),
        Vec3 { x: 2000, y: 0, z: 0 },
        Vec3 { x: 0, y: 0, z: 0 },
        None,
        &Vec::new(),
        1000,
        500,
    );
    assert_eq!(u.velocity, Vec3 { x: 1000, y: 0, z: 0 });
}

#[test]
fn idle_bull_is_skipped() {
    let b = bull_with(BullState::Idle, 0, 0);
    let v = Vec3 { x: 123, y: 45, z: -67 };
    let u = update_bull(
        b,
        Some(Vec3 { x: 0, y: 2000, z: 0 }),
        v,
        Vec3 { x: 1, y: 2, z: 3 },
        None,
        &Vec::new(),
        16,
        929,
    );
    assert_eq!(u.velocity, v);
    assert_eq!(u.bull.state, BullState::Idle);
    assert!(!u.reset);
}

#[test]
fn invalid_position_zeroes_velocity_and_requests_reset() {
    let b = bull_with(BullState::Running, 0, 4000);
    let u = update_bull(
        b,
        None,
        Vec3 { x: 9999, y: 8888, z: 7777 },
        Vec3 { x: 1, y: 2, z: 3 },
        None,
        &Vec::new(),
        16,
        929,
    );
    assert!(u.reset);
    assert_eq!(u.velocity, Vec3 { x: 0, y: 0, z: 0 });
    assert_eq!(u.angvel, Vec3 { x: 0, y: 0, z: 0 });
    assert_eq!(u.bull.state, BullState::Running);
}

#[test]
fn running_turn_intent_only_when_fast() {
    // Fast enough: the turn intent carries the translation delta.
    let b = bull_with(BullState::Running, 0, 5000);
    let u = update_bull(
        b,
        Some(Vec3 { x: 0, y: 2000, z: 0 }),
        Vec3 { x: 2000, y: 0, z: 0 },
        Vec3 { x: 0, y: 0, z: 0 },
        None,
        &Vec::new(),
        1000,
        1000,
    );
    assert_eq!(u.rotation, RotationIntent::Turn { dx: 2000, dz: 0 });
    // Too slow: no turn.
    let b = bull_with(BullState::Walking, 0, 0);
    let u = update_bull(
        b,
        Some(Vec3 { x: 0, y: 2000, z: 0 }),
        Vec3 { x: 900, y: 0, z: 0 },
        Vec3 { x: 0, y: 0, z: 0 },
        None,
        &Vec::new(),
        1000,
        1000,
    );
    assert_eq!(u.rotation, RotationIntent::Keep);
}

#[test]
fn default_bull_tuning() {
    let b = Bull::default();
    assert_eq!(b.state, BullState::Idle);
    assert_eq!(b.speed, DEFAULT_SPEED);
    assert_eq!(b.rotation_speed, 1000);
    assert_eq!(b.friction, DEFAULT_FRICTION);
    assert_eq!(b.mind_cooldown, 0);
    assert_eq!(b.charging_cooldown, 0);
    assert_eq!(b.heading_to, None);
    for _ in 0..100 {
        let b = Bull::default();
        assert!(500 <= b.random && b.random < 1000);
    }
}

#[test]
fn random_direction_roughly_unit() {
    for _ in 0..200 {
        let d = get_random_direction();
        assert!(-1000 <= d.x && d.x <= 1000);
        assert!(-1000 <= d.y && d.y <= 1000);
        let len_sq = d.x * d.x + d.y * d.y;
        assert!(len_sq >= 250_000, "heading too short: {:?}", (d.x, d.y));
        assert!(len_sq <= 2_000_000, "heading too long: {:?}", (d.x, d.y));
    }
}

#[test]
fn mind_scenario_idle_to_walking() {
    // An idle bull whose cooldowns are spent picks a heading within a unit
    // square and starts walking after one decision tick.
    let b = bull_with(BullState::Idle, 0, 0);
    let fresh = get_random_direction();
    let (nb, _) = update_bull_mind(b, 16, fresh);
    assert_eq!(nb.state, BullState::Walking);
    let h = nb.heading_to.unwrap();
    assert!(-1000 <= h.x && h.x <= 1000);
    assert!(-1000 <= h.y && h.y <= 1000);
}
