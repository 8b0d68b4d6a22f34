//! Tests of the per-tick systems over a set of actors: event queues, wall
//! collision response, invalid-position recovery, and a whole tick.

use bull_core::bull::{
    AnimationClip, Bull, BullChargeEvent, BullMoveEvent, BullState, ResetBullEvent,
    RotationIntent, CHARGE_LIMIT, COLLISION_COOLDOWN, DEFAULT_FRICTION, DEFAULT_SPEED,
};
use bull_core::sim::{
    animate_bull, find_first_move, handle_bull_charge_event, handle_collisions,
    handle_reset_bull_event_handler, tick, update_bull_minds, update_bulls, BullBody,
    ContactForceEvent,
};
use bull_core::vector::{Vec2, Vec3};

fn bull_with(state: BullState, mind_cooldown: i64, charging_cooldown: i64) -> Bull {
    Bull {
        current_animation: None,
        state,
        random: 750,
        speed: DEFAULT_SPEED,
        rotation_speed: 1000,
        friction: DEFAULT_FRICTION,
        mind_cooldown,
        heading_to: None,
        charging_cooldown,
    }
}

fn body_with(id: u64, bull: Bull, velocity: Vec3) -> BullBody {
    BullBody {
        id,
        bull,
        position: Some(Vec3 { x: 0, y: 2000, z: 0 }),
        velocity,
        angvel: Vec3 { x: 0, y: 0, z: 0 },
    }
}

#[test]
fn first_move_wins() {
    let events = vec![
        BullMoveEvent { entity: 7, direction: Vec2 { x: 1000, y: 0 } },
        BullMoveEvent { entity: 9, direction: Vec2 { x: 0, y: 1000 } },
        BullMoveEvent { entity: 7, direction: Vec2 { x: -1000, y: 0 } },
    ];
    assert_eq!(find_first_move(&events, 7), Some(Vec2 { x: 1000, y: 0 }));
    assert_eq!(find_first_move(&events, 9), Some(Vec2 { x: 0, y: 1000 }));
    assert_eq!(find_first_move(&events, 8), None);
}

#[test]
fn wall_contact_while_running_recoils() {
    let mut bodies = vec![body_with(
        1,
        bull_with(BullState::Running, 0, 4000),
        Vec3 { x: 5000, y: 600, z: -7000 },
    )];
    let mut trauma: i64 = 0;
    let events = vec![ContactForceEvent { collider1: 42, collider2: 1, total_force_magnitude: 900 }];
    let walls = vec![42u64];
    handle_collisions(&events, &walls, &mut bodies, &mut trauma);
    assert_eq!(bodies[0].bull.state, BullState::Collision);
    assert_eq!(bodies[0].bull.charging_cooldown, COLLISION_COOLDOWN);
    assert_eq!(bodies[0].velocity, Vec3 { x: -5000, y: -600, z: 7000 });
    assert_eq!(trauma, 500);
}

#[test]
fn non_wall_contact_is_ignored() {
    let mut bodies = vec![body_with(
        1,
        bull_with(BullState::Running, 0, 4000),
        Vec3 { x: 5000, y: 0, z: 0 },
    )];
    let mut trauma: i64 = 0;
    let events = vec![ContactForceEvent { collider1: 5, collider2: 1, total_force_magnitude: 900 }];
    let walls = vec![42u64];
    handle_collisions(&events, &walls, &mut bodies, &mut trauma);
    assert_eq!(bodies[0].bull.state, BullState::Running);
    assert_eq!(bodies[0].velocity, Vec3 { x: 5000, y: 0, z: 0 });
    assert_eq!(trauma, 0);
}

#[test]
fn wall_contact_ignores_non_running_states() {
    for state in [BullState::Idle, BullState::Walking, BullState::Charging, BullState::Collision] {
        let mut bodies = vec![body_with(1, bull_with(state, 0, 500), Vec3 { x: 100, y: 0, z: 0 })];
        let mut trauma: i64 = 0;
        let events =
            vec![ContactForceEvent { collider1: 42, collider2: 1, total_force_magnitude: 1 }];
        let walls = vec![42u64];
        handle_collisions(&events, &walls, &mut bodies, &mut trauma);
        assert_eq!(bodies[0].bull.state, state);
        assert_eq!(bodies[0].velocity, Vec3 { x: 100, y: 0, z: 0 });
        assert_eq!(trauma, 0);
    }
}

#[test]
fn second_wall_contact_same_tick_adds_no_trauma() {
    let mut bodies = vec![body_with(
        1,
        bull_with(BullState::Running, 0, 4000),
        Vec3 { x: 5000, y: 0, z: 0 },
    )];
    let mut trauma: i64 = 0;
    let events = vec![
        ContactForceEvent { collider1: 42, collider2: 1, total_force_magnitude: 900 },
        ContactForceEvent { collider1: 42, collider2: 1, total_force_magnitude: 900 },
    ];
    let walls = vec![42u64];
    handle_collisions(&events, &walls, &mut bodies, &mut trauma);
    // The first contact turned the bull; the second found nothing running.
    assert_eq!(trauma, 500);
    assert_eq!(bodies[0].velocity, Vec3 { x: -5000, y: 0, z: 0 });
}

#[test]
fn trauma_capped_over_many_running_bulls() {
    let mut bodies = vec![
        body_with(1, bull_with(BullState::Running, 0, 4000), Vec3 { x: 100, y: 0, z: 0 }),
        body_with(2, bull_with(BullState::Running, 0, 4000), Vec3 { x: 100, y: 0, z: 0 }),
        body_with(3, bull_with(BullState::Running, 0, 4000), Vec3 { x: 100, y: 0, z: 0 }),
    ];
    let mut trauma: i64 = 0;
    let events = vec![ContactForceEvent { collider1: 42, collider2: 9, total_force_magnitude: 1 }];
    let walls = vec![42u64];
    handle_collisions(&events, &walls, &mut bodies, &mut trauma);
    assert_eq!(trauma, 1000);
}

#[test]
fn charge_queue_arms_each_expired_bull_once() {
    let mut bodies = vec![
        body_with(1, bull_with(BullState::Idle, 0, 0), Vec3 { x: 0, y: 0, z: 0 }),
        body_with(2, bull_with(BullState::Walking, 0, 500), Vec3 { x: 0, y: 0, z: 0 }),
    ];
    let events = vec![
        BullChargeEvent { charging: true },
        BullChargeEvent { charging: true },
    ];
    handle_bull_charge_event(&events, &mut bodies);
    assert_eq!(bodies[0].bull.state, BullState::Charging);
    assert_eq!(bodies[0].bull.charging_cooldown, CHARGE_LIMIT);
    // The second bull's timer still ran: both requests were no-ops on it.
    assert_eq!(bodies[1].bull.state, BullState::Walking);
    assert_eq!(bodies[1].bull.charging_cooldown, 500);
}

#[test]
fn reset_handler_relocates_to_safe_coordinate() {
    let mut bodies = vec![BullBody {
        id: 1,
        bull: bull_with(BullState::Running, 0, 4000),
        position: None,
        velocity: Vec3 { x: 7000, y: 100, z: -3 },
        angvel: Vec3 { x: 9, y: 9, z: 9 },
    }];
    handle_reset_bull_event_handler(&vec![ResetBullEvent(1)], &mut bodies);
    assert_eq!(bodies[0].position, Some(Vec3 { x: 0, y: 2000, z: 0 }));
    assert_eq!(bodies[0].velocity, Vec3 { x: 0, y: 0, z: 0 });
    assert_eq!(bodies[0].angvel, Vec3 { x: 0, y: 0, z: 0 });
    assert_eq!(bodies[0].bull.state, BullState::Running);
}

#[test]
fn reset_handler_without_events_does_nothing() {
    let mut bodies = vec![body_with(
        1,
        bull_with(BullState::Walking, 0, 0),
        Vec3 { x: 70, y: 0, z: 0 },
    )];
    handle_reset_bull_event_handler(&Vec::new(), &mut bodies);
    assert_eq!(bodies[0].velocity, Vec3 { x: 70, y: 0, z: 0 });
    assert_eq!(bodies[0].position, Some(Vec3 { x: 0, y: 2000, z: 0 }));
}

#[test]
fn invalid_position_recovers_over_two_passes() {
    // The movement pass neutralizes the invalid actor and raises the reset;
    // the handler then relocates it, before the next movement pass.
    let mut bodies = vec![BullBody {
        id: 6,
        bull: bull_with(BullState::Running, 0, 4000),
        position: None,
        velocity: Vec3 { x: 12345, y: -9, z: 42 },
        angvel: Vec3 { x: 5, y: 5, z: 5 },
    }];
    let out = update_bulls(&mut bodies, &Vec::new(), &Vec::new(), 16, 929);
    assert_eq!(out.resets.len(), 1);
    assert_eq!(out.resets[0], ResetBullEvent(6));
    assert_eq!(bodies[0].velocity, Vec3 { x: 0, y: 0, z: 0 });
    assert_eq!(bodies[0].angvel, Vec3 { x: 0, y: 0, z: 0 });
    handle_reset_bull_event_handler(&out.resets, &mut bodies);
    assert_eq!(bodies[0].position, Some(Vec3 { x: 0, y: 2000, z: 0 }));
    assert_eq!(bodies[0].velocity, Vec3 { x: 0, y: 0, z: 0 });
    // The next movement pass finds a valid actor again.
    let out2 = update_bulls(&mut bodies, &Vec::new(), &Vec::new(), 16, 929);
    assert_eq!(out2.resets.len(), 0);
}

#[test]
fn movement_pass_uses_first_command_per_actor() {
    let mut bodies = vec![body_with(
        3,
        bull_with(BullState::Walking, 0, 0),
        Vec3 { x: 0, y: 0, z: 0 },
    )];
    let moves = vec![
        BullMoveEvent { entity: 3, direction: Vec2 { x: 1000, y: 0 } },
        BullMoveEvent { entity: 3, direction: Vec2 { x: 0, y: 1000 } },
    ];
    let _ = update_bulls(&mut bodies, &moves, &Vec::new(), 16, 1000);
    // Only the first command acted: acceleration along +x alone.
    assert_eq!(bodies[0].velocity, Vec3 { x: 320, y: 0, z: 0 });
}

#[test]
fn minds_emit_commands_for_set_headings() {
    let mut walking = bull_with(BullState::Walking, 1000, 0);
    walking.heading_to = Some(Vec2 { x: 600, y: 800 });
    let mut bodies = vec![
        body_with(4, walking, Vec3 { x: 0, y: 0, z: 0 }),
        body_with(5, bull_with(BullState::Idle, 1000, 0), Vec3 { x: 0, y: 0, z: 0 }),
    ];
    let events = update_bull_minds(&mut bodies, 16);
    assert_eq!(events.len(), 1);
    assert_eq!(events[0], BullMoveEvent { entity: 4, direction: Vec2 { x: 600, y: 800 } });
    // Neither bull could think: states unchanged.
    assert_eq!(bodies[0].bull.state, BullState::Walking);
    assert_eq!(bodies[1].bull.state, BullState::Idle);
}

#[test]
fn animation_pass_reports_one_command_per_actor() {
    let mut bodies = vec![
        body_with(1, bull_with(BullState::Charging, 0, 2500), Vec3 { x: 0, y: 0, z: 0 }),
        body_with(2, bull_with(BullState::Collision, 0, 1000), Vec3 { x: 0, y: 0, z: 0 }),
    ];
    let cmds = animate_bull(&mut bodies);
    assert_eq!(cmds.len(), 2);
    assert_eq!(cmds[0].play, Some(AnimationClip::Charge));
    assert_eq!(cmds[1].play, Some(AnimationClip::Collide));
    assert_eq!(cmds[1].speed, 2000);
}

#[test]
fn tick_runs_idle_bull_into_walking() {
    let mut bodies = vec![body_with(1, Bull::default(), Vec3 { x: 0, y: 0, z: 0 })];
    let mut trauma: i64 = 0;
    let out = tick(
        &mut bodies,
        &mut trauma,
        &Vec::new(),
        &Vec::new(),
        &Vec::new(),
        &Vec::new(),
        &vec![Vec3 { x: 50_000, y: 0, z: 0 }],
        16,
        929,
    );
    // The decision pass took the idle bull to walking; no heading had been
    // set before this tick, so no movement command was in flight yet.
    assert_eq!(bodies[0].bull.state, BullState::Walking);
    assert!(bodies[0].bull.heading_to.is_some());
    assert_eq!(bodies[0].bull.mind_cooldown, 2000);
    assert_eq!(bodies[0].velocity, Vec3 { x: 0, y: 0, z: 0 });
    assert_eq!(out.rotations.len(), 1);
    assert_eq!(out.rotations[0], RotationIntent::Keep);
    assert_eq!(out.animations.len(), 1);
    assert_eq!(out.animations[0].play, Some(AnimationClip::Walk));
    assert_eq!(out.resets.len(), 0);
    assert_eq!(trauma, 0);
    // On the next tick the heading emits a command and the bull moves.
    let _ = tick(
        &mut bodies,
        &mut trauma,
        &Vec::new(),
        &Vec::new(),
        &Vec::new(),
        &Vec::new(),
        &vec![Vec3 { x: 50_000, y: 0, z: 0 }],
        16,
        929,
    );
    let v = bodies[0].velocity;
    assert!(v.x != 0 || v.z != 0);
}

#[test]
fn tick_charge_and_convert_to_run() {
    let mut bodies = vec![body_with(1, Bull::default(), Vec3 { x: 0, y: 0, z: 0 })];
    let mut trauma: i64 = 0;
    let players = vec![Vec3 { x: 30_000, y: 0, z: 40_000 }];
    let charge = vec![BullChargeEvent { charging: true }];
    let out = tick(
        &mut bodies,
        &mut trauma,
        &Vec::new(),
        &charge,
        &Vec::new(),
        &Vec::new(),
        &players,
        16,
        929,
    );
    // Armed by the request, then the movement pass ran the charge timer and
    // asked to face the player.
    assert_eq!(bodies[0].bull.state, BullState::Charging);
    assert_eq!(bodies[0].bull.charging_cooldown, CHARGE_LIMIT - 16);
    assert_eq!(out.rotations[0], RotationIntent::Face { dx: 30_000, dz: 40_000 });
    assert_eq!(out.animations[0].play, Some(AnimationClip::Charge));
    // Enough further ticks convert the charge into a run.
    for _ in 0..156 {
        let _ = tick(
            &mut bodies,
            &mut trauma,
            &Vec::new(),
            &Vec::new(),
            &Vec::new(),
            &Vec::new(),
            &players,
            16,
            929,
        );
        if bodies[0].bull.state != BullState::Charging {
            break;
        }
    }
    assert_eq!(bodies[0].bull.state, BullState::Running);
    assert_eq!(bodies[0].bull.charging_cooldown, 2 * CHARGE_LIMIT);
}
