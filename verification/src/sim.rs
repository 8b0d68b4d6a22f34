//! The per-tick systems over the current actor set: explicit typed event
//! queues drained once per tick in a fixed order.

use vstd::prelude::*;

verus! {

use crate::fixed::{SCALE, in_range};
use crate::vector::{Vec2, Vec3};
use crate::bull::{
    Bull, BullState, BullChargeEvent, BullMoveEvent, ResetBullEvent, RotationIntent,
    AnimationCommand, spec_apply_charge, apply_charge_event, spec_mind_step, update_bull_mind,
    spec_update_bull, update_bull, spec_animate, animate_bull_actor, spec_add_trauma, add_trauma,
    get_random_direction, eff_speed, COLLISION_COOLDOWN, VEL_MAX, POS_MAX, DT_MAX, PLAYERS_MAX,
};

/// One simulated actor together with the physics-owned data the core reads
/// and writes.
#[derive(Clone, Copy, Debug)]
pub struct BullBody {
    pub id: u64,
    pub bull: Bull,
    /// The translation; absent when the engine drove it to a non-finite
    /// value.
    pub position: Option<Vec3>,
    pub velocity: Vec3,
    pub angvel: Vec3,
}

impl BullBody {
    /// Structural bounds each tick preserves.
    pub open spec fn wf(self) -> bool {
        &&& self.bull.wf()
        &&& self.velocity.bounded(VEL_MAX as int)
        &&& (self.position matches Some(p) ==> p.bounded(POS_MAX as int))
    }
}

/// A contact reported by the physics engine between two bodies.
#[derive(Clone, Copy, Debug, PartialEq, Eq, Structural)]
pub struct ContactForceEvent {
    pub collider1: u64,
    pub collider2: u64,
    pub total_force_magnitude: i64,
}

/// The fixed coordinate an invalid actor is relocated to: two units above
/// the origin.
pub open spec fn safe_position() -> Vec3 {
    Vec3 { x: 0, y: 2000, z: 0 }
}

/// The first movement command addressed to an actor, if any: later commands
/// for the same actor within one tick are dropped.
pub open spec fn first_move_for(events: Seq<BullMoveEvent>, id: u64) -> Option<Vec2>
    decreases events.len(),
{
    if events.len() == 0 {
        None
    } else if events[0].entity == id {
        Some(events[0].direction)
    } else {
        first_move_for(events.skip(1), id)
    }
}

/// Finds the first movement command addressed to an actor.
pub fn find_first_move(events: &Vec<BullMoveEvent>, id: u64) -> (r: Option<Vec2>)
    ensures
        r == first_move_for(events@, id),
{
    let mut i: usize = 0;
    proof {
        assert(events@.skip(0) =~= events@);
    }
    while i < events.len()
        invariant
            0 <= i <= events@.len(),
            first_move_for(events@, id) == first_move_for(events@.skip(i as int), id),
        decreases events@.len() - i,
    {
        proof {
            assert(events@.skip(i as int)[0] == events@[i as int]);
        }
        if events[i].entity == id {
            return Some(events[i].direction);
        }
        proof {
            assert(events@.skip(i as int).skip(1) =~= events@.skip(i as int + 1));
        }
        i = i + 1;
    }
    proof {
        assert(events@.skip(events@.len() as int).len() == 0);
    }
    None
}

/// An actor reset: velocities zeroed and the actor relocated to the safe
/// coordinate; the behavioral record is untouched.
pub open spec fn reset_body(b: BullBody) -> BullBody {
    BullBody {
        position: Some(safe_position()),
        velocity: Vec3 { x: 0, y: 0, z: 0 },
        angvel: Vec3 { x: 0, y: 0, z: 0 },
        ..b
    }
}

/// Recovers every actor from an invalid physics state: while at least one
/// reset was requested, all actors are relocated to the safe coordinate with
/// zeroed velocities.
pub fn handle_reset_bull_event_handler(events: &Vec<ResetBullEvent>, bodies: &mut Vec<BullBody>)
    ensures
        final(bodies)@.len() == old(bodies)@.len(),
        events@.len() == 0 ==> final(bodies)@ == old(bodies)@,
        events@.len() > 0 ==> forall|j: int|
            0 <= j < final(bodies)@.len() ==> final(bodies)@[j] == reset_body(old(bodies)@[j]),
        forall|j: int|
            0 <= j < final(bodies)@.len() ==> #[trigger] old(bodies)@[j].wf()
                ==> final(bodies)@[j].wf(),
{
    if events.len() == 0 {
        return ;
    }
    let mut j: usize = 0;
    while j < bodies.len()
        invariant
            0 <= j <= bodies@.len(),
            bodies@.len() == old(bodies)@.len(),
            forall|k: int| j <= k < bodies@.len() ==> bodies@[k] == old(bodies)@[k],
            forall|k: int| 0 <= k < j ==> bodies@[k] == reset_body(old(bodies)@[k]),
        decreases bodies@.len() - j,
    {
        let b = bodies[j];
        bodies.set(
            j,
            BullBody {
                position: Some(Vec3 { x: 0, y: 2000, z: 0 }),
                velocity: Vec3::zero(),
                angvel: Vec3::zero(),
                ..b
            },
        );
        j = j + 1;
    }
}

/// The charge requests of one tick applied, in order, to one bull.
pub open spec fn charge_fold(b: Bull, events: Seq<BullChargeEvent>, i: int) -> Bull
    decreases i,
{
    if i <= 0 {
        b
    } else {
        spec_apply_charge(charge_fold(b, events, i - 1), events[i - 1])
    }
}

/// Drains the charge-request queue: each request re-arms every bull whose
/// charge timer has expired into the charging state.
pub fn handle_bull_charge_event(events: &Vec<BullChargeEvent>, bodies: &mut Vec<BullBody>)
    ensures
        final(bodies)@.len() == old(bodies)@.len(),
        forall|j: int|
            0 <= j < final(bodies)@.len() ==> final(bodies)@[j] == (BullBody {
                bull: charge_fold(old(bodies)@[j].bull, events@, events@.len() as int),
                ..old(bodies)@[j]
            }),
        forall|j: int|
            0 <= j < final(bodies)@.len() ==> #[trigger] old(bodies)@[j].wf()
                ==> final(bodies)@[j].wf(),
{
    let ghost orig = bodies@;
    let mut j: usize = 0;
    while j < bodies.len()
        invariant
            0 <= j <= bodies@.len(),
            bodies@.len() == orig.len(),
            orig == old(bodies)@,
            forall|k: int| j <= k < bodies@.len() ==> bodies@[k] == orig[k],
            forall|k: int|
                0 <= k < j ==> bodies@[k] == (BullBody {
                    bull: charge_fold(orig[k].bull, events@, events@.len() as int),
                    ..orig[k]
                }),
            forall|k: int| 0 <= k < j ==> #[trigger] orig[k].wf() ==> bodies@[k].wf(),
        decreases bodies@.len() - j,
    {
        let body = bodies[j];
        let mut b = body.bull;
        let mut i: usize = 0;
        while i < events.len()
            invariant
                0 <= i <= events@.len(),
                b == charge_fold(body.bull, events@, i as int),
                body.bull.wf() ==> b.wf(),
            decreases events@.len() - i,
        {
            b = apply_charge_event(b, &events[i]);
            i = i + 1;
        }
        bodies.set(j, BullBody { bull: b, ..body });
        j = j + 1;
    }
}

/// A charge request is a no-op on a bull whose charge timer still runs, and
/// so is a whole queue of them: re-entrant charge requests cannot re-arm or
/// otherwise change an armed bull.
pub proof fn lemma_charge_reentrant(b: Bull, events: Seq<BullChargeEvent>, i: int)
    requires
        b.charging_cooldown > 0,
    ensures
        charge_fold(b, events, i) == b,
    decreases i,
{
    if i > 0 {
        lemma_charge_reentrant(b, events, i - 1);
    }
}

/// The decision results of one tick over all actors, given each actor's
/// fresh random heading.
pub open spec fn minds_bodies(bodies: Seq<BullBody>, dt: int, fresh: Seq<Vec2>) -> Seq<BullBody> {
    Seq::new(
        bodies.len(),
        |j: int| BullBody { bull: spec_mind_step(bodies[j].bull, dt, fresh[j]).0, ..bodies[j] },
    )
}

/// The movement commands the set headings of the first `i` actors emit, in
/// actor order.
pub open spec fn mind_events_upto(bodies: Seq<BullBody>, i: int) -> Seq<BullMoveEvent>
    decreases i,
{
    if i <= 0 {
        Seq::empty()
    } else {
        let pre = mind_events_upto(bodies, i - 1);
        match bodies[i - 1].bull.heading_to {
            Some(h) => pre.push(BullMoveEvent { entity: bodies[i - 1].id, direction: h }),
            None => pre,
        }
    }
}

/// The decision pass with the fresh headings supplied by the caller.
pub fn update_bull_minds_with(bodies: &mut Vec<BullBody>, dt: i64, fresh: &Vec<Vec2>) -> (events:
    Vec<BullMoveEvent>)
    requires
        forall|j: int| 0 <= j < old(bodies)@.len() ==> #[trigger] old(bodies)@[j].wf(),
        0 <= dt <= DT_MAX,
        fresh@.len() == old(bodies)@.len(),
        forall|j: int| 0 <= j < fresh@.len() ==> #[trigger] fresh@[j].bounded(SCALE as int),
    ensures
        final(bodies)@ == minds_bodies(old(bodies)@, dt as int, fresh@),
        events@ == mind_events_upto(old(bodies)@, old(bodies)@.len() as int),
        forall|j: int| 0 <= j < final(bodies)@.len() ==> #[trigger] final(bodies)@[j].wf(),
{
    let ghost orig = bodies@;
    let mut events: Vec<BullMoveEvent> = Vec::new();
    let mut j: usize = 0;
    while j < bodies.len()
        invariant
            0 <= j <= bodies@.len(),
            bodies@.len() == orig.len(),
            orig == old(bodies)@,
            fresh@.len() == orig.len(),
            0 <= dt <= DT_MAX,
            forall|k: int| 0 <= k < orig.len() ==> #[trigger] orig[k].wf(),
            forall|k: int| 0 <= k < fresh@.len() ==> #[trigger] fresh@[k].bounded(SCALE as int),
            forall|k: int| j <= k < bodies@.len() ==> bodies@[k] == orig[k],
            forall|k: int|
                0 <= k < j ==> bodies@[k] == (BullBody {
                    bull: spec_mind_step(orig[k].bull, dt as int, fresh@[k]).0,
                    ..orig[k]
                }),
            forall|k: int| 0 <= k < j ==> #[trigger] bodies@[k].wf(),
            events@ == mind_events_upto(orig, j as int),
        decreases bodies@.len() - j,
    {
        let body = bodies[j];
        proof {
            assert(orig[j as int].wf());
            assert(body.bull.wf());
        }
        let (nb, emit) = update_bull_mind(body.bull, dt, fresh[j]);
        match emit {
            Some(h) => {
                events.push(BullMoveEvent { entity: body.id, direction: h });
            },
            None => {},
        }
        bodies.set(j, BullBody { bull: nb, ..body });
        proof {
            assert(bodies@[j as int].wf());
        }
        j = j + 1;
    }
    proof {
        assert(bodies@ =~= minds_bodies(orig, dt as int, fresh@));
    }
    events
}

/// The decision pass: every actor's cooldown ticks down, set headings keep
/// emitting movement commands, and each actor free to think alternates
/// between walking along a freshly drawn random heading and idling.
pub fn update_bull_minds(bodies: &mut Vec<BullBody>, dt: i64) -> (events: Vec<BullMoveEvent>)
    requires
        forall|j: int| 0 <= j < old(bodies)@.len() ==> #[trigger] old(bodies)@[j].wf(),
        0 <= dt <= DT_MAX,
    ensures
        exists|fresh: Seq<Vec2>|
            fresh.len() == old(bodies)@.len() && (forall|j: int|
                0 <= j < fresh.len() ==> #[trigger] fresh[j].bounded(SCALE as int))
                && final(bodies)@ == minds_bodies(old(bodies)@, dt as int, fresh),
        events@ == mind_events_upto(old(bodies)@, old(bodies)@.len() as int),
        forall|j: int| 0 <= j < final(bodies)@.len() ==> #[trigger] final(bodies)@[j].wf(),
{
    let mut fresh: Vec<Vec2> = Vec::new();
    let mut j: usize = 0;
    while j < bodies.len()
        invariant
            fresh@.len() == j,
            j <= bodies@.len(),
            bodies@ == old(bodies)@,
            forall|k: int| 0 <= k < fresh@.len() ==> #[trigger] fresh@[k].bounded(SCALE as int),
        decreases bodies@.len() - j,
    {
        let d = get_random_direction();
        fresh.push(d);
        j = j + 1;
    }
    let events = update_bull_minds_with(bodies, dt, &fresh);
    proof {
        let w = fresh@;
        assert(w.len() == old(bodies)@.len() && (forall|k: int|
            0 <= k < w.len() ==> #[trigger] w[k].bounded(SCALE as int)) && bodies@ == minds_bodies(
            old(bodies)@,
            dt as int,
            w,
        ));
    }
    events
}

/// Whether a contact involves a body tagged as wall geometry.
pub open spec fn is_wall_contact(e: ContactForceEvent, walls: Seq<u64>) -> bool {
    walls.contains(e.collider1) || walls.contains(e.collider2)
}

/// Whether an identifier is in a tag list.
pub fn contains_id(v: &Vec<u64>, x: u64) -> (r: bool)
    ensures
        r == v@.contains(x),
{
    let mut i: usize = 0;
    while i < v.len()
        invariant
            0 <= i <= v@.len(),
            forall|k: int| 0 <= k < i ==> v@[k] != x,
        decreases v@.len() - i,
    {
        if v[i] == x {
            return true;
        }
        i = i + 1;
    }
    false
}

/// The collision response of one actor to one wall hit: a running bull
/// recoils (velocity negated), enters the collision state, and starts the
/// one-second collision timer; any other actor ignores the hit.
pub open spec fn wall_hit_body(b: BullBody) -> BullBody {
    if b.bull.state == BullState::Running {
        BullBody {
            bull: Bull {
                state: BullState::Collision,
                charging_cooldown: COLLISION_COOLDOWN,
                ..b.bull
            },
            velocity: Vec3 {
                x: (-b.velocity.x) as i64,
                y: (-b.velocity.y) as i64,
                z: (-b.velocity.z) as i64,
            },
            ..b
        }
    } else {
        b
    }
}

/// A wall contact answers a running bull with exactly the negation of its
/// velocity, the collision state, and the one-second collision timer; a bull
/// in any other state ignores the hit entirely.
pub proof fn lemma_wall_contact_response(body: BullBody)
    requires
        body.wf(),
    ensures
        body.bull.state == BullState::Running ==> ({
            let h = wall_hit_body(body);
            &&& h.bull.state == BullState::Collision
            &&& h.bull.charging_cooldown == COLLISION_COOLDOWN
            &&& h.velocity.x == -body.velocity.x
            &&& h.velocity.y == -body.velocity.y
            &&& h.velocity.z == -body.velocity.z
            &&& h.position == body.position
            &&& h.bull.speed == body.bull.speed
            &&& h.bull.heading_to == body.bull.heading_to
        }),
        body.bull.state != BullState::Running ==> wall_hit_body(body) == body,
{
}

/// The screen-shake raises of one wall hit over the first `j` actors: one
/// capped increment per running bull.
pub open spec fn trauma_after_hit(bodies: Seq<BullBody>, t: int, j: int) -> int
    decreases j,
{
    if j <= 0 {
        t
    } else {
        let pre = trauma_after_hit(bodies, t, j - 1);
        if bodies[j - 1].bull.state == BullState::Running {
            spec_add_trauma(pre)
        } else {
            pre
        }
    }
}

/// Actor states after the first `k` contact events.
pub open spec fn collision_bodies(
    bodies: Seq<BullBody>,
    events: Seq<ContactForceEvent>,
    walls: Seq<u64>,
    k: int,
) -> Seq<BullBody>
    decreases k,
{
    if k <= 0 {
        bodies
    } else {
        let pre = collision_bodies(bodies, events, walls, k - 1);
        if is_wall_contact(events[k - 1], walls) {
            pre.map_values(|b: BullBody| wall_hit_body(b))
        } else {
            pre
        }
    }
}

/// The screen-shake accumulator after the first `k` contact events.
pub open spec fn collision_trauma(
    bodies: Seq<BullBody>,
    t: int,
    events: Seq<ContactForceEvent>,
    walls: Seq<u64>,
    k: int,
) -> int
    decreases k,
{
    if k <= 0 {
        t
    } else {
        let pb = collision_bodies(bodies, events, walls, k - 1);
        let pt = collision_trauma(bodies, t, events, walls, k - 1);
        if is_wall_contact(events[k - 1], walls) {
            trauma_after_hit(pb, pt, pb.len() as int)
        } else {
            pt
        }
    }
}

/// Drains the contact-event queue: every contact with wall geometry turns
/// each running bull into a recoiling one and raises the screen-shake
/// accumulator once per bull it turns.
pub fn handle_collisions(
    events: &Vec<ContactForceEvent>,
    walls: &Vec<u64>,
    bodies: &mut Vec<BullBody>,
    trauma: &mut i64,
)
    requires
        forall|j: int| 0 <= j < old(bodies)@.len() ==> #[trigger] old(bodies)@[j].wf(),
        in_range(*old(trauma) as int),
    ensures
        final(bodies)@.len() == old(bodies)@.len(),
        final(bodies)@ == collision_bodies(
            old(bodies)@,
            events@,
            walls@,
            events@.len() as int,
        ),
        *final(trauma) == collision_trauma(
            old(bodies)@,
            *old(trauma) as int,
            events@,
            walls@,
            events@.len() as int,
        ),
        forall|j: int| 0 <= j < final(bodies)@.len() ==> #[trigger] final(bodies)@[j].wf(),
        in_range(*final(trauma) as int),
{
    let ghost orig = bodies@;
    let ghost t0 = *trauma as int;
    let mut k: usize = 0;
    while k < events.len()
        invariant
            0 <= k <= events@.len(),
            bodies@.len() == orig.len(),
            orig == old(bodies)@,
            t0 == *old(trauma) as int,
            bodies@ == collision_bodies(orig, events@, walls@, k as int),
            *trauma == collision_trauma(orig, t0, events@, walls@, k as int),
            forall|j: int| 0 <= j < bodies@.len() ==> #[trigger] bodies@[j].wf(),
            in_range(*trauma as int),
        decreases events@.len() - k,
    {
        let e = events[k];
        let w1 = contains_id(walls, e.collider1);
        let w2 = contains_id(walls, e.collider2);
        if w1 || w2 {
            let ghost pb = bodies@;
            let ghost pt = *trauma as int;
            let mut j: usize = 0;
            while j < bodies.len()
                invariant
                    0 <= j <= bodies@.len(),
                    bodies@.len() == pb.len(),
                    forall|m: int| j <= m < bodies@.len() ==> bodies@[m] == pb[m],
                    forall|m: int| 0 <= m < j ==> bodies@[m] == wall_hit_body(pb[m]),
                    *trauma == trauma_after_hit(pb, pt, j as int),
                    forall|m: int| 0 <= m < pb.len() ==> #[trigger] pb[m].wf(),
                    forall|m: int| 0 <= m < bodies@.len() ==> #[trigger] bodies@[m].wf(),
                    in_range(*trauma as int),
                decreases bodies@.len() - j,
            {
                let body = bodies[j];
                proof {
                    assert(bodies@[j as int].wf());
                    assert(body.wf());
                }
                if matches!(body.bull.state, BullState::Running) {
                    *trauma = add_trauma(*trauma);
                    bodies.set(
                        j,
                        BullBody {
                            bull: Bull {
                                state: BullState::Collision,
                                charging_cooldown: COLLISION_COOLDOWN,
                                ..body.bull
                            },
                            velocity: body.velocity.negated(),
                            ..body
                        },
                    );
                }
                proof {
                    assert(bodies@[j as int].wf());
                }
                j = j + 1;
            }
            proof {
                assert(bodies@ =~= pb.map_values(|b: BullBody| wall_hit_body(b)));
            }
        }
        k = k + 1;
    }
}

/// The movement result of one actor: the new record and the rotation asked
/// of the transform owner.
pub open spec fn moved_body(
    b: BullBody,
    move_dir: Option<Vec2>,
    players: Seq<Vec3>,
    dt: int,
    decay: int,
) -> (BullBody, RotationIntent) {
    let u = spec_update_bull(b.bull, b.position, b.velocity, b.angvel, move_dir, players, dt, decay);
    (BullBody { bull: u.bull, velocity: u.velocity, angvel: u.angvel, ..b }, u.rotation)
}

/// The relocation requests the movement pass raises over the first `i`
/// actors: one per actor whose position is invalid, in actor order.
pub open spec fn reset_events_upto(bodies: Seq<BullBody>, i: int) -> Seq<ResetBullEvent>
    decreases i,
{
    if i <= 0 {
        Seq::empty()
    } else {
        let pre = reset_events_upto(bodies, i - 1);
        if bodies[i - 1].position is None {
            pre.push(ResetBullEvent(bodies[i - 1].id))
        } else {
            pre
        }
    }
}

/// What one movement pass hands back to the surrounding engine glue.
pub struct MovementOutcome {
    /// Relocation requests, to be handled before the next movement pass.
    pub resets: Vec<ResetBullEvent>,
    /// One rotation intent per actor, in actor order.
    pub rotations: Vec<RotationIntent>,
}

/// The movement pass: every actor is integrated for one tick against the
/// first movement command addressed to it, the tracked players, the elapsed
/// time and the friction decay factor.
pub fn update_bulls(
    bodies: &mut Vec<BullBody>,
    move_events: &Vec<BullMoveEvent>,
    players: &Vec<Vec3>,
    dt: i64,
    decay: i64,
) -> (out: MovementOutcome)
    requires
        forall|j: int| 0 <= j < old(bodies)@.len() ==> #[trigger] old(bodies)@[j].wf(),
        forall|i: int| 0 <= i < players@.len() ==> #[trigger] players@[i].bounded(POS_MAX as int),
        players@.len() <= PLAYERS_MAX,
        0 <= dt <= DT_MAX,
        0 <= decay <= SCALE,
    ensures
        final(bodies)@.len() == old(bodies)@.len(),
        forall|j: int|
            0 <= j < final(bodies)@.len() ==> final(bodies)@[j] == moved_body(
                old(bodies)@[j],
                first_move_for(move_events@, old(bodies)@[j].id),
                players@,
                dt as int,
                decay as int,
            ).0,
        out.rotations@.len() == old(bodies)@.len(),
        forall|j: int|
            0 <= j < out.rotations@.len() ==> out.rotations@[j] == moved_body(
                old(bodies)@[j],
                first_move_for(move_events@, old(bodies)@[j].id),
                players@,
                dt as int,
                decay as int,
            ).1,
        out.resets@ == reset_events_upto(old(bodies)@, old(bodies)@.len() as int),
        forall|j: int| 0 <= j < final(bodies)@.len() ==> #[trigger] final(bodies)@[j].wf(),
        forall|j: int|
            0 <= j < final(bodies)@.len() && old(bodies)@[j].position is Some && (old(
                bodies,
            )@[j].bull.state == BullState::Walking || old(bodies)@[j].bull.state
                == BullState::Running || old(bodies)@[j].bull.state == BullState::Collision)
                ==> (#[trigger] final(bodies)@[j].velocity).len_sq() <= eff_speed(
                old(bodies)@[j].bull.state,
                old(bodies)@[j].bull.speed as int,
            ) * eff_speed(
                old(bodies)@[j].bull.state,
                old(bodies)@[j].bull.speed as int,
            ),
{
    let ghost orig = bodies@;
    let mut resets: Vec<ResetBullEvent> = Vec::new();
    let mut rotations: Vec<RotationIntent> = Vec::new();
    let mut j: usize = 0;
    while j < bodies.len()
        invariant
            0 <= j <= bodies@.len(),
            bodies@.len() == orig.len(),
            orig == old(bodies)@,
            forall|k: int| 0 <= k < orig.len() ==> #[trigger] orig[k].wf(),
            forall|i: int|
                0 <= i < players@.len() ==> #[trigger] players@[i].bounded(POS_MAX as int),
            players@.len() <= PLAYERS_MAX,
            0 <= dt <= DT_MAX,
            0 <= decay <= SCALE,
            forall|k: int| j <= k < bodies@.len() ==> bodies@[k] == orig[k],
            forall|k: int|
                0 <= k < j ==> bodies@[k] == moved_body(
                    orig[k],
                    first_move_for(move_events@, orig[k].id),
                    players@,
                    dt as int,
                    decay as int,
                ).0,
            rotations@.len() == j,
            forall|k: int|
                0 <= k < j ==> rotations@[k] == moved_body(
                    orig[k],
                    first_move_for(move_events@, orig[k].id),
                    players@,
                    dt as int,
                    decay as int,
                ).1,
            resets@ == reset_events_upto(orig, j as int),
            forall|k: int| 0 <= k < j ==> #[trigger] bodies@[k].wf(),
            forall|k: int|
                0 <= k < j && orig[k].position is Some && (orig[k].bull.state
                    == BullState::Walking || orig[k].bull.state == BullState::Running
                    || orig[k].bull.state == BullState::Collision) ==> (
                #[trigger] bodies@[k].velocity).len_sq() <= eff_speed(
                    orig[k].bull.state,
                    orig[k].bull.speed as int,
                ) * eff_speed(orig[k].bull.state, orig[k].bull.speed as int),
        decreases bodies@.len() - j,
    {
        let body = bodies[j];
        proof {
            assert(orig[j as int].wf());
            assert(body.wf());
        }
        let md = find_first_move(move_events, body.id);
        let u = update_bull(
            body.bull,
            body.position,
            body.velocity,
            body.angvel,
            md,
            players,
            dt,
            decay,
        );
        if u.reset {
            resets.push(ResetBullEvent(body.id));
        }
        rotations.push(u.rotation);
        bodies.set(
            j,
            BullBody { bull: u.bull, velocity: u.velocity, angvel: u.angvel, ..body },
        );
        proof {
            assert(u.reset == (body.position is None));
            assert(bodies@[j as int].wf());
        }
        j = j + 1;
    }
    MovementOutcome { resets, rotations }
}

/// The animation pass: binds each actor's state clip, avoiding redundant
/// switches, and reports what the playback collaborator should do.
pub fn animate_bull(bodies: &mut Vec<BullBody>) -> (cmds: Vec<AnimationCommand>)
    ensures
        final(bodies)@.len() == old(bodies)@.len(),
        cmds@.len() == old(bodies)@.len(),
        forall|j: int|
            0 <= j < final(bodies)@.len() ==> final(bodies)@[j] == (BullBody {
                bull: spec_animate(old(bodies)@[j].bull).0,
                ..old(bodies)@[j]
            }),
        forall|j: int| 0 <= j < cmds@.len() ==> cmds@[j] == spec_animate(old(bodies)@[j].bull).1,
        forall|j: int|
            0 <= j < final(bodies)@.len() ==> #[trigger] old(bodies)@[j].wf()
                ==> final(bodies)@[j].wf(),
{
    let ghost orig = bodies@;
    let mut cmds: Vec<AnimationCommand> = Vec::new();
    let mut j: usize = 0;
    while j < bodies.len()
        invariant
            0 <= j <= bodies@.len(),
            bodies@.len() == orig.len(),
            orig == old(bodies)@,
            cmds@.len() == j,
            forall|k: int| j <= k < bodies@.len() ==> bodies@[k] == orig[k],
            forall|k: int|
                0 <= k < j ==> bodies@[k] == (BullBody {
                    bull: spec_animate(orig[k].bull).0,
                    ..orig[k]
                }),
            forall|k: int| 0 <= k < j ==> cmds@[k] == spec_animate(orig[k].bull).1,
            forall|k: int| 0 <= k < j ==> #[trigger] orig[k].wf() ==> bodies@[k].wf(),
        decreases bodies@.len() - j,
    {
        let body = bodies[j];
        let (nb, cmd) = animate_bull_actor(body.bull);
        cmds.push(cmd);
        bodies.set(j, BullBody { bull: nb, ..body });
        j = j + 1;
    }
    cmds
}

/// An invalid position is neutralized in the same movement pass — velocities
/// zeroed, the behavioral record untouched, a relocation requested — and the
/// relocation handler then puts the actor at the safe coordinate with zero
/// velocity; no further movement happens in between.
pub proof fn lemma_invalid_position_recovery(
    body: BullBody,
    md: Option<Vec2>,
    players: Seq<Vec3>,
    dt: int,
    decay: int,
)
    requires
        body.position is None,
    ensures
        ({
            let m = moved_body(body, md, players, dt, decay).0;
            &&& m.velocity == (Vec3 { x: 0, y: 0, z: 0 })
            &&& m.angvel == (Vec3 { x: 0, y: 0, z: 0 })
            &&& m.bull == body.bull
            &&& reset_body(m).position == Some(safe_position())
            &&& reset_body(m).velocity == (Vec3 { x: 0, y: 0, z: 0 })
            &&& reset_body(m).angvel == (Vec3 { x: 0, y: 0, z: 0 })
        }),
{
}

/// The movement pass raises a relocation request for every actor whose
/// position is invalid.
pub proof fn lemma_reset_event_raised(bodies: Seq<BullBody>, j: int, i: int)
    requires
        0 <= j < i <= bodies.len(),
        bodies[j].position is None,
    ensures
        reset_events_upto(bodies, i).contains(ResetBullEvent(bodies[j].id)),
    decreases i,
{
    let pre = reset_events_upto(bodies, i - 1);
    if j == i - 1 {
        assert(reset_events_upto(bodies, i) == pre.push(ResetBullEvent(bodies[j].id)));
        assert(pre.push(ResetBullEvent(bodies[j].id)).last() == ResetBullEvent(bodies[j].id));
    } else {
        lemma_reset_event_raised(bodies, j, i - 1);
        let e = ResetBullEvent(bodies[j].id);
        let k = choose|k: int| 0 <= k < pre.len() && pre[k] == e;
        if bodies[i - 1].position is None {
            assert(pre.push(ResetBullEvent(bodies[i - 1].id))[k] == e);
        }
    }
}

/// The exact model of one whole tick, given the fresh random headings the
/// decision pass would draw.
pub struct TickModel {
    pub bodies: Seq<BullBody>,
    pub trauma: int,
    pub moves: Seq<BullMoveEvent>,
    pub resets: Seq<ResetBullEvent>,
    pub rotations: Seq<RotationIntent>,
    pub animations: Seq<AnimationCommand>,
}

/// One tick, stage by stage, in the order the scheduling demands: pending
/// resets are honored before anything else; decisions run and emit movement
/// commands; charge requests re-arm bulls; wall contacts are answered; and
/// only then is movement integrated, so that nothing overwrites the states
/// the earlier stages chose. Animation selection follows the movement.
pub open spec fn tick_model(
    bodies: Seq<BullBody>,
    trauma: int,
    pending: Seq<ResetBullEvent>,
    charges: Seq<BullChargeEvent>,
    contacts: Seq<ContactForceEvent>,
    walls: Seq<u64>,
    players: Seq<Vec3>,
    dt: int,
    decay: int,
    fresh: Seq<Vec2>,
) -> TickModel {
    let s1 = if pending.len() > 0 {
        bodies.map_values(|b: BullBody| reset_body(b))
    } else {
        bodies
    };
    let s2 = minds_bodies(s1, dt, fresh);
    let moves = mind_events_upto(s1, s1.len() as int);
    let s3 = Seq::new(
        s2.len(),
        |j: int|
            BullBody { bull: charge_fold(s2[j].bull, charges, charges.len() as int), ..s2[j] },
    );
    let s4 = collision_bodies(s3, contacts, walls, contacts.len() as int);
    let t4 = collision_trauma(s3, trauma, contacts, walls, contacts.len() as int);
    let s5 = Seq::new(
        s4.len(),
        |j: int|
            moved_body(s4[j], first_move_for(moves, s4[j].id), players, dt, decay).0,
    );
    let rotations = Seq::new(
        s4.len(),
        |j: int|
            moved_body(s4[j], first_move_for(moves, s4[j].id), players, dt, decay).1,
    );
    let resets = reset_events_upto(s4, s4.len() as int);
    let s6 = Seq::new(
        s5.len(),
        |j: int| BullBody { bull: spec_animate(s5[j].bull).0, ..s5[j] },
    );
    let animations = Seq::new(s5.len(), |j: int| spec_animate(s5[j].bull).1);
    TickModel { bodies: s6, trauma: t4, moves, resets, rotations, animations }
}

/// What one tick hands back to the surrounding engine glue.
pub struct TickOutcome {
    /// Relocation requests, to be handed to the next tick as pending.
    pub resets: Vec<ResetBullEvent>,
    /// One rotation intent per actor, in actor order.
    pub rotations: Vec<RotationIntent>,
    /// One animation command per actor, in actor order.
    pub animations: Vec<AnimationCommand>,
}

/// Runs one whole simulation tick over the actor set, draining the queues in
/// the fixed documented order; see [`tick_model`].
pub fn tick(
    bodies: &mut Vec<BullBody>,
    trauma: &mut i64,
    pending: &Vec<ResetBullEvent>,
    charges: &Vec<BullChargeEvent>,
    contacts: &Vec<ContactForceEvent>,
    walls: &Vec<u64>,
    players: &Vec<Vec3>,
    dt: i64,
    decay: i64,
) -> (out: TickOutcome)
    requires
        forall|j: int| 0 <= j < old(bodies)@.len() ==> #[trigger] old(bodies)@[j].wf(),
        in_range(*old(trauma) as int),
        forall|i: int| 0 <= i < players@.len() ==> #[trigger] players@[i].bounded(POS_MAX as int),
        players@.len() <= PLAYERS_MAX,
        0 <= dt <= DT_MAX,
        0 <= decay <= SCALE,
    ensures
        exists|fresh: Seq<Vec2>|
            #![trigger fresh.len()]
            {
                let m = tick_model(
                    old(bodies)@,
                    *old(trauma) as int,
                    pending@,
                    charges@,
                    contacts@,
                    walls@,
                    players@,
                    dt as int,
                    decay as int,
                    fresh,
                );
                &&& fresh.len() == old(bodies)@.len()
                &&& (forall|j: int| 0 <= j < fresh.len() ==> #[trigger] fresh[j].bounded(
                    SCALE as int,
                ))
                &&& final(bodies)@ == m.bodies
                &&& *final(trauma) == m.trauma
                &&& out.resets@ == m.resets
                &&& out.rotations@ == m.rotations
                &&& out.animations@ == m.animations
            },
        final(bodies)@.len() == old(bodies)@.len(),
        forall|j: int| 0 <= j < final(bodies)@.len() ==> #[trigger] final(bodies)@[j].wf(),
        in_range(*final(trauma) as int),
{
    let ghost b0 = bodies@;
    let ghost t0 = *trauma as int;
    handle_reset_bull_event_handler(pending, bodies);
    let ghost s1 = bodies@;
    proof {
        if pending@.len() > 0 {
            assert(s1 =~= b0.map_values(|b: BullBody| reset_body(b)));
        }
        assert forall|j: int| 0 <= j < bodies@.len() implies #[trigger] bodies@[j].wf() by {
            assert(b0[j].wf());
        }
    }
    let moves = update_bull_minds(bodies, dt);
    let ghost fresh = choose|fresh: Seq<Vec2>|
        fresh.len() == s1.len() && (forall|j: int|
            0 <= j < fresh.len() ==> #[trigger] fresh[j].bounded(SCALE as int)) && bodies@
            == minds_bodies(s1, dt as int, fresh);
    let ghost s2 = bodies@;
    proof {
        assert(s2 == minds_bodies(s1, dt as int, fresh));
        assert(s2.len() == s1.len());
    }
    handle_bull_charge_event(charges, bodies);
    let ghost s3 = bodies@;
    proof {
        assert(s3 =~= Seq::new(
            s2.len(),
            |j: int|
                BullBody { bull: charge_fold(s2[j].bull, charges@, charges@.len() as int), ..s2[j] },
        ));
        assert forall|j: int| 0 <= j < bodies@.len() implies #[trigger] bodies@[j].wf() by {
            assert(s2[j].wf());
        }
    }
    handle_collisions(contacts, walls, bodies, trauma);
    let ghost s4 = bodies@;
    let out_move = update_bulls(bodies, &moves, players, dt, decay);
    let ghost s5 = bodies@;
    proof {
        assert(s5 =~= Seq::new(
            s4.len(),
            |j: int|
                moved_body(
                    s4[j],
                    first_move_for(moves@, s4[j].id),
                    players@,
                    dt as int,
                    decay as int,
                ).0,
        ));
        assert(out_move.rotations@ =~= Seq::new(
            s4.len(),
            |j: int|
                moved_body(
                    s4[j],
                    first_move_for(moves@, s4[j].id),
                    players@,
                    dt as int,
                    decay as int,
                ).1,
        ));
    }
    let animations = animate_bull(bodies);
    proof {
        assert(bodies@ =~= Seq::new(
            s5.len(),
            |j: int| BullBody { bull: spec_animate(s5[j].bull).0, ..s5[j] },
        ));
        assert(animations@ =~= Seq::new(s5.len(), |j: int| spec_animate(s5[j].bull).1));
        assert forall|j: int| 0 <= j < bodies@.len() implies #[trigger] bodies@[j].wf() by {
            assert(s5[j].wf());
        }
    }
    TickOutcome { resets: out_move.resets, rotations: out_move.rotations, animations }
}

} // verus!
