//! The collision detector: one stateless pass over all physics bodies
//! per simulation tick.
//!
//! Every unordered pair of bodies is examined exactly once, in index
//! order.  A pair collides when its wrapped centre distance is below
//! the sum of the radii; the outcome is decided by the unordered pair
//! of collision tags.  Velocities are mutated in place as the scan
//! proceeds — later pairs of the same tick see the results of earlier
//! bounces — while destructive outcomes are deferred as requests for
//! the caller to apply after the pass.

use vstd::prelude::*;
use crate::config::{Config, POS_LIMIT, MASS_LIMIT, DT_LIMIT};
use crate::entity::{Velocity, CollisionType, AsteroidSize};
use crate::bounce::{bounce_spec, collision_bounce, vel_ok};
use crate::geom::{torus_dist_sq, shortest_distance_sq};
use crate::num::{mag, lemma_mul_bound};

verus! {

/// One physics body as the detector reads (and writes) it.
#[derive(Clone, Copy, Debug)]
pub struct Body {
    pub x: i64,
    pub y: i64,
    pub velocity: Velocity,
    pub mass: i64,
    pub radius: i64,
    pub kind: CollisionType,
    /// Size class; present on every asteroid.
    pub size: Option<AsteroidSize>,
    /// Charge in thousandths; present on every bullet.
    pub charge_milli: Option<i64>,
    /// Time since spawn in milliseconds; present on every bullet.
    pub age_ms: Option<i64>,
}

/// A deferred side-effect request emitted by the detection pass.
#[derive(Clone, Copy, Debug, PartialEq, Eq, Structural)]
pub enum Request {
    /// Remove the body at this index of the scanned set.
    Despawn { index: usize },
    /// Replace a destroyed asteroid by fragments of the next size.
    SpawnFragments { x: i64, y: i64, velocity: Velocity, size_destroyed: AsteroidSize },
    /// Cosmetic shake/particle request at a bounce contact point.
    BounceEffect { contact_x: i64, contact_y: i64, amplitude_milli: i64 },
    /// Shader ripple request carrying shield and impactor positions.
    ShieldCollision { shield_x: i64, shield_y: i64, other_x: i64, other_y: i64 },
}

/// The body's numbers are in range and its optional components match
/// its tag.
pub open spec fn body_ok(cfg: Config, b: Body) -> bool {
    &&& mag(b.x as int) <= POS_LIMIT
    &&& mag(b.y as int) <= POS_LIMIT
    &&& vel_ok(b.velocity)
    &&& 0 < b.mass <= MASS_LIMIT
    &&& 0 < b.radius <= POS_LIMIT
    &&& (b.kind is Asteroid ==> b.size is Some)
    &&& (b.kind is Bullet ==> b.charge_milli is Some && b.age_ms is Some)
    &&& (b.charge_milli is Some ==> 0 <= b.charge_milli->Some_0)
    &&& (b.age_ms is Some ==> 0 <= b.age_ms->Some_0)
}

/// Every body of the set is well formed.
pub open spec fn bodies_ok(cfg: Config, s: Seq<Body>) -> bool {
    forall|k: int| 0 <= k < s.len() ==> body_ok(cfg, #[trigger] s[k])
}

/// The two envelopes overlap: wrapped centre distance strictly below
/// the sum of the radii.
pub open spec fn colliding(cfg: Config, a: Body, b: Body) -> bool {
    torus_dist_sq(cfg.width as int, cfg.height as int, a.x as int, a.y as int, b.x as int, b.y as int)
        < (a.radius + b.radius) * (a.radius + b.radius)
}

/// Overlap does not depend on the order the pair is examined in: the
/// dispatch table is a table of unordered pairs.
pub proof fn lemma_colliding_symmetric(cfg: Config, a: Body, b: Body)
    ensures
        colliding(cfg, a, b) == colliding(cfg, b, a),
{
    crate::geom::lemma_shortest_distance_symmetric(
        cfg.width as int,
        cfg.height as int,
        a.x as int,
        a.y as int,
        b.x as int,
        b.y as int,
    );
}

/// A bullet of this charge destroys an asteroid of this size outright;
/// anything weaker only deflects it.
pub open spec fn bullet_destroys(cfg: Config, size: AsteroidSize, charge: int) -> bool {
    ||| size is Big && charge >= cfg.charge_big
    ||| size is Medium && charge >= cfg.charge_medium
    ||| size is Small
}

/// The bodies of the scan together with the requests emitted so far.
pub struct ScanState {
    pub bodies: Seq<Body>,
    pub requests: Seq<Request>,
}

/// Replace only the velocity of a body.
pub open spec fn with_velocity(b: Body, v: Velocity) -> Body {
    Body {
        x: b.x,
        y: b.y,
        velocity: v,
        mass: b.mass,
        radius: b.radius,
        kind: b.kind,
        size: b.size,
        charge_milli: b.charge_milli,
        age_ms: b.age_ms,
    }
}

/// Bounce bodies `i` and `j` against each other: both velocities are
/// rewritten by the solver and a contact request is emitted when an
/// impulse was actually applied.
pub open spec fn bounce_pair(cfg: Config, dt: int, s: ScanState, i: int, j: int) -> ScanState {
    let b1 = s.bodies[i];
    let b2 = s.bodies[j];
    let r = bounce_spec(
        cfg,
        b1.x as int,
        b1.y as int,
        b1.velocity,
        b1.mass as int,
        b2.x as int,
        b2.y as int,
        b2.velocity,
        b2.mass as int,
        dt,
        b1.radius as int,
    );
    let nb = s.bodies.update(i, with_velocity(b1, r.0)).update(j, with_velocity(b2, r.1));
    let nr = if r.2 is Some {
        s.requests.push(
            Request::BounceEffect {
                contact_x: r.2->Some_0.contact_x,
                contact_y: r.2->Some_0.contact_y,
                amplitude_milli: r.2->Some_0.amplitude_milli,
            },
        )
    } else {
        s.requests
    };
    ScanState { bodies: nb, requests: nr }
}

/// The outcome of examining one pair: dispatch on the two collision
/// tags exactly as the rules table prescribes.
pub open spec fn pair_step(cfg: Config, dt: int, s: ScanState, i: int, j: int) -> ScanState {
    let b1 = s.bodies[i];
    let b2 = s.bodies[j];
    if !colliding(cfg, b1, b2) {
        s
    } else if b1.kind is Ship && b2.kind is Asteroid {
        ScanState { bodies: s.bodies, requests: s.requests.push(Request::Despawn { index: i as usize }) }
    } else if b1.kind is Asteroid && b2.kind is Ship {
        ScanState { bodies: s.bodies, requests: s.requests.push(Request::Despawn { index: j as usize }) }
    } else if (b1.kind is Asteroid && b2.kind is Bullet) || (b1.kind is Bullet
        && b2.kind is Asteroid) {
        let ai = if b1.kind is Asteroid {
            i
        } else {
            j
        };
        let bi = if b1.kind is Asteroid {
            j
        } else {
            i
        };
        let ab = s.bodies[ai];
        let bb = s.bodies[bi];
        if bullet_destroys(cfg, ab.size->Some_0, bb.charge_milli->Some_0 as int) {
            ScanState {
                bodies: s.bodies,
                requests: s.requests.push(Request::Despawn { index: bi as usize }).push(
                    Request::Despawn { index: ai as usize },
                ).push(
                    Request::SpawnFragments {
                        x: ab.x,
                        y: ab.y,
                        velocity: ab.velocity,
                        size_destroyed: ab.size->Some_0,
                    },
                ),
            }
        } else {
            bounce_pair(cfg, dt, s, i, j)
        }
    } else if b1.kind is Asteroid && b2.kind is Asteroid {
        bounce_pair(cfg, dt, s, i, j)
    } else if (b1.kind is Shield && b2.kind is Asteroid) || (b1.kind is Asteroid
        && b2.kind is Shield) || (b1.kind is Shield && b2.kind is Bullet) || (b1.kind is Bullet
        && b2.kind is Shield) {
        let after = bounce_pair(cfg, dt, s, i, j);
        let sh = if b1.kind is Shield {
            b1
        } else {
            b2
        };
        let ot = if b1.kind is Shield {
            b2
        } else {
            b1
        };
        ScanState {
            bodies: after.bodies,
            requests: after.requests.push(
                Request::ShieldCollision {
                    shield_x: sh.x,
                    shield_y: sh.y,
                    other_x: ot.x,
                    other_y: ot.y,
                },
            ),
        }
    } else if (b1.kind is Ship && b2.kind is Bullet) || (b1.kind is Bullet && b2.kind is Ship) {
        let bb = if b1.kind is Bullet {
            b1
        } else {
            b2
        };
        if bb.age_ms->Some_0 > cfg.grace_ms {
            if bb.charge_milli->Some_0 > cfg.charge_medium {
                ScanState {
                    bodies: s.bodies,
                    requests: s.requests.push(Request::Despawn { index: i as usize }).push(
                        Request::Despawn { index: j as usize },
                    ),
                }
            } else {
                bounce_pair(cfg, dt, s, i, j)
            }
        } else {
            s
        }
    } else {
        s
    }
}

/// Fold `pair_step` over the pairs `(i, j)`, `i < j < n`, visiting
/// them in index order, starting from the pair `(i, j)`.
pub open spec fn scan_rec(cfg: Config, dt: int, s: ScanState, i: int, j: int, n: int) -> ScanState
    decreases n - i, n - j,
{
    if i + 1 >= n {
        s
    } else if j >= n {
        scan_rec(cfg, dt, s, i + 1, i + 2, n)
    } else {
        scan_rec(cfg, dt, pair_step(cfg, dt, s, i, j), i, j + 1, n)
    }
}

/// The whole detection pass over a snapshot of bodies.
pub open spec fn scan_spec(cfg: Config, dt: int, bodies: Seq<Body>) -> ScanState {
    scan_rec(cfg, dt, ScanState { bodies, requests: Seq::empty() }, 0, 1, bodies.len() as int)
}

/// The two body sets agree on everything but their velocities.
pub open spec fn same_except_velocity(a: Seq<Body>, b: Seq<Body>) -> bool {
    &&& b.len() == a.len()
    &&& forall|k: int|
        0 <= k < a.len() ==> {
            let x = #[trigger] b[k];
            &&& x.x == a[k].x
            &&& x.y == a[k].y
            &&& x.mass == a[k].mass
            &&& x.radius == a[k].radius
            &&& x.kind == a[k].kind
            &&& x.size == a[k].size
            &&& x.charge_milli == a[k].charge_milli
            &&& x.age_ms == a[k].age_ms
        }
}

/// Every despawn request of the list points into a set of `n` bodies.
pub open spec fn despawns_in_range(rs: Seq<Request>, n: int) -> bool {
    forall|k: int|
        0 <= k < rs.len() ==> ((#[trigger] rs[k]) matches Request::Despawn { index } ==> index < n)
}

/// Examining one pair rewrites at most the two velocities, and emits
/// despawn requests only for the pair itself.
proof fn lemma_pair_step_frame(cfg: Config, dt: int, s: ScanState, i: int, j: int)
    requires
        0 <= i < s.bodies.len(),
        0 <= j < s.bodies.len(),
        despawns_in_range(s.requests, s.bodies.len() as int),
    ensures
        same_except_velocity(s.bodies, pair_step(cfg, dt, s, i, j).bodies),
        despawns_in_range(pair_step(cfg, dt, s, i, j).requests, s.bodies.len() as int),
{
}

/// The scan from any pair onward rewrites at most velocities and emits
/// despawn requests only for existing bodies.
proof fn lemma_scan_rec_frame(cfg: Config, dt: int, s: ScanState, i: int, j: int, n: int)
    requires
        n == s.bodies.len(),
        0 <= i < j,
        despawns_in_range(s.requests, n),
    ensures
        same_except_velocity(s.bodies, scan_rec(cfg, dt, s, i, j, n).bodies),
        despawns_in_range(scan_rec(cfg, dt, s, i, j, n).requests, n),
    decreases n - i, n - j,
{
    if i + 1 >= n {
    } else if j >= n {
        lemma_scan_rec_frame(cfg, dt, s, i + 1, i + 2, n);
    } else {
        lemma_pair_step_frame(cfg, dt, s, i, j);
        lemma_scan_rec_frame(cfg, dt, pair_step(cfg, dt, s, i, j), i, j + 1, n);
    }
}

/// A detection pass never moves, re-weighs, re-sizes or re-tags a
/// body: only the two velocities of a bouncing pair are ever
/// rewritten.  Every despawn request it emits names one of the bodies
/// it was given.
pub proof fn lemma_scan_touches_only_velocities(cfg: Config, dt: int, bodies: Seq<Body>)
    ensures
        same_except_velocity(bodies, scan_spec(cfg, dt, bodies).bodies),
        despawns_in_range(scan_spec(cfg, dt, bodies).requests, bodies.len() as int),
{
    lemma_scan_rec_frame(
        cfg,
        dt,
        ScanState { bodies, requests: Seq::empty() },
        0,
        1,
        bodies.len() as int,
    );
}

/// Bounce bodies `i` and `j` in place, emitting the contact request if
/// an impulse was applied.
fn apply_bounce(
    cfg: &Config,
    bodies: &mut Vec<Body>,
    requests: &mut Vec<Request>,
    i: usize,
    j: usize,
    dt_ms: i64,
)
    requires
        cfg.wf(),
        0 <= dt_ms <= DT_LIMIT,
        i != j,
        i < old(bodies)@.len(),
        j < old(bodies)@.len(),
        bodies_ok(*cfg, old(bodies)@),
    ensures
        final(bodies)@ == bounce_pair(
            *cfg,
            dt_ms as int,
            ScanState { bodies: old(bodies)@, requests: old(requests)@ },
            i as int,
            j as int,
        ).bodies,
        final(requests)@ == bounce_pair(
            *cfg,
            dt_ms as int,
            ScanState { bodies: old(bodies)@, requests: old(requests)@ },
            i as int,
            j as int,
        ).requests,
        final(bodies)@.len() == old(bodies)@.len(),
        bodies_ok(*cfg, final(bodies)@),
{
    let b1 = bodies[i];
    let b2 = bodies[j];
    let mut v1 = b1.velocity;
    let mut v2 = b2.velocity;
    let eff = collision_bounce(
        cfg,
        b1.x,
        b1.y,
        &mut v1,
        b1.mass,
        b2.x,
        b2.y,
        &mut v2,
        b2.mass,
        dt_ms,
        b1.radius,
    );
    bodies[i] = Body {
        x: b1.x,
        y: b1.y,
        velocity: v1,
        mass: b1.mass,
        radius: b1.radius,
        kind: b1.kind,
        size: b1.size,
        charge_milli: b1.charge_milli,
        age_ms: b1.age_ms,
    };
    bodies[j] = Body {
        x: b2.x,
        y: b2.y,
        velocity: v2,
        mass: b2.mass,
        radius: b2.radius,
        kind: b2.kind,
        size: b2.size,
        charge_milli: b2.charge_milli,
        age_ms: b2.age_ms,
    };
    if let Some(e) = eff {
        requests.push(
            Request::BounceEffect {
                contact_x: e.contact_x,
                contact_y: e.contact_y,
                amplitude_milli: e.amplitude_milli,
            },
        );
    }
    proof {
        assert forall|k: int| 0 <= k < final(bodies)@.len() implies body_ok(
            *cfg,
            #[trigger] final(bodies)@[k],
        ) by {
            if k != i && k != j {
                assert(final(bodies)@[k] == old(bodies)@[k]);
            }
        }
    }
}

/// Examine one pair of bodies and apply its outcome, exactly as
/// `pair_step` prescribes.
fn process_pair(
    cfg: &Config,
    bodies: &mut Vec<Body>,
    requests: &mut Vec<Request>,
    i: usize,
    j: usize,
    dt_ms: i64,
)
    requires
        cfg.wf(),
        0 <= dt_ms <= DT_LIMIT,
        i < j,
        j < old(bodies)@.len(),
        bodies_ok(*cfg, old(bodies)@),
    ensures
        final(bodies)@ == pair_step(
            *cfg,
            dt_ms as int,
            ScanState { bodies: old(bodies)@, requests: old(requests)@ },
            i as int,
            j as int,
        ).bodies,
        final(requests)@ == pair_step(
            *cfg,
            dt_ms as int,
            ScanState { bodies: old(bodies)@, requests: old(requests)@ },
            i as int,
            j as int,
        ).requests,
        final(bodies)@.len() == old(bodies)@.len(),
        bodies_ok(*cfg, final(bodies)@),
{
    let b1 = bodies[i];
    let b2 = bodies[j];
    let rsum = b1.radius + b2.radius;
    proof {
        lemma_mul_bound(rsum as int, rsum as int, 2 * POS_LIMIT as int, 2 * POS_LIMIT as int);
    }
    let dsq = shortest_distance_sq(cfg, b1.x, b1.y, b2.x, b2.y);
    if !(dsq < rsum * rsum) {
        return ;
    }
    if b1.kind.is_ship() && b2.kind.is_asteroid() {
        requests.push(Request::Despawn { index: i });
    } else if b1.kind.is_asteroid() && b2.kind.is_ship() {
        requests.push(Request::Despawn { index: j });
    } else if b1.kind.is_asteroid() && b2.kind.is_bullet() || b1.kind.is_bullet()
        && b2.kind.is_asteroid() {
        let ai = if b1.kind.is_asteroid() {
            i
        } else {
            j
        };
        let bi = if b1.kind.is_asteroid() {
            j
        } else {
            i
        };
        let ab = bodies[ai];
        let bb = bodies[bi];
        let size = ab.size.unwrap();
        let charge = bb.charge_milli.unwrap();
        if size.is_big() && charge >= cfg.charge_big || size.is_medium() && charge
            >= cfg.charge_medium || size.is_small() {
            requests.push(Request::Despawn { index: bi });
            requests.push(Request::Despawn { index: ai });
            requests.push(
                Request::SpawnFragments {
                    x: ab.x,
                    y: ab.y,
                    velocity: ab.velocity,
                    size_destroyed: size,
                },
            );
        } else {
            apply_bounce(cfg, bodies, requests, i, j, dt_ms);
        }
    } else if b1.kind.is_asteroid() && b2.kind.is_asteroid() {
        apply_bounce(cfg, bodies, requests, i, j, dt_ms);
    } else if b1.kind.is_shield() && b2.kind.is_asteroid() || b1.kind.is_asteroid()
        && b2.kind.is_shield() || b1.kind.is_shield() && b2.kind.is_bullet() || b1.kind.is_bullet()
        && b2.kind.is_shield() {
        apply_bounce(cfg, bodies, requests, i, j, dt_ms);
        if b1.kind.is_shield() {
            requests.push(
                Request::ShieldCollision {
                    shield_x: b1.x,
                    shield_y: b1.y,
                    other_x: b2.x,
                    other_y: b2.y,
                },
            );
        } else {
            requests.push(
                Request::ShieldCollision {
                    shield_x: b2.x,
                    shield_y: b2.y,
                    other_x: b1.x,
                    other_y: b1.y,
                },
            );
        }
    } else if b1.kind.is_ship() && b2.kind.is_bullet() || b1.kind.is_bullet()
        && b2.kind.is_ship() {
        let bb = if b1.kind.is_bullet() {
            b1
        } else {
            b2
        };
        let age = bb.age_ms.unwrap();
        let charge = bb.charge_milli.unwrap();
        if age > cfg.grace_ms {
            if charge > cfg.charge_medium {
                requests.push(Request::Despawn { index: i });
                requests.push(Request::Despawn { index: j });
            } else {
                apply_bounce(cfg, bodies, requests, i, j, dt_ms);
            }
        }
    }
}

/// One full detection pass: every unordered pair of bodies is examined
/// once in index order, velocities are rewritten in place by the
/// bounces, and the deferred requests are returned in emission order.
pub fn collision_detection(cfg: &Config, bodies: &mut Vec<Body>, dt_ms: i64) -> (requests: Vec<
    Request,
>)
    requires
        cfg.wf(),
        0 <= dt_ms <= DT_LIMIT,
        bodies_ok(*cfg, old(bodies)@),
    ensures
        final(bodies)@ == scan_spec(*cfg, dt_ms as int, old(bodies)@).bodies,
        requests@ == scan_spec(*cfg, dt_ms as int, old(bodies)@).requests,
        final(bodies)@.len() == old(bodies)@.len(),
        bodies_ok(*cfg, final(bodies)@),
        same_except_velocity(old(bodies)@, final(bodies)@),
        despawns_in_range(requests@, old(bodies)@.len() as int),
{
    proof {
        lemma_scan_touches_only_velocities(*cfg, dt_ms as int, old(bodies)@);
    }
    let ghost goal = scan_spec(*cfg, dt_ms as int, old(bodies)@);
    let n = bodies.len();
    let mut requests: Vec<Request> = Vec::new();
    let mut i: usize = 0;
    while n - i > 1
        invariant
            cfg.wf(),
            0 <= dt_ms <= DT_LIMIT,
            n == bodies@.len(),
            bodies_ok(*cfg, bodies@),
            i <= n,
            scan_rec(
                *cfg,
                dt_ms as int,
                ScanState { bodies: bodies@, requests: requests@ },
                i as int,
                i as int + 1,
                n as int,
            ) == goal,
        decreases n - i,
    {
        let mut j: usize = i + 1;
        while j < n
            invariant
                cfg.wf(),
                0 <= dt_ms <= DT_LIMIT,
                n == bodies@.len(),
                bodies_ok(*cfg, bodies@),
                i + 1 < n,
                i < j <= n,
                scan_rec(
                    *cfg,
                    dt_ms as int,
                    ScanState { bodies: bodies@, requests: requests@ },
                    i as int,
                    j as int,
                    n as int,
                ) == goal,
            decreases n - j,
        {
            process_pair(cfg, bodies, &mut requests, i, j, dt_ms);
            j = j + 1;
        }
        i = i + 1;
    }
    requests
}

/// A timed entity has outlived its span and is due for despawning.
pub fn lifetime_expired(age_ms: i64, lifetime_ms: i64) -> (r: bool)
    ensures
        r == (age_ms > lifetime_ms),
{
    age_ms > lifetime_ms
}

} // verus!
