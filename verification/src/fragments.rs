//! The fragment spawner: a destroyed Big or Medium asteroid is
//! replaced by exactly three asteroids of the next smaller size, evenly
//! spaced on a circle of 0.54 parent radii around the parent's last
//! position; the whole triple is rotated by a shared random offset.
//! Each fragment keeps 0.9 of the parent velocity plus its own random
//! per-axis perturbation.  A destroyed Small asteroid is terminal.

use vstd::prelude::*;
use crate::config::{Config, POS_LIMIT, VEL_LIMIT};
use crate::entity::{Velocity, AsteroidSize, split_size};
use crate::bounce::vel_ok;
use crate::geom::{torus_dist_sq, lemma_axis_gap_small};
use crate::num::{mag, tdiv, tdiv_i64, lemma_mul_bound, lemma_tdiv_facts, lemma_tdiv_mag_le};
use crate::trig::{sin_pm, cos_pm, sin_milli, cos_milli, lemma_sin_pm_range};
use crate::rng::rand_range;

verus! {

/// One asteroid fragment to spawn.
#[derive(Clone, Copy, Debug, PartialEq, Eq, Structural)]
pub struct Fragment {
    pub x: i64,
    pub y: i64,
    pub velocity: Velocity,
    pub size: AsteroidSize,
}

/// The direction of fragment `k`: the shared random offset plus a
/// third of a turn per fragment.
pub open spec fn fragment_angle(start_deg: int, k: int) -> int {
    start_deg + 120 * k
}

/// Horizontal offset of a fragment from the parent: the configured
/// fraction of the parent radius along the fragment direction.
pub open spec fn fragment_offset_x(cfg: Config, parent_radius: int, a: int) -> int {
    tdiv(cfg.frag_radius_num * parent_radius * cos_pm(a), cfg.frag_radius_den * 1000)
}

/// Vertical offset of a fragment from the parent.
pub open spec fn fragment_offset_y(cfg: Config, parent_radius: int, a: int) -> int {
    tdiv(cfg.frag_radius_num * parent_radius * sin_pm(a), cfg.frag_radius_den * 1000)
}

/// Fragment `k` of a split: placed on the 0.54-radius circle and
/// carrying the retained parent velocity plus this fragment's jitter.
pub open spec fn fragment_spec(
    cfg: Config,
    x: int,
    y: int,
    v: Velocity,
    parent_radius: int,
    size: AsteroidSize,
    start_deg: int,
    k: int,
    jx: int,
    jy: int,
) -> Fragment {
    let a = fragment_angle(start_deg, k);
    let ox = fragment_offset_x(cfg, parent_radius, a);
    let oy = fragment_offset_y(cfg, parent_radius, a);
    let vx = tdiv(cfg.retain_num * v.x, cfg.retain_den as int) + jx;
    let vy = tdiv(cfg.retain_num * v.y, cfg.retain_den as int) + jy;
    Fragment {
        x: (x + ox) as i64,
        y: (y + oy) as i64,
        velocity: Velocity { x: vx as i64, y: vy as i64 },
        size,
    }
}

/// Build fragment `k` of a split.
fn one_fragment(
    cfg: &Config,
    x: i64,
    y: i64,
    v: Velocity,
    parent_radius: i64,
    size: AsteroidSize,
    start_deg: i64,
    k: i64,
    j: Velocity,
) -> (f: Fragment)
    requires
        cfg.wf(),
        mag(x as int) <= POS_LIMIT,
        mag(y as int) <= POS_LIMIT,
        vel_ok(v),
        0 < parent_radius <= POS_LIMIT,
        0 <= start_deg < 120,
        0 <= k <= 2,
        mag(j.x as int) <= cfg.frag_jitter,
        mag(j.y as int) <= cfg.frag_jitter,
    ensures
        f == fragment_spec(
            *cfg,
            x as int,
            y as int,
            v,
            parent_radius as int,
            size,
            start_deg as int,
            k as int,
            j.x as int,
            j.y as int,
        ),
{
    let a = start_deg + 120 * k;
    let c = cos_milli(a);
    let s = sin_milli(a);
    proof {
        lemma_mul_bound(cfg.frag_radius_num as int, parent_radius as int, 1000, POS_LIMIT as int);
        lemma_mul_bound(
            (cfg.frag_radius_num * parent_radius) as int,
            c as int,
            1000 * POS_LIMIT as int,
            1000,
        );
        lemma_mul_bound(
            (cfg.frag_radius_num * parent_radius) as int,
            s as int,
            1000 * POS_LIMIT as int,
            1000,
        );
        lemma_tdiv_facts(
            (cfg.frag_radius_num * parent_radius * c) as int,
            (cfg.frag_radius_den * 1000) as int,
        );
        lemma_tdiv_facts(
            (cfg.frag_radius_num * parent_radius * s) as int,
            (cfg.frag_radius_den * 1000) as int,
        );
        lemma_mul_bound(cfg.retain_num as int, v.x as int, 1000, VEL_LIMIT as int);
        lemma_mul_bound(cfg.retain_num as int, v.y as int, 1000, VEL_LIMIT as int);
        lemma_tdiv_facts((cfg.retain_num * v.x) as int, cfg.retain_den as int);
        lemma_tdiv_facts((cfg.retain_num * v.y) as int, cfg.retain_den as int);
    }
    let ox = tdiv_i64(cfg.frag_radius_num * parent_radius * c, cfg.frag_radius_den * 1000);
    let oy = tdiv_i64(cfg.frag_radius_num * parent_radius * s, cfg.frag_radius_den * 1000);
    let vx = tdiv_i64(cfg.retain_num * v.x, cfg.retain_den) + j.x;
    let vy = tdiv_i64(cfg.retain_num * v.y, cfg.retain_den) + j.y;
    Fragment { x: x + ox, y: y + oy, velocity: Velocity { x: vx, y: vy }, size }
}

/// Spawn the fragments of a destroyed asteroid: exactly three of the
/// next smaller size for a Big or Medium parent, placed and propelled
/// as `fragment_spec` prescribes with the caller's random start angle
/// and per-fragment jitters; nothing for a Small parent.
pub fn spawn_asteroid_fragments(
    cfg: &Config,
    x: i64,
    y: i64,
    velocity: Velocity,
    parent_radius: i64,
    size_destroyed: AsteroidSize,
    start_deg: i64,
    jitter: &Vec<Velocity>,
) -> (frags: Vec<Fragment>)
    requires
        cfg.wf(),
        mag(x as int) <= POS_LIMIT,
        mag(y as int) <= POS_LIMIT,
        vel_ok(velocity),
        0 < parent_radius <= POS_LIMIT,
        0 <= start_deg < 120,
        jitter@.len() >= 3,
        forall|k: int|
            0 <= k < jitter@.len() ==> mag(#[trigger] jitter@[k].x as int) <= cfg.frag_jitter && mag(
                jitter@[k].y as int,
            ) <= cfg.frag_jitter,
    ensures
        size_destroyed is Small ==> frags@.len() == 0,
        !(size_destroyed is Small) ==> frags@.len() == 3,
        forall|k: int|
            0 <= k < frags@.len() ==> #[trigger] frags@[k] == fragment_spec(
                *cfg,
                x as int,
                y as int,
                velocity,
                parent_radius as int,
                split_size(size_destroyed)->Some_0,
                start_deg as int,
                k,
                jitter@[k].x as int,
                jitter@[k].y as int,
            ),
{
    let mut frags: Vec<Fragment> = Vec::new();
    let fs = match size_destroyed.fragment_size() {
        Some(fs) => fs,
        None => {
            return frags;
        },
    };
    frags.push(one_fragment(cfg, x, y, velocity, parent_radius, fs, start_deg, 0, jitter[0]));
    frags.push(one_fragment(cfg, x, y, velocity, parent_radius, fs, start_deg, 1, jitter[1]));
    frags.push(one_fragment(cfg, x, y, velocity, parent_radius, fs, start_deg, 2, jitter[2]));
    frags
}

/// The three fragments all realise one shared start angle, each with
/// its own jitter — the shape every draw of the random spawner takes.
pub open spec fn fragments_from_draw(
    cfg: Config,
    x: int,
    y: int,
    v: Velocity,
    parent_radius: int,
    size: AsteroidSize,
    frags: Seq<Fragment>,
    start: int,
    j0x: int,
    j0y: int,
    j1x: int,
    j1y: int,
    j2x: int,
    j2y: int,
) -> bool {
    &&& frags[0] == fragment_spec(cfg, x, y, v, parent_radius, size, start, 0, j0x, j0y)
    &&& frags[1] == fragment_spec(cfg, x, y, v, parent_radius, size, start, 1, j1x, j1y)
    &&& frags[2] == fragment_spec(cfg, x, y, v, parent_radius, size, start, 2, j2x, j2y)
}

/// Spawn the fragments of a destroyed asteroid with the library's own
/// randomness: one shared start angle drawn from a third of a turn and
/// an independent per-axis perturbation within the configured jitter
/// for each fragment.  Whatever the generator returns, a Big or Medium
/// parent yields exactly three fragments of the next smaller size,
/// placed and propelled by `fragment_spec` for some such draw, and a
/// Small parent none.
pub fn spawn_asteroid_fragments_random(
    cfg: &Config,
    x: i64,
    y: i64,
    velocity: Velocity,
    parent_radius: i64,
    size_destroyed: AsteroidSize,
) -> (frags: Vec<Fragment>)
    requires
        cfg.wf(),
        mag(x as int) <= POS_LIMIT,
        mag(y as int) <= POS_LIMIT,
        vel_ok(velocity),
        0 < parent_radius <= POS_LIMIT,
    ensures
        size_destroyed is Small ==> frags@.len() == 0,
        !(size_destroyed is Small) ==> frags@.len() == 3,
        forall|k: int|
            0 <= k < frags@.len() ==> (#[trigger] frags@[k]).size == split_size(
                size_destroyed,
            )->Some_0,
        !(size_destroyed is Small) ==> exists|
            start: int,
            j0x: int,
            j0y: int,
            j1x: int,
            j1y: int,
            j2x: int,
            j2y: int,
        |
            {
                &&& 0 <= start < 120
                &&& mag(j0x) <= cfg.frag_jitter && mag(j0y) <= cfg.frag_jitter
                &&& mag(j1x) <= cfg.frag_jitter && mag(j1y) <= cfg.frag_jitter
                &&& mag(j2x) <= cfg.frag_jitter && mag(j2y) <= cfg.frag_jitter
                &&& #[trigger] fragments_from_draw(
                    *cfg,
                    x as int,
                    y as int,
                    velocity,
                    parent_radius as int,
                    split_size(size_destroyed)->Some_0,
                    frags@,
                    start,
                    j0x,
                    j0y,
                    j1x,
                    j1y,
                    j2x,
                    j2y,
                )
            },
{
    let start_deg = rand_range(0, 120);
    let mut jitter: Vec<Velocity> = Vec::new();
    let mut k: usize = 0;
    while k < 3
        invariant
            cfg.wf(),
            jitter@.len() == k,
            k <= 3,
            forall|m: int|
                0 <= m < jitter@.len() ==> mag(#[trigger] jitter@[m].x as int) <= cfg.frag_jitter
                    && mag(jitter@[m].y as int) <= cfg.frag_jitter,
        decreases 3 - k,
    {
        let jx = if cfg.frag_jitter > 0 {
            rand_range(-cfg.frag_jitter, cfg.frag_jitter)
        } else {
            0
        };
        let jy = if cfg.frag_jitter > 0 {
            rand_range(-cfg.frag_jitter, cfg.frag_jitter)
        } else {
            0
        };
        jitter.push(Velocity { x: jx, y: jy });
        k = k + 1;
    }
    let frags = spawn_asteroid_fragments(
        cfg,
        x,
        y,
        velocity,
        parent_radius,
        size_destroyed,
        start_deg,
        &jitter,
    );
    proof {
        if !(size_destroyed is Small) {
            assert(fragments_from_draw(
                *cfg,
                x as int,
                y as int,
                velocity,
                parent_radius as int,
                split_size(size_destroyed)->Some_0,
                frags@,
                start_deg as int,
                jitter@[0].x as int,
                jitter@[0].y as int,
                jitter@[1].x as int,
                jitter@[1].y as int,
                jitter@[2].x as int,
                jitter@[2].y as int,
            ));
        }
    }
    frags
}

/// Fragment placement, stated of the values `fragment_spec` pins down:
/// consecutive fragment directions are exactly 120 degrees apart, and
/// each fragment's squared toroidal distance from the parent is exactly
/// the squared norm of its offsets — the configured fraction of the
/// parent radius along a table direction whose own norm
/// `lemma_sin_cos_norm` bounds within 0.06 percent of a unit vector.
pub proof fn lemma_fragment_placement(
    cfg: Config,
    x: int,
    y: int,
    v: Velocity,
    parent_radius: int,
    size: AsteroidSize,
    start_deg: int,
    k: int,
    jx: int,
    jy: int,
)
    requires
        cfg.wf(),
        mag(x) <= POS_LIMIT,
        mag(y) <= POS_LIMIT,
        0 < parent_radius <= POS_LIMIT,
        2 * parent_radius <= cfg.height,
        cfg.height <= cfg.width,
        0 <= start_deg < 120,
        0 <= k <= 2,
    ensures
        fragment_angle(start_deg, k + 1) - fragment_angle(start_deg, k) == 120,
        ({
            let a = fragment_angle(start_deg, k);
            let f = fragment_spec(cfg, x, y, v, parent_radius, size, start_deg, k, jx, jy);
            let ox = fragment_offset_x(cfg, parent_radius, a);
            let oy = fragment_offset_y(cfg, parent_radius, a);
            &&& mag(ox) <= parent_radius
            &&& mag(oy) <= parent_radius
            &&& torus_dist_sq(cfg.width as int, cfg.height as int, x, y, f.x as int, f.y as int)
                == ox * ox + oy * oy
        }),
{
    let a = fragment_angle(start_deg, k);
    let num = cfg.frag_radius_num * parent_radius;
    lemma_sin_pm_range(a);
    assert(0 < num <= cfg.frag_radius_den * parent_radius) by (nonlinear_arith)
        requires
            num == cfg.frag_radius_num * parent_radius,
            0 < cfg.frag_radius_num <= cfg.frag_radius_den,
            0 < parent_radius,
    ;
    lemma_mul_bound(num, cos_pm(a), cfg.frag_radius_den * parent_radius, 1000);
    lemma_mul_bound(num, sin_pm(a), cfg.frag_radius_den * parent_radius, 1000);
    assert(cfg.frag_radius_den * parent_radius * 1000 == (cfg.frag_radius_den * 1000)
        * parent_radius) by (nonlinear_arith);
    lemma_tdiv_mag_le(num * cos_pm(a), cfg.frag_radius_den * 1000, parent_radius);
    lemma_tdiv_mag_le(num * sin_pm(a), cfg.frag_radius_den * 1000, parent_radius);
    let ox = fragment_offset_x(cfg, parent_radius, a);
    let oy = fragment_offset_y(cfg, parent_radius, a);
    let f = fragment_spec(cfg, x, y, v, parent_radius, size, start_deg, k, jx, jy);
    assert(f.x == x + ox && f.y == y + oy);
    lemma_axis_gap_small(cfg.width as int, (x + ox) - x);
    lemma_axis_gap_small(cfg.height as int, (y + oy) - y);
}

/// How far from the parent a fragment lands: scaled by the divisor
/// `dd` of the offset computation, the squared offset norm differs
/// from the nominal `(0.54 r)^2` — that is, `(rr/dd)^2` with
/// `rr = frag_radius_num * r` — only by the table's 0.06 percent norm
/// slack and one truncated unit per axis.
pub proof fn lemma_fragment_distance_band(cfg: Config, parent_radius: int, a: int)
    requires
        cfg.wf(),
        0 < parent_radius <= POS_LIMIT,
        0 <= a < 360,
    ensures
        ({
            let rr = cfg.frag_radius_num * parent_radius;
            let dd = cfg.frag_radius_den * 1000;
            let ox = fragment_offset_x(cfg, parent_radius, a);
            let oy = fragment_offset_y(cfg, parent_radius, a);
            &&& dd * dd * (ox * ox + oy * oy) >= 999200 * (rr * rr) - 4000 * (rr * dd) - 2 * (dd
                * dd)
            &&& dd * dd * (ox * ox + oy * oy) <= 1001192 * (rr * rr) + 4000 * (rr * dd) + 2 * (dd
                * dd)
        }),
{
    let c = cos_pm(a);
    let s = sin_pm(a);
    lemma_sin_pm_range(a);
    crate::trig::lemma_sin_cos_norm(a);
    let rr = cfg.frag_radius_num * parent_radius;
    let dd = cfg.frag_radius_den * 1000;
    assert(0 < rr) by (nonlinear_arith)
        requires
            rr == cfg.frag_radius_num * parent_radius,
            0 < cfg.frag_radius_num,
            0 < parent_radius,
    ;
    let nc = rr * c;
    let ns = rr * s;
    lemma_mul_bound(rr, c, rr, 1000);
    lemma_mul_bound(rr, s, rr, 1000);
    let ox = fragment_offset_x(cfg, parent_radius, a);
    let oy = fragment_offset_y(cfg, parent_radius, a);
    assert(ox == tdiv(nc, dd) && oy == tdiv(ns, dd));
    lemma_tdiv_facts(nc, dd);
    lemma_tdiv_facts(ns, dd);
    let ux = dd * tdiv(nc, dd);
    let uy = dd * tdiv(ns, dd);
    assert(nc * nc - 2 * mag(nc) * (dd - 1) <= ux * ux <= nc * nc + 2 * mag(nc) * (dd - 1) + (dd
        - 1) * (dd - 1)) by (nonlinear_arith)
        requires
            -(dd - 1) <= nc - ux <= dd - 1,
            nc < 0 ==> mag(nc) == -nc,
            nc >= 0 ==> mag(nc) == nc,
            0 < dd,
    ;
    assert(ns * ns - 2 * mag(ns) * (dd - 1) <= uy * uy <= ns * ns + 2 * mag(ns) * (dd - 1) + (dd
        - 1) * (dd - 1)) by (nonlinear_arith)
        requires
            -(dd - 1) <= ns - uy <= dd - 1,
            ns < 0 ==> mag(ns) == -ns,
            ns >= 0 ==> mag(ns) == ns,
            0 < dd,
    ;
    assert(ux * ux + uy * uy == dd * dd * (ox * ox + oy * oy)) by (nonlinear_arith)
        requires
            ux == dd * ox,
            uy == dd * oy,
    ;
    assert(nc * nc + ns * ns == (rr * rr) * (c * c + s * s)) by (nonlinear_arith)
        requires
            nc == rr * c,
            ns == rr * s,
    ;
    assert(999200 * (rr * rr) <= (rr * rr) * (c * c + s * s) <= 1001192 * (rr * rr))
        by (nonlinear_arith)
        requires
            999200 <= c * c + s * s <= 1001192,
            0 < rr,
    ;
    assert(2 * mag(nc) * (dd - 1) + 2 * mag(ns) * (dd - 1) + 2 * ((dd - 1) * (dd - 1)) <= 4000 * (
    rr * dd) + 2 * (dd * dd)) by (nonlinear_arith)
        requires
            0 <= mag(nc) <= rr * 1000,
            0 <= mag(ns) <= rr * 1000,
            0 < dd,
            0 < rr,
    ;
}

} // verus!
