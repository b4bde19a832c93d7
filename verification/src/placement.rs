//! Free-position placement: random candidate points are drawn within
//! the playfield and rejected while any occupied position lies closer
//! than the configured minimum toroidal separation.  Unlike a search
//! that retries forever, every search here is bounded and reports
//! failure explicitly, so a saturated field cannot hang a tick.

use vstd::prelude::*;
use crate::config::{Config, POS_LIMIT};
use crate::geom::torus_dist_sq;
use crate::geom::shortest_distance_sq;
use crate::num::{mag, lemma_mul_bound};
use crate::rng::rand_range;

verus! {

/// The point keeps the minimum separation from every occupied
/// position, measured toroidally.
pub open spec fn position_free(cfg: Config, occupied: Seq<(i64, i64)>, x: int, y: int) -> bool {
    forall|k: int|
        0 <= k < occupied.len() ==> torus_dist_sq(
            cfg.width as int,
            cfg.height as int,
            (#[trigger] occupied[k]).0 as int,
            occupied[k].1 as int,
            x,
            y,
        ) >= cfg.min_separation * cfg.min_separation
}

/// Every listed position lies within the solver's coordinate range.
pub open spec fn positions_ok(occupied: Seq<(i64, i64)>) -> bool {
    forall|k: int|
        0 <= k < occupied.len() ==> mag((#[trigger] occupied[k]).0 as int) <= POS_LIMIT && mag(
            occupied[k].1 as int,
        ) <= POS_LIMIT
}

/// Every point of the list keeps the minimum separation from every
/// other point, measured toroidally.
pub open spec fn scattered(cfg: Config, pts: Seq<(i64, i64)>) -> bool {
    forall|i: int, j: int|
        0 <= i < j < pts.len() ==> torus_dist_sq(
            cfg.width as int,
            cfg.height as int,
            (#[trigger] pts[i]).0 as int,
            pts[i].1 as int,
            (#[trigger] pts[j]).0 as int,
            pts[j].1 as int,
        ) >= cfg.min_separation * cfg.min_separation
}

/// Decide whether a candidate point keeps the minimum separation from
/// every occupied position.
pub fn is_position_free(cfg: &Config, occupied: &Vec<(i64, i64)>, x: i64, y: i64) -> (r: bool)
    requires
        cfg.wf(),
        positions_ok(occupied@),
        mag(x as int) <= POS_LIMIT,
        mag(y as int) <= POS_LIMIT,
    ensures
        r == position_free(*cfg, occupied@, x as int, y as int),
{
    proof {
        lemma_mul_bound(
            cfg.min_separation as int,
            cfg.min_separation as int,
            POS_LIMIT as int,
            POS_LIMIT as int,
        );
    }
    let sep_sq = cfg.min_separation * cfg.min_separation;
    let mut k: usize = 0;
    while k < occupied.len()
        invariant
            cfg.wf(),
            positions_ok(occupied@),
            mag(x as int) <= POS_LIMIT,
            mag(y as int) <= POS_LIMIT,
            sep_sq == cfg.min_separation * cfg.min_separation,
            k <= occupied.len(),
            forall|m: int|
                0 <= m < k ==> torus_dist_sq(
                    cfg.width as int,
                    cfg.height as int,
                    (#[trigger] occupied@[m]).0 as int,
                    occupied@[m].1 as int,
                    x as int,
                    y as int,
                ) >= cfg.min_separation * cfg.min_separation,
        decreases occupied.len() - k,
    {
        let p = occupied[k];
        let d = shortest_distance_sq(cfg, p.0, p.1, x, y);
        if d < sep_sq {
            return false;
        }
        k = k + 1;
    }
    true
}

/// The first candidate of the list, if any, that keeps the minimum
/// separation from every occupied position.
pub open spec fn first_free_from(
    cfg: Config,
    occupied: Seq<(i64, i64)>,
    candidates: Seq<(i64, i64)>,
    i: int,
) -> Option<(i64, i64)>
    decreases candidates.len() - i,
{
    if i < 0 || i >= candidates.len() {
        None
    } else if position_free(cfg, occupied, candidates[i].0 as int, candidates[i].1 as int) {
        Some(candidates[i])
    } else {
        first_free_from(cfg, occupied, candidates, i + 1)
    }
}

/// Scan a list of candidate points in order and return the first that
/// keeps the minimum separation from every occupied position; `None`
/// when no candidate qualifies.
pub fn first_free_position(cfg: &Config, occupied: &Vec<(i64, i64)>, candidates: &Vec<(i64, i64)>)
    -> (r: Option<(i64, i64)>)
    requires
        cfg.wf(),
        positions_ok(occupied@),
        positions_ok(candidates@),
    ensures
        r == first_free_from(*cfg, occupied@, candidates@, 0),
        r matches Some(p) ==> position_free(*cfg, occupied@, p.0 as int, p.1 as int),
        r is None ==> forall|k: int|
            0 <= k < candidates@.len() ==> !position_free(
                *cfg,
                occupied@,
                (#[trigger] candidates@[k]).0 as int,
                candidates@[k].1 as int,
            ),
{
    let mut i: usize = 0;
    while i < candidates.len()
        invariant
            cfg.wf(),
            positions_ok(occupied@),
            positions_ok(candidates@),
            i <= candidates.len(),
            first_free_from(*cfg, occupied@, candidates@, 0) == first_free_from(
                *cfg,
                occupied@,
                candidates@,
                i as int,
            ),
            forall|k: int|
                0 <= k < i ==> !position_free(
                    *cfg,
                    occupied@,
                    (#[trigger] candidates@[k]).0 as int,
                    candidates@[k].1 as int,
                ),
        decreases candidates.len() - i,
    {
        let p = candidates[i];
        if is_position_free(cfg, occupied, p.0, p.1) {
            return Some(p);
        }
        i = i + 1;
    }
    None
}

/// Draw random points within the playfield until one keeps the minimum
/// separation from every occupied position, giving up explicitly after
/// the given number of attempts.  Whatever the generator returns, a
/// position handed back is free and lies within the field.
pub fn random_free_position(cfg: &Config, occupied: &Vec<(i64, i64)>, max_attempts: usize) -> (r:
    Option<(i64, i64)>)
    requires
        cfg.wf(),
        positions_ok(occupied@),
    ensures
        r matches Some(p) ==> position_free(*cfg, occupied@, p.0 as int, p.1 as int) && 0 <= p.0
            < cfg.width && 0 <= p.1 < cfg.height,
        max_attempts == 0 ==> r is None,
        max_attempts > 0 && occupied@.len() == 0 ==> r is Some,
        max_attempts > 0 && cfg.min_separation == 0 ==> r is Some,
{
    let mut attempt: usize = 0;
    while attempt < max_attempts
        invariant
            cfg.wf(),
            positions_ok(occupied@),
            occupied@.len() == 0 || cfg.min_separation == 0 ==> attempt == 0,
        decreases max_attempts - attempt,
    {
        let x = rand_range(0, cfg.width);
        let y = rand_range(0, cfg.height);
        let free = is_position_free(cfg, occupied, x, y);
        proof {
            if occupied@.len() == 0 || cfg.min_separation == 0 {
                assert forall|k: int| 0 <= k < occupied@.len() implies torus_dist_sq(
                    cfg.width as int,
                    cfg.height as int,
                    (#[trigger] occupied@[k]).0 as int,
                    occupied@[k].1 as int,
                    x as int,
                    y as int,
                ) >= cfg.min_separation * cfg.min_separation by {
                    crate::geom::lemma_axis_gap_bounds(
                        cfg.width as int,
                        x as int - occupied@[k].0 as int,
                    );
                    crate::geom::lemma_axis_gap_bounds(
                        cfg.height as int,
                        y as int - occupied@[k].1 as int,
                    );
                    assert(cfg.min_separation == 0);
                    assert(cfg.min_separation * cfg.min_separation == 0) by (nonlinear_arith)
                        requires
                            cfg.min_separation == 0,
                    ;
                }
                assert(position_free(*cfg, occupied@, x as int, y as int));
            }
        }
        if free {
            return Some((x, y));
        }
        attempt = attempt + 1;
    }
    None
}

/// Scatter the initial asteroids: starting from the ship at the
/// origin, place the requested number of random positions one by one,
/// each keeping the minimum separation from the origin and from every
/// position placed before it.  Fails explicitly when a placement
/// exhausts its attempts.
pub fn initial_asteroid_positions(cfg: &Config, count: usize, max_attempts: usize) -> (r: Option<
    Vec<(i64, i64)>,
>)
    requires
        cfg.wf(),
    ensures
        r matches Some(v) ==> {
            &&& v@.len() == count
            &&& scattered(*cfg, v@)
            &&& forall|k: int|
                0 <= k < v@.len() ==> torus_dist_sq(
                    cfg.width as int,
                    cfg.height as int,
                    0,
                    0,
                    (#[trigger] v@[k]).0 as int,
                    v@[k].1 as int,
                ) >= cfg.min_separation * cfg.min_separation
            &&& forall|k: int|
                0 <= k < v@.len() ==> 0 <= (#[trigger] v@[k]).0 < cfg.width && 0 <= v@[k].1
                    < cfg.height
        },
        count == 0 ==> r is Some,
        max_attempts > 0 && cfg.min_separation == 0 ==> r is Some,
{
    let mut occupied: Vec<(i64, i64)> = Vec::new();
    occupied.push((0, 0));
    let mut out: Vec<(i64, i64)> = Vec::new();
    while out.len() < count
        invariant
            cfg.wf(),
            out@.len() <= count,
            occupied@.len() == out@.len() + 1,
            occupied@[0] == (0i64, 0i64),
            forall|k: int| 0 <= k < out@.len() ==> occupied@[k + 1] == #[trigger] out@[k],
            positions_ok(occupied@),
            scattered(*cfg, occupied@),
            forall|k: int|
                0 <= k < out@.len() ==> 0 <= (#[trigger] out@[k]).0 < cfg.width && 0 <= out@[k].1
                    < cfg.height,
        decreases count - out.len(),
    {
        match random_free_position(cfg, &occupied, max_attempts) {
            None => {
                return None;
            },
            Some(p) => {
                proof {
                    assert forall|i: int, j: int| 0 <= i < j < occupied@.push(p).len() implies
                        torus_dist_sq(
                        cfg.width as int,
                        cfg.height as int,
                        (#[trigger] occupied@.push(p)[i]).0 as int,
                        occupied@.push(p)[i].1 as int,
                        (#[trigger] occupied@.push(p)[j]).0 as int,
                        occupied@.push(p)[j].1 as int,
                    ) >= cfg.min_separation * cfg.min_separation by {
                        if j < occupied@.len() {
                            assert(occupied@.push(p)[i] == occupied@[i]);
                            assert(occupied@.push(p)[j] == occupied@[j]);
                        } else {
                            assert(occupied@.push(p)[i] == occupied@[i]);
                            assert(occupied@.push(p)[j] == p);
                        }
                    }
                }
                occupied.push(p);
                out.push(p);
            },
        }
    }
    proof {
        assert forall|i: int, j: int| 0 <= i < j < out@.len() implies torus_dist_sq(
            cfg.width as int,
            cfg.height as int,
            (#[trigger] out@[i]).0 as int,
            out@[i].1 as int,
            (#[trigger] out@[j]).0 as int,
            out@[j].1 as int,
        ) >= cfg.min_separation * cfg.min_separation by {
            assert(occupied@[i + 1] == out@[i]);
            assert(occupied@[j + 1] == out@[j]);
        }
        assert forall|k: int| 0 <= k < out@.len() implies torus_dist_sq(
            cfg.width as int,
            cfg.height as int,
            0,
            0,
            (#[trigger] out@[k]).0 as int,
            out@[k].1 as int,
        ) >= cfg.min_separation * cfg.min_separation by {
            assert(occupied@[0] == (0i64, 0i64));
            assert(occupied@[k + 1] == out@[k]);
        }
    }
    Some(out)
}

} // verus!
