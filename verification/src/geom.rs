//! Toroidal geometry: wrapped deltas, shortest distances and edge
//! looping on a playfield whose opposite edges are identified.

use vstd::prelude::*;
use crate::config::{Config, POS_LIMIT, VEL_LIMIT, DT_LIMIT};
use crate::num::{mag, min3, tdiv, sqrt_floor, tdiv_i64, isqrt};
use crate::num::{lemma_sq_mono, lemma_tdiv_facts};

verus! {

/// Of `d`, `d + span` and `d - span`, the candidate of least magnitude;
/// the unshifted delta is kept when no shift is strictly closer.
pub open spec fn wrap_delta(span: int, d: int) -> int {
    if mag(d + span) < mag(d) {
        d + span
    } else if mag(d - span) < mag(d) {
        d - span
    } else {
        d
    }
}

/// Least squared separation along one wrapping axis.
pub open spec fn axis_gap_sq(span: int, d: int) -> int {
    min3(d * d, (d + span) * (d + span), (d - span) * (d - span))
}

/// Squared toroidal distance between two points: the per-axis least
/// squared gaps combine by the Euclidean norm.
pub open spec fn torus_dist_sq(w: int, h: int, x1: int, y1: int, x2: int, y2: int) -> int {
    axis_gap_sq(w, x2 - x1) + axis_gap_sq(h, y2 - y1)
}

/// Magnitudes compare exactly as squares do.
pub proof fn lemma_mag_sq(a: int, b: int)
    ensures
        mag(a) * mag(a) == a * a,
        (mag(a) <= mag(b)) == (a * a <= b * b),
        (mag(a) < mag(b)) == (a * a < b * b),
{
    let ma = mag(a);
    let mb = mag(b);
    assert(mag(a) * mag(a) == a * a && (ma <= mb) == (a * a <= b * b) && (ma < mb) == (a * a
        < b * b)) by (nonlinear_arith)
        requires
            a < 0 ==> ma == -a,
            a >= 0 ==> ma == a,
            b < 0 ==> mb == -b,
            b >= 0 ==> mb == b,
            mag(a) == ma,
    ;
}

/// The wrapped delta realises the least squared gap of its axis, and is
/// no farther than any of the three candidates.
pub proof fn lemma_wrap_delta_sq(span: int, d: int)
    requires
        0 < span,
    ensures
        wrap_delta(span, d) * wrap_delta(span, d) == axis_gap_sq(span, d),
        mag(wrap_delta(span, d)) <= mag(d),
        mag(wrap_delta(span, d)) <= mag(d + span),
        mag(wrap_delta(span, d)) <= mag(d - span),
{
    lemma_mag_sq(d + span, d);
    lemma_mag_sq(d - span, d);
    lemma_mag_sq(d, d + span);
    lemma_mag_sq(d, d - span);
    lemma_mag_sq(d + span, d - span);
    lemma_mag_sq(d - span, d + span);
    if mag(d + span) < mag(d) {
        assert((d + span) * (d + span) <= (d - span) * (d - span)) by (nonlinear_arith)
            requires
                (d + span) * (d + span) < d * d,
                0 < span,
        ;
    } else if mag(d - span) < mag(d) {
        assert((d - span) * (d - span) <= (d + span) * (d + span)) by (nonlinear_arith)
            requires
                (d - span) * (d - span) < d * d,
                0 < span,
        ;
    }
}

/// Reversing the direction of a delta leaves its least squared gap
/// unchanged: the candidate set is mirrored.
pub proof fn lemma_axis_gap_sym(span: int, d: int)
    ensures
        axis_gap_sq(span, -d) == axis_gap_sq(span, d),
{
    assert((-d) * (-d) == d * d) by (nonlinear_arith);
    assert((-d + span) * (-d + span) == (d - span) * (d - span)) by (nonlinear_arith);
    assert((-d - span) * (-d - span) == (d + span) * (d + span)) by (nonlinear_arith);
}

/// The least squared gap is non-negative and never exceeds the square
/// of the raw delta.
pub proof fn lemma_axis_gap_bounds(span: int, d: int)
    ensures
        0 <= axis_gap_sq(span, d),
        axis_gap_sq(span, d) <= d * d,
{
    assert(0 <= d * d && 0 <= (d + span) * (d + span) && 0 <= (d - span) * (d - span))
        by (nonlinear_arith);
}

/// A delta of no more than half a span is already the least gap:
/// wrapping cannot bring the points closer.
pub proof fn lemma_axis_gap_small(span: int, d: int)
    requires
        0 < span,
        2 * mag(d) <= span,
    ensures
        axis_gap_sq(span, d) == d * d,
        wrap_delta(span, d) == d,
{
    let ma = mag(d);
    assert(d * d <= (d + span) * (d + span) && d * d <= (d - span) * (d - span))
        by (nonlinear_arith)
        requires
            d < 0 ==> ma == -d,
            d >= 0 ==> ma == d,
            2 * ma <= span,
            0 < span,
    ;
    lemma_mag_sq(d + span, d);
    lemma_mag_sq(d - span, d);
}

/// A delta lying exactly on a multiple of the span closes the gap: the
/// two points are the same point of the torus.
pub proof fn lemma_axis_gap_zero(span: int, d: int)
    requires
        d == 0 || d == span || d == -span,
    ensures
        axis_gap_sq(span, d) == 0,
{
    assert(d * d >= 0 && (d + span) * (d + span) >= 0 && (d - span) * (d - span) >= 0)
        by (nonlinear_arith);
    if d == 0 {
    } else if d == span {
        assert((d - span) * (d - span) == 0) by (nonlinear_arith)
            requires
                d == span,
        ;
    } else {
        assert((d + span) * (d + span) == 0) by (nonlinear_arith)
            requires
                d == -span,
        ;
    }
}

/// Toroidal distance is symmetric in its two points.
pub proof fn lemma_shortest_distance_symmetric(w: int, h: int, x1: int, y1: int, x2: int, y2: int)
    ensures
        torus_dist_sq(w, h, x1, y1, x2, y2) == torus_dist_sq(w, h, x2, y2, x1, y1),
{
    lemma_axis_gap_sym(w, x1 - x2);
    lemma_axis_gap_sym(h, y1 - y2);
}

/// Magnitude of a machine word.
pub fn iabs(x: i64) -> (r: i64)
    requires
        i64::MIN < x,
    ensures
        r == mag(x as int),
{
    if x < 0 {
        -x
    } else {
        x
    }
}

/// The wrapped delta along one axis, executable for any operands whose
/// shifts stay within machine range.
pub fn wrap_axis(span: i64, d: i64) -> (r: i64)
    requires
        0 < span <= 0x20000000000000,
        mag(d as int) <= 0x20000000000000,
    ensures
        r == wrap_delta(span as int, d as int),
        mag(r as int) <= mag(d as int),
{
    proof {
        lemma_wrap_delta_sq(span as int, d as int);
    }
    let a = iabs(d);
    let ap = iabs(d + span);
    let am = iabs(d - span);
    if ap < a {
        d + span
    } else if am < a {
        d - span
    } else {
        d
    }
}

/// Squared toroidal distance over explicit spans, wide enough for
/// scaled coordinates.
pub(crate) fn dist_sq_spans(span_w: i64, span_h: i64, x1: i64, y1: i64, x2: i64, y2: i64) -> (r:
    i128)
    requires
        0 < span_w <= 0x10000000000000,
        0 < span_h <= 0x10000000000000,
        mag(x1 as int) <= 0x10000000000000,
        mag(y1 as int) <= 0x10000000000000,
        mag(x2 as int) <= 0x10000000000000,
        mag(y2 as int) <= 0x10000000000000,
    ensures
        r == torus_dist_sq(span_w as int, span_h as int, x1 as int, y1 as int, x2 as int, y2 as int),
        0 <= r,
{
    let wx = wrap_axis(span_w, x2 - x1);
    let wy = wrap_axis(span_h, y2 - y1);
    proof {
        lemma_wrap_delta_sq(span_w as int, (x2 - x1) as int);
        lemma_wrap_delta_sq(span_h as int, (y2 - y1) as int);
        lemma_sq_mono(mag(wx as int), 0x40000000000000);
        lemma_sq_mono(mag(wy as int), 0x40000000000000);
        lemma_mag_sq(wx as int, wx as int);
        lemma_mag_sq(wy as int, wy as int);
    }
    (wx as i128) * (wx as i128) + (wy as i128) * (wy as i128)
}

/// Squared toroidal distance on the configured playfield.
pub fn shortest_distance_sq(cfg: &Config, x1: i64, y1: i64, x2: i64, y2: i64) -> (r: i64)
    requires
        cfg.wf(),
        mag(x1 as int) <= POS_LIMIT,
        mag(y1 as int) <= POS_LIMIT,
        mag(x2 as int) <= POS_LIMIT,
        mag(y2 as int) <= POS_LIMIT,
    ensures
        r == torus_dist_sq(cfg.width as int, cfg.height as int, x1 as int, y1 as int, x2 as int, y2 as int),
        0 <= r,
{
    let d = dist_sq_spans(cfg.width, cfg.height, x1, y1, x2, y2);
    proof {
        lemma_wrap_delta_sq(cfg.width as int, (x2 - x1) as int);
        lemma_wrap_delta_sq(cfg.height as int, (y2 - y1) as int);
        lemma_axis_gap_bounds(cfg.width as int, (x2 - x1) as int);
        lemma_axis_gap_bounds(cfg.height as int, (y2 - y1) as int);
        lemma_sq_mono(mag((x2 - x1) as int), 2 * POS_LIMIT as int);
        lemma_sq_mono(mag((y2 - y1) as int), 2 * POS_LIMIT as int);
        lemma_mag_sq((x2 - x1) as int, (x2 - x1) as int);
        lemma_mag_sq((y2 - y1) as int, (y2 - y1) as int);
    }
    d as i64
}

/// Shortest toroidal distance, rounded down to a whole unit.
pub fn shortest_distance(cfg: &Config, x1: i64, y1: i64, x2: i64, y2: i64) -> (r: i64)
    requires
        cfg.wf(),
        mag(x1 as int) <= POS_LIMIT,
        mag(y1 as int) <= POS_LIMIT,
        mag(x2 as int) <= POS_LIMIT,
        mag(y2 as int) <= POS_LIMIT,
    ensures
        r == sqrt_floor(torus_dist_sq(cfg.width as int, cfg.height as int, x1 as int, y1 as int, x2 as int, y2 as int)),
        0 <= r,
        r * r <= torus_dist_sq(cfg.width as int, cfg.height as int, x1 as int, y1 as int, x2 as int, y2 as int)
            < (r + 1) * (r + 1),
{
    let d = shortest_distance_sq(cfg, x1, y1, x2, y2);
    proof {
        crate::num::lemma_sqrt_floor(d as int);
    }
    isqrt(d)
}

/// The wrapped copy of the second point that lies nearest the first:
/// each coordinate is shifted by one span at most, and no other copy is
/// closer along its axis.
pub fn closest_position(cfg: &Config, x1: i64, y1: i64, x2: i64, y2: i64) -> (p: (i64, i64))
    requires
        cfg.wf(),
        mag(x1 as int) <= POS_LIMIT,
        mag(y1 as int) <= POS_LIMIT,
        mag(x2 as int) <= POS_LIMIT,
        mag(y2 as int) <= POS_LIMIT,
    ensures
        p.0 == x1 + wrap_delta(cfg.width as int, x2 - x1),
        p.1 == y1 + wrap_delta(cfg.height as int, y2 - y1),
        p.0 == x2 || p.0 == x2 + cfg.width || p.0 == x2 - cfg.width,
        p.1 == y2 || p.1 == y2 + cfg.height || p.1 == y2 - cfg.height,
        mag(p.0 - x1) <= mag(x2 - x1),
        mag(p.0 - x1) <= mag(x2 + cfg.width - x1),
        mag(p.0 - x1) <= mag(x2 - cfg.width - x1),
        mag(p.1 - y1) <= mag(y2 - y1),
        mag(p.1 - y1) <= mag(y2 + cfg.height - y1),
        mag(p.1 - y1) <= mag(y2 - cfg.height - y1),
{
    proof {
        lemma_wrap_delta_sq(cfg.width as int, (x2 - x1) as int);
        lemma_wrap_delta_sq(cfg.height as int, (y2 - y1) as int);
    }
    let wx = wrap_axis(cfg.width, x2 - x1);
    let wy = wrap_axis(cfg.height, y2 - y1);
    (x1 + wx, y1 + wy)
}

/// The point sits in the window: each coordinate within half a span of
/// the centre.
pub open spec fn in_field(cfg: Config, x: int, y: int) -> bool {
    &&& 2 * mag(x) <= cfg.width
    &&& 2 * mag(y) <= cfg.height
}

/// One edge-looping step: a coordinate that left the window by up to
/// half a span re-enters from the opposite edge.
pub fn edge_looping(cfg: &Config, x: i64, y: i64) -> (p: (i64, i64))
    requires
        cfg.wf(),
        2 * mag(x as int) <= 3 * cfg.width,
        2 * mag(y as int) <= 3 * cfg.height,
    ensures
        in_field(*cfg, p.0 as int, p.1 as int),
        p.0 == x || p.0 == x + cfg.width || p.0 == x - cfg.width,
        p.1 == y || p.1 == y + cfg.height || p.1 == y - cfg.height,
{
    let hw = cfg.width / 2;
    let hh = cfg.height / 2;
    let nx = if x < -hw {
        x + cfg.width
    } else if x > hw {
        x - cfg.width
    } else {
        x
    };
    let ny = if y < -hh {
        y + cfg.height
    } else if y > hh {
        y - cfg.height
    } else {
        y
    };
    (nx, ny)
}

/// An angle folded into one full turn, in thousandths of a degree:
/// reduced modulo a turn only when it exceeds one, then shifted into
/// the non-negative range, as the per-tick normalisation applies it.
pub open spec fn normalize_angle_spec(a: int) -> int {
    let b = if a > 360000 || a < -360000 {
        a - 360000 * tdiv(a, 360000)
    } else {
        a
    };
    if b < 0 {
        b + 360000
    } else {
        b
    }
}

/// Fold an angle into one full turn without changing its direction.
pub fn normalize_angle(a_millideg: i64) -> (r: i64)
    requires
        i64::MIN < a_millideg,
    ensures
        r == normalize_angle_spec(a_millideg as int),
        0 <= r <= 360000,
        (a_millideg - r) % 360000 == 0,
{
    proof {
        lemma_tdiv_facts(a_millideg as int, 360000);
    }
    let b = if a_millideg > 360000 || a_millideg < -360000 {
        a_millideg - 360000 * tdiv_i64(a_millideg, 360000)
    } else {
        a_millideg
    };
    let r = if b < 0 {
        b + 360000
    } else {
        b
    };
    proof {
        let a = a_millideg as int;
        let q = tdiv(a, 360000);
        let kk: int = if a > 360000 || a < -360000 {
            if b < 0 {
                q - 1
            } else {
                q
            }
        } else {
            if b < 0 {
                -1
            } else {
                0
            }
        };
        assert(a - r == kk * 360000);
        vstd::arithmetic::div_mod::lemma_mod_multiples_basic(kk, 360000);
    }
    r
}

/// One movement step: the position advances by the velocity scaled by
/// the frame time in milliseconds, then wraps at the edges.
pub fn movement_translation(cfg: &Config, x: i64, y: i64, vx: i64, vy: i64, dt_ms: i64) -> (p: (
    i64,
    i64,
))
    requires
        cfg.wf(),
        in_field(*cfg, x as int, y as int),
        mag(vx as int) <= VEL_LIMIT,
        mag(vy as int) <= VEL_LIMIT,
        0 <= dt_ms <= DT_LIMIT,
        mag(vx as int) * dt_ms <= 500 * cfg.width,
        mag(vy as int) * dt_ms <= 500 * cfg.height,
    ensures
        in_field(*cfg, p.0 as int, p.1 as int),
        ({
            let sx = x + tdiv(vx * dt_ms, 1000);
            let sy = y + tdiv(vy * dt_ms, 1000);
            (p.0 == sx || p.0 == sx + cfg.width || p.0 == sx - cfg.width) && (p.1 == sy || p.1 == sy
                + cfg.height || p.1 == sy - cfg.height)
        }),
{
    proof {
        lemma_tdiv_facts((vx * dt_ms) as int, 1000);
        lemma_tdiv_facts((vy * dt_ms) as int, 1000);
        assert(mag((vx * dt_ms) as int) <= 500 * cfg.width) by (nonlinear_arith)
            requires
                mag(vx as int) * dt_ms <= 500 * cfg.width,
                mag(vx as int) >= 0,
                0 <= dt_ms,
                (vx as int) * (dt_ms as int) == (vx * dt_ms) as int,
                mag(vx as int) == mag(vx as int),
                vx < 0 ==> mag(vx as int) == -(vx as int),
                vx >= 0 ==> mag(vx as int) == vx as int,
                0 < cfg.width,
        ;
        assert(mag((vy * dt_ms) as int) <= 500 * cfg.height) by (nonlinear_arith)
            requires
                mag(vy as int) * dt_ms <= 500 * cfg.height,
                mag(vy as int) >= 0,
                0 <= dt_ms,
                (vy as int) * (dt_ms as int) == (vy * dt_ms) as int,
                vy < 0 ==> mag(vy as int) == -(vy as int),
                vy >= 0 ==> mag(vy as int) == vy as int,
                0 < cfg.height,
        ;
        assert(2 * mag(tdiv((vx * dt_ms) as int, 1000)) <= cfg.width);
        assert(2 * mag(tdiv((vy * dt_ms) as int, 1000)) <= cfg.height);
    }
    let sx = x + tdiv_i64(vx * dt_ms, 1000);
    let sy = y + tdiv_i64(vy * dt_ms, 1000);
    edge_looping(cfg, sx, sy)
}

} // verus!
