//! The elastic bounce solver: a two-body collision resolved along the
//! wrapped line of centres, with a fixed momentum-loss factor and a
//! cosmetic contact/shake request.
//!
//! The solver only acts when the bodies are closing in: it advances
//! both centres by one frame step and compares the toroidal distances
//! before and after.  The impulse itself is the standard
//! two-dimensional elastic-collision exchange written in vector form,
//! which has no singular direction: a body with a vanishing velocity
//! component needs no special case.

use vstd::prelude::*;
use crate::config::{Config, POS_LIMIT, VEL_LIMIT, MASS_LIMIT, DT_LIMIT};
use crate::entity::Velocity;
use crate::geom::{wrap_delta, torus_dist_sq, wrap_axis, dist_sq_spans};
use crate::num::{mag, tdiv, imin, sqrt_floor, tdiv_i64, tdiv_i128, isqrt};
use crate::num::{lemma_mul_bound, lemma_tdiv_facts, lemma_sqrt_floor, lemma_tdiv_mag_le};

verus! {

/// Cosmetic request emitted by a bounce: the contact point on the
/// first body's rim and a screen-shake amplitude in thousandths.
#[derive(Clone, Copy, Debug, PartialEq, Eq, Structural)]
pub struct BounceEffect {
    pub contact_x: i64,
    pub contact_y: i64,
    pub amplitude_milli: i64,
}

/// The velocity components stay within the solver's working range.
pub open spec fn vel_ok(v: Velocity) -> bool {
    &&& mag(v.x as int) <= VEL_LIMIT
    &&& mag(v.y as int) <= VEL_LIMIT
}

/// A bounce result component clamped to the working range; real speeds
/// sit far below the limit, so the clamp is a robustness guard only.
pub open spec fn clamped(v: int) -> int {
    if v > VEL_LIMIT {
        VEL_LIMIT as int
    } else if v < -(VEL_LIMIT as int) {
        -(VEL_LIMIT as int)
    } else {
        v
    }
}

/// The two centres are closing in: advancing both by one frame step of
/// their velocities shrinks the toroidal distance.  Compared at a
/// thousandfold scale so that a millisecond step loses nothing to
/// rounding.
pub open spec fn approaching(
    cfg: Config,
    x1: int,
    y1: int,
    v1: Velocity,
    x2: int,
    y2: int,
    v2: Velocity,
    dt: int,
) -> bool {
    torus_dist_sq(
        1000 * cfg.width,
        1000 * cfg.height,
        1000 * x1 + v1.x * dt,
        1000 * y1 + v1.y * dt,
        1000 * x2 + v2.x * dt,
        1000 * y2 + v2.y * dt,
    ) < torus_dist_sq(1000 * cfg.width, 1000 * cfg.height, 1000 * x1, 1000 * y1, 1000 * x2, 1000
        * y2)
}

/// The bounce outcome: the two new velocities and, when an impulse was
/// applied, the contact/shake request.  Separating bodies, and the
/// degenerate case of coinciding wrapped centres, are left untouched.
pub open spec fn bounce_spec(
    cfg: Config,
    x1: int,
    y1: int,
    v1: Velocity,
    m1: int,
    x2: int,
    y2: int,
    v2: Velocity,
    m2: int,
    dt: int,
    r1: int,
) -> (Velocity, Velocity, Option<BounceEffect>) {
    let dx = wrap_delta(cfg.width as int, x2 - x1);
    let dy = wrap_delta(cfg.height as int, y2 - y1);
    if !approaching(cfg, x1, y1, v1, x2, y2, v2, dt) || (dx == 0 && dy == 0) {
        (v1, v2, None)
    } else {
        let nsq = dx * dx + dy * dy;
        let relx = v1.x - v2.x;
        let rely = v1.y - v2.y;
        let dot = relx * dx + rely * dy;
        let den = nsq * (m1 + m2);
        let q1x = tdiv(2 * m2 * dot * dx, den);
        let q1y = tdiv(2 * m2 * dot * dy, den);
        let q2x = tdiv(2 * m1 * dot * dx, den);
        let q2y = tdiv(2 * m1 * dot * dy, den);
        let n1x = clamped(tdiv(cfg.loss_num * (v1.x - q1x), cfg.loss_den as int));
        let n1y = clamped(tdiv(cfg.loss_num * (v1.y - q1y), cfg.loss_den as int));
        let n2x = clamped(tdiv(cfg.loss_num * (v2.x + q2x), cfg.loss_den as int));
        let n2y = clamped(tdiv(cfg.loss_num * (v2.y + q2y), cfg.loss_den as int));
        let dvx = v1.x - n1x;
        let dvy = v1.y - n1y;
        let change = m1 * sqrt_floor(dvx * dvx + dvy * dvy);
        let amp = imin(tdiv(1000 * change, cfg.shake_divisor as int), cfg.shake_max_milli as int);
        let dist = sqrt_floor(nsq);
        let cx = x1 + tdiv(r1 * dx, dist);
        let cy = y1 + tdiv(r1 * dy, dist);
        (
            Velocity { x: n1x as i64, y: n1y as i64 },
            Velocity { x: n2x as i64, y: n2y as i64 },
            Some(
                BounceEffect {
                    contact_x: cx as i64,
                    contact_y: cy as i64,
                    amplitude_milli: amp as i64,
                },
            ),
        )
    }
}

/// The momentary amplitude of a screen shake, in thousandths: the
/// initial amplitude scaled by the share of the duration still to run,
/// and zero once the shake has run its course.
pub fn shake_amplitude(amplitude_milli: i64, elapsed_ms: i64, duration_ms: i64) -> (a: i64)
    requires
        0 <= amplitude_milli <= 1000000000,
        0 <= elapsed_ms,
        0 < duration_ms <= 1000000000,
    ensures
        elapsed_ms >= duration_ms ==> a == 0,
        elapsed_ms < duration_ms ==> a == tdiv(
            amplitude_milli * (duration_ms - elapsed_ms),
            duration_ms as int,
        ),
        0 <= a <= amplitude_milli,
{
    if elapsed_ms >= duration_ms {
        0
    } else {
        proof {
            lemma_mul_bound(
                amplitude_milli as int,
                (duration_ms - elapsed_ms) as int,
                1000000000,
                1000000000,
            );
            lemma_tdiv_facts((amplitude_milli * (duration_ms - elapsed_ms)) as int,
                duration_ms as int);
            assert(mag((amplitude_milli * (duration_ms - elapsed_ms)) as int) <= duration_ms
                * amplitude_milli) by (nonlinear_arith)
                requires
                    0 <= amplitude_milli,
                    0 < duration_ms - elapsed_ms <= duration_ms,
                    mag((amplitude_milli * (duration_ms - elapsed_ms)) as int) == amplitude_milli
                        * (duration_ms - elapsed_ms),
            ;
            lemma_tdiv_mag_le(
                (amplitude_milli * (duration_ms - elapsed_ms)) as int,
                duration_ms as int,
                amplitude_milli as int,
            );
        }
        tdiv_i64(amplitude_milli * (duration_ms - elapsed_ms), duration_ms)
    }
}

/// If the two bodies are separating (or holding distance) at call
/// time, the bounce leaves both velocities exactly as they were and
/// emits no request.
pub proof fn lemma_no_bounce_when_separating(
    cfg: Config,
    x1: int,
    y1: int,
    v1: Velocity,
    m1: int,
    x2: int,
    y2: int,
    v2: Velocity,
    m2: int,
    dt: int,
    r1: int,
)
    requires
        !approaching(cfg, x1, y1, v1, x2, y2, v2, dt),
    ensures
        bounce_spec(cfg, x1, y1, v1, m1, x2, y2, v2, m2, dt, r1) == (
            v1,
            v2,
            None::<BounceEffect>,
        ),
{
}

/// Bodies that are closing in cannot occupy the same point of the
/// torus: their wrapped centre delta is non-zero.
pub proof fn lemma_approaching_separated(
    cfg: Config,
    x1: int,
    y1: int,
    v1: Velocity,
    x2: int,
    y2: int,
    v2: Velocity,
    dt: int,
)
    requires
        cfg.wf(),
        approaching(cfg, x1, y1, v1, x2, y2, v2, dt),
    ensures
        wrap_delta(cfg.width as int, x2 - x1) != 0 || wrap_delta(cfg.height as int, y2 - y1) != 0,
{
    let w = cfg.width as int;
    let h = cfg.height as int;
    let dx = x2 - x1;
    let dy = y2 - y1;
    if wrap_delta(w, dx) == 0 && wrap_delta(h, dy) == 0 {
        assert(dx == 0 || dx == w || dx == -w);
        assert(dy == 0 || dy == h || dy == -h);
        crate::geom::lemma_axis_gap_zero(1000 * w, 1000 * x2 - 1000 * x1);
        crate::geom::lemma_axis_gap_zero(1000 * h, 1000 * y2 - 1000 * y1);
        crate::geom::lemma_axis_gap_bounds(
            1000 * w,
            (1000 * x2 + v2.x * dt) - (1000 * x1 + v1.x * dt),
        );
        crate::geom::lemma_axis_gap_bounds(
            1000 * h,
            (1000 * y2 + v2.y * dt) - (1000 * y1 + v1.y * dt),
        );
        assert(false);
    }
}

/// The velocity a bounce transfers along either axis is at most four
/// times any common bound on the relative velocity components: the
/// projection onto the line of centres can never amplify it further.
pub proof fn lemma_deflection_bound(
    m_other: int,
    m_sum: int,
    relx: int,
    rely: int,
    dx: int,
    dy: int,
    vb: int,
)
    requires
        0 < m_other <= m_sum,
        0 <= vb,
        mag(relx) <= vb,
        mag(rely) <= vb,
        dx != 0 || dy != 0,
    ensures
        mag(tdiv(2 * m_other * (relx * dx + rely * dy) * dx, (dx * dx + dy * dy) * m_sum)) <= 4
            * vb,
        mag(tdiv(2 * m_other * (relx * dx + rely * dy) * dy, (dx * dx + dy * dy) * m_sum)) <= 4
            * vb,
{
    let dot = relx * dx + rely * dy;
    let nsq = dx * dx + dy * dy;
    let den = nsq * m_sum;
    let s = if mag(dx) >= mag(dy) {
        mag(dx)
    } else {
        mag(dy)
    };
    lemma_mul_bound(relx, dx, vb, s);
    lemma_mul_bound(rely, dy, vb, s);
    assert(mag(dot) <= vb * s + vb * s);
    crate::geom::lemma_mag_sq(dx, dy);
    crate::geom::lemma_mag_sq(dy, dx);
    assert(dx * dx >= 0 && dy * dy >= 0 && (dx != 0 ==> dx * dx >= 1) && (dy != 0 ==> dy * dy
        >= 1)) by (nonlinear_arith);
    assert(s * s <= nsq);
    assert(1 <= nsq);
    assert(1 <= s);
    lemma_mul_bound(2 * m_other, dot, 2 * m_other, vb * s + vb * s);
    lemma_mul_bound(2 * m_other * dot, dx, 2 * m_other * (vb * s + vb * s), s);
    lemma_mul_bound(2 * m_other * dot, dy, 2 * m_other * (vb * s + vb * s), s);
    assert(2 * m_other * (vb * s + vb * s) * s <= den * (4 * vb)) by (nonlinear_arith)
        requires
            s * s <= nsq,
            0 < m_other <= m_sum,
            0 <= vb,
            den == nsq * m_sum,
            1 <= nsq,
            1 <= s,
    ;
    assert(0 < den) by (nonlinear_arith)
        requires
            1 <= nsq,
            0 < m_sum,
            den == nsq * m_sum,
    ;
    lemma_tdiv_mag_le(2 * m_other * dot * dx, den, 4 * vb);
    lemma_tdiv_mag_le(2 * m_other * dot * dy, den, 4 * vb);
}

/// One axis of the momentum bookkeeping: with the exchanged impulse
/// truncated once per body and the loss ratio truncated once per body,
/// the scaled totals agree up to twice the combined mass.
proof fn lemma_axis_momentum(
    lnum: int,
    lden: int,
    m1: int,
    m2: int,
    v1c: int,
    v2c: int,
    a1: int,
    a2: int,
    den: int,
    n1: int,
    n2: int,
)
    requires
        0 < lnum <= lden,
        0 < m1,
        0 < m2,
        0 < den,
        m1 * a1 == m2 * a2,
        mag(tdiv(lnum * (v1c - tdiv(a1, den)), lden)) <= VEL_LIMIT,
        mag(tdiv(lnum * (v2c + tdiv(a2, den)), lden)) <= VEL_LIMIT,
        n1 == clamped(tdiv(lnum * (v1c - tdiv(a1, den)), lden)),
        n2 == clamped(tdiv(lnum * (v2c + tdiv(a2, den)), lden)),
    ensures
        mag(lden * (m1 * n1 + m2 * n2) - lnum * (m1 * v1c + m2 * v2c)) <= 2 * lden * (m1 + m2),
{
    let q1 = tdiv(a1, den);
    let q2 = tdiv(a2, den);
    lemma_tdiv_facts(a1, den);
    lemma_tdiv_facts(a2, den);
    let e1 = a1 - den * q1;
    let e2 = a2 - den * q2;
    assert(mag(e1) <= den - 1 && mag(e2) <= den - 1);
    let xx = m1 * q1 - m2 * q2;
    assert(den * xx == m2 * e2 - m1 * e1) by (nonlinear_arith)
        requires
            xx == m1 * q1 - m2 * q2,
            e1 == a1 - den * q1,
            e2 == a2 - den * q2,
            m1 * a1 == m2 * a2,
    ;
    lemma_mul_bound(m1, e1, m1, den - 1);
    lemma_mul_bound(m2, e2, m2, den - 1);
    lemma_mul_bound(den, xx, den, mag(xx));
    assert(m1 * (den - 1) + m2 * (den - 1) == (m1 + m2) * (den - 1)) by (nonlinear_arith);
    assert(mag(den * xx) <= (m1 + m2) * (den - 1));
    assert(mag(xx) <= m1 + m2 - 1) by (nonlinear_arith)
        requires
            den * mag(xx) <= (m1 + m2) * (den - 1),
            0 < den,
            0 <= mag(xx),
            0 < m1 + m2,
    ;
    let t1 = tdiv(lnum * (v1c - q1), lden);
    let t2 = tdiv(lnum * (v2c + q2), lden);
    assert(n1 == t1 && n2 == t2);
    lemma_tdiv_facts(lnum * (v1c - q1), lden);
    lemma_tdiv_facts(lnum * (v2c + q2), lden);
    let r1e = lnum * (v1c - q1) - lden * t1;
    let r2e = lnum * (v2c + q2) - lden * t2;
    assert(mag(r1e) <= lden - 1 && mag(r2e) <= lden - 1);
    let total = lden * (m1 * t1 + m2 * t2) - lnum * (m1 * v1c + m2 * v2c);
    assert(lden * (m1 * t1) == m1 * (lnum * (v1c - q1)) - m1 * r1e) by (nonlinear_arith)
        requires
            r1e == lnum * (v1c - q1) - lden * t1,
    ;
    assert(lden * (m2 * t2) == m2 * (lnum * (v2c + q2)) - m2 * r2e) by (nonlinear_arith)
        requires
            r2e == lnum * (v2c + q2) - lden * t2,
    ;
    assert(m1 * (lnum * (v1c - q1)) + m2 * (lnum * (v2c + q2)) == lnum * (m1 * v1c + m2 * v2c)
        - lnum * xx) by (nonlinear_arith)
        requires
            xx == m1 * q1 - m2 * q2,
    ;
    assert(total == -(lnum * xx) - (m1 * r1e + m2 * r2e)) by (nonlinear_arith)
        requires
            total == lden * (m1 * t1 + m2 * t2) - lnum * (m1 * v1c + m2 * v2c),
            lden * (m1 * t1) == m1 * (lnum * (v1c - q1)) - m1 * r1e,
            lden * (m2 * t2) == m2 * (lnum * (v2c + q2)) - m2 * r2e,
            m1 * (lnum * (v1c - q1)) + m2 * (lnum * (v2c + q2)) == lnum * (m1 * v1c + m2 * v2c)
                - lnum * xx,
    ;
    lemma_mul_bound(lnum, xx, lden, m1 + m2 - 1);
    lemma_mul_bound(m1, r1e, m1, lden - 1);
    lemma_mul_bound(m2, r2e, m2, lden - 1);
    assert(-(2 * lden * (m1 + m2)) <= total <= 2 * lden * (m1 + m2)) by (nonlinear_arith)
        requires
            total == -(lnum * xx) - (m1 * r1e + m2 * r2e),
            -(lden * (m1 + m2 - 1)) <= lnum * xx <= lden * (m1 + m2 - 1),
            -(m1 * (lden - 1)) <= m1 * r1e <= m1 * (lden - 1),
            -(m2 * (lden - 1)) <= m2 * r2e <= m2 * (lden - 1),
            0 < lden,
            0 < m1,
            0 < m2,
    ;
}

/// For a bounce that applies, the total momentum along each axis comes
/// out scaled by loss_num/loss_den, up to a rounding error of at most
/// two combined-mass units per loss denominator.
pub proof fn lemma_bounce_momentum(
    cfg: Config,
    x1: int,
    y1: int,
    v1: Velocity,
    m1: int,
    x2: int,
    y2: int,
    v2: Velocity,
    m2: int,
    dt: int,
    r1: int,
)
    requires
        cfg.wf(),
        0 < m1 <= MASS_LIMIT,
        0 < m2 <= MASS_LIMIT,
        mag(v1.x as int) <= 100000,
        mag(v1.y as int) <= 100000,
        mag(v2.x as int) <= 100000,
        mag(v2.y as int) <= 100000,
        approaching(cfg, x1, y1, v1, x2, y2, v2, dt),
    ensures
        ({
            let r = bounce_spec(cfg, x1, y1, v1, m1, x2, y2, v2, m2, dt, r1);
            &&& mag(
                cfg.loss_den * (m1 * r.0.x + m2 * r.1.x) - cfg.loss_num * (m1 * v1.x + m2 * v2.x),
            ) <= 2 * cfg.loss_den * (m1 + m2)
            &&& mag(
                cfg.loss_den * (m1 * r.0.y + m2 * r.1.y) - cfg.loss_num * (m1 * v1.y + m2 * v2.y),
            ) <= 2 * cfg.loss_den * (m1 + m2)
        }),
{
    lemma_approaching_separated(cfg, x1, y1, v1, x2, y2, v2, dt);
    let dx = wrap_delta(cfg.width as int, x2 - x1);
    let dy = wrap_delta(cfg.height as int, y2 - y1);
    let nsq = dx * dx + dy * dy;
    let relx = v1.x - v2.x;
    let rely = v1.y - v2.y;
    let dot = relx * dx + rely * dy;
    let den = nsq * (m1 + m2);
    lemma_deflection_bound(m2, m1 + m2, relx, rely, dx, dy, 200000);
    lemma_deflection_bound(m1, m1 + m2, relx, rely, dx, dy, 200000);
    let q1x = tdiv(2 * m2 * dot * dx, den);
    let q1y = tdiv(2 * m2 * dot * dy, den);
    let q2x = tdiv(2 * m1 * dot * dx, den);
    let q2y = tdiv(2 * m1 * dot * dy, den);
    assert(mag(v1.x - q1x) <= 900000);
    assert(mag(v1.y - q1y) <= 900000);
    assert(mag(v2.x + q2x) <= 900000);
    assert(mag(v2.y + q2y) <= 900000);
    lemma_mul_bound(cfg.loss_num as int, v1.x - q1x, cfg.loss_den as int, 900000);
    lemma_mul_bound(cfg.loss_num as int, v1.y - q1y, cfg.loss_den as int, 900000);
    lemma_mul_bound(cfg.loss_num as int, v2.x + q2x, cfg.loss_den as int, 900000);
    lemma_mul_bound(cfg.loss_num as int, v2.y + q2y, cfg.loss_den as int, 900000);
    lemma_tdiv_mag_le(cfg.loss_num * (v1.x - q1x), cfg.loss_den as int, 900000);
    lemma_tdiv_mag_le(cfg.loss_num * (v1.y - q1y), cfg.loss_den as int, 900000);
    lemma_tdiv_mag_le(cfg.loss_num * (v2.x + q2x), cfg.loss_den as int, 900000);
    lemma_tdiv_mag_le(cfg.loss_num * (v2.y + q2y), cfg.loss_den as int, 900000);
    assert(m1 * (2 * m2 * dot * dx) == m2 * (2 * m1 * dot * dx)) by (nonlinear_arith);
    assert(m1 * (2 * m2 * dot * dy) == m2 * (2 * m1 * dot * dy)) by (nonlinear_arith);
    assert(dx * dx >= 0 && dy * dy >= 0 && (dx != 0 ==> dx * dx >= 1) && (dy != 0 ==> dy * dy
        >= 1)) by (nonlinear_arith);
    assert(0 < den) by (nonlinear_arith)
        requires
            1 <= nsq,
            0 < m1 + m2,
            den == nsq * (m1 + m2),
    ;
    lemma_axis_momentum(
        cfg.loss_num as int,
        cfg.loss_den as int,
        m1,
        m2,
        v1.x as int,
        v2.x as int,
        2 * m2 * dot * dx,
        2 * m1 * dot * dx,
        den,
        clamped(tdiv(cfg.loss_num * (v1.x - q1x), cfg.loss_den as int)),
        clamped(tdiv(cfg.loss_num * (v2.x + q2x), cfg.loss_den as int)),
    );
    lemma_axis_momentum(
        cfg.loss_num as int,
        cfg.loss_den as int,
        m1,
        m2,
        v1.y as int,
        v2.y as int,
        2 * m2 * dot * dy,
        2 * m1 * dot * dy,
        den,
        clamped(tdiv(cfg.loss_num * (v1.y - q1y), cfg.loss_den as int)),
        clamped(tdiv(cfg.loss_num * (v2.y + q2y), cfg.loss_den as int)),
    );
}

/// Clamp a wide intermediate into the velocity range.
fn clamp_vel(t: i128) -> (r: i64)
    ensures
        r == clamped(t as int),
{
    if t > VEL_LIMIT as i128 {
        VEL_LIMIT
    } else if t < -(VEL_LIMIT as i128) {
        -VEL_LIMIT
    } else {
        t as i64
    }
}

/// Resolve one potential bounce between two bodies, mutating their
/// velocities in place exactly as `bounce_spec` dictates.  Velocities
/// change only when the bodies are closing in; the returned request, if
/// any, carries the contact point and the shake amplitude.
pub fn collision_bounce(
    cfg: &Config,
    x1: i64,
    y1: i64,
    v1: &mut Velocity,
    m1: i64,
    x2: i64,
    y2: i64,
    v2: &mut Velocity,
    m2: i64,
    dt_ms: i64,
    r1: i64,
) -> (effect: Option<BounceEffect>)
    requires
        cfg.wf(),
        mag(x1 as int) <= POS_LIMIT,
        mag(y1 as int) <= POS_LIMIT,
        mag(x2 as int) <= POS_LIMIT,
        mag(y2 as int) <= POS_LIMIT,
        vel_ok(*old(v1)),
        vel_ok(*old(v2)),
        0 < m1 <= MASS_LIMIT,
        0 < m2 <= MASS_LIMIT,
        0 <= dt_ms <= DT_LIMIT,
        0 < r1 <= POS_LIMIT,
    ensures
        (*final(v1), *final(v2), effect) == bounce_spec(
            *cfg,
            x1 as int,
            y1 as int,
            *old(v1),
            m1 as int,
            x2 as int,
            y2 as int,
            *old(v2),
            m2 as int,
            dt_ms as int,
            r1 as int,
        ),
        vel_ok(*final(v1)),
        vel_ok(*final(v2)),
        !approaching(
            *cfg,
            x1 as int,
            y1 as int,
            *old(v1),
            x2 as int,
            y2 as int,
            *old(v2),
            dt_ms as int,
        ) ==> *final(v1) == *old(v1) && *final(v2) == *old(v2) && effect is None,
{
    let v1x = v1.x;
    let v1y = v1.y;
    let v2x = v2.x;
    let v2y = v2.y;
    proof {
        lemma_mul_bound(v1x as int, dt_ms as int, VEL_LIMIT as int, DT_LIMIT as int);
        lemma_mul_bound(v1y as int, dt_ms as int, VEL_LIMIT as int, DT_LIMIT as int);
        lemma_mul_bound(v2x as int, dt_ms as int, VEL_LIMIT as int, DT_LIMIT as int);
        lemma_mul_bound(v2y as int, dt_ms as int, VEL_LIMIT as int, DT_LIMIT as int);
    }
    let now = dist_sq_spans(
        1000 * cfg.width,
        1000 * cfg.height,
        1000 * x1,
        1000 * y1,
        1000 * x2,
        1000 * y2,
    );
    let fut = dist_sq_spans(
        1000 * cfg.width,
        1000 * cfg.height,
        1000 * x1 + v1x * dt_ms,
        1000 * y1 + v1y * dt_ms,
        1000 * x2 + v2x * dt_ms,
        1000 * y2 + v2y * dt_ms,
    );
    let dxw = wrap_axis(cfg.width, x2 - x1);
    let dyw = wrap_axis(cfg.height, y2 - y1);
    if !(fut < now) || (dxw == 0 && dyw == 0) {
        return None;
    }
    proof {
        lemma_mul_bound(dxw as int, dxw as int, 2 * POS_LIMIT as int, 2 * POS_LIMIT as int);
        lemma_mul_bound(dyw as int, dyw as int, 2 * POS_LIMIT as int, 2 * POS_LIMIT as int);
        if dxw != 0 {
            lemma_mul_bound(dxw as int, dxw as int, mag(dxw as int), mag(dxw as int));
            assert(1 * 1 <= mag(dxw as int) * mag(dxw as int)) by (nonlinear_arith)
                requires
                    1 <= mag(dxw as int),
            ;
        }
        if dyw != 0 {
            lemma_mul_bound(dyw as int, dyw as int, mag(dyw as int), mag(dyw as int));
            assert(1 * 1 <= mag(dyw as int) * mag(dyw as int)) by (nonlinear_arith)
                requires
                    1 <= mag(dyw as int),
            ;
        }
    }
    proof {
        assert((dxw as int) * (dxw as int) >= 0 && (dxw != 0 ==> (dxw as int) * (dxw as int)
            >= 1)) by (nonlinear_arith);
        assert((dyw as int) * (dyw as int) >= 0 && (dyw != 0 ==> (dyw as int) * (dyw as int)
            >= 1)) by (nonlinear_arith);
    }
    let nsq = (dxw as i128) * (dxw as i128) + (dyw as i128) * (dyw as i128);
    assert(1 <= nsq);
    let relx = v1x - v2x;
    let rely = v1y - v2y;
    proof {
        lemma_mul_bound(relx as int, dxw as int, 2 * VEL_LIMIT as int, 2 * POS_LIMIT as int);
        lemma_mul_bound(rely as int, dyw as int, 2 * VEL_LIMIT as int, 2 * POS_LIMIT as int);
    }
    let dot = (relx as i128) * (dxw as i128) + (rely as i128) * (dyw as i128);
    let msum = (m1 as i128) + (m2 as i128);
    proof {
        lemma_mul_bound(nsq as int, msum as int, 8 * POS_LIMIT as int * POS_LIMIT as int, 2
            * MASS_LIMIT as int);
        lemma_mul_bound(2 * m2 as int, dot as int, 2 * MASS_LIMIT as int, 8 * VEL_LIMIT as int
            * POS_LIMIT as int);
        lemma_mul_bound(2 * m1 as int, dot as int, 2 * MASS_LIMIT as int, 8 * VEL_LIMIT as int
            * POS_LIMIT as int);
        lemma_mul_bound(
            2 * m2 * dot as int,
            dxw as int,
            32 * MASS_LIMIT as int * VEL_LIMIT as int * POS_LIMIT as int,
            2 * POS_LIMIT as int,
        );
        lemma_mul_bound(
            2 * m2 * dot as int,
            dyw as int,
            32 * MASS_LIMIT as int * VEL_LIMIT as int * POS_LIMIT as int,
            2 * POS_LIMIT as int,
        );
        lemma_mul_bound(
            2 * m1 * dot as int,
            dxw as int,
            32 * MASS_LIMIT as int * VEL_LIMIT as int * POS_LIMIT as int,
            2 * POS_LIMIT as int,
        );
        lemma_mul_bound(
            2 * m1 * dot as int,
            dyw as int,
            32 * MASS_LIMIT as int * VEL_LIMIT as int * POS_LIMIT as int,
            2 * POS_LIMIT as int,
        );
    }
    let den = nsq * msum;
    proof {
        assert(den >= 1) by (nonlinear_arith)
            requires
                den == nsq * msum,
                1 <= nsq,
                1 <= msum,
        ;
    }
    let q1x = tdiv_i128(2 * (m2 as i128) * dot * (dxw as i128), den);
    let q1y = tdiv_i128(2 * (m2 as i128) * dot * (dyw as i128), den);
    let q2x = tdiv_i128(2 * (m1 as i128) * dot * (dxw as i128), den);
    let q2y = tdiv_i128(2 * (m1 as i128) * dot * (dyw as i128), den);
    proof {
        lemma_tdiv_facts((2 * (m2 as i128) * dot * (dxw as i128)) as int, den as int);
        lemma_tdiv_facts((2 * (m2 as i128) * dot * (dyw as i128)) as int, den as int);
        lemma_tdiv_facts((2 * (m1 as i128) * dot * (dxw as i128)) as int, den as int);
        lemma_tdiv_facts((2 * (m1 as i128) * dot * (dyw as i128)) as int, den as int);
        lemma_mul_bound(
            cfg.loss_num as int,
            (v1x as i128 - q1x) as int,
            1000,
            VEL_LIMIT as int + mag(q1x as int),
        );
        lemma_mul_bound(
            cfg.loss_num as int,
            (v1y as i128 - q1y) as int,
            1000,
            VEL_LIMIT as int + mag(q1y as int),
        );
        lemma_mul_bound(
            cfg.loss_num as int,
            (v2x as i128 + q2x) as int,
            1000,
            VEL_LIMIT as int + mag(q2x as int),
        );
        lemma_mul_bound(
            cfg.loss_num as int,
            (v2y as i128 + q2y) as int,
            1000,
            VEL_LIMIT as int + mag(q2y as int),
        );
    }
    let n1x = clamp_vel(tdiv_i128((cfg.loss_num as i128) * ((v1x as i128) - q1x), cfg.loss_den
        as i128));
    let n1y = clamp_vel(tdiv_i128((cfg.loss_num as i128) * ((v1y as i128) - q1y), cfg.loss_den
        as i128));
    let n2x = clamp_vel(tdiv_i128((cfg.loss_num as i128) * ((v2x as i128) + q2x), cfg.loss_den
        as i128));
    let n2y = clamp_vel(tdiv_i128((cfg.loss_num as i128) * ((v2y as i128) + q2y), cfg.loss_den
        as i128));
    let dvx = v1x - n1x;
    let dvy = v1y - n1y;
    proof {
        lemma_mul_bound(dvx as int, dvx as int, 2 * VEL_LIMIT as int, 2 * VEL_LIMIT as int);
        lemma_mul_bound(dvy as int, dvy as int, 2 * VEL_LIMIT as int, 2 * VEL_LIMIT as int);
        assert((dvx as int) * (dvx as int) >= 0 && (dvy as int) * (dvy as int) >= 0)
            by (nonlinear_arith);
    }
    let shift = isqrt(dvx * dvx + dvy * dvy);
    proof {
        lemma_sqrt_floor((dvx * dvx + dvy * dvy) as int);
        assert(shift as int <= 4 * VEL_LIMIT as int) by (nonlinear_arith)
            requires
                0 <= shift as int,
                (shift as int) * (shift as int) <= (dvx * dvx + dvy * dvy) as int,
                (dvx * dvx + dvy * dvy) as int <= 8 * (VEL_LIMIT as int) * (VEL_LIMIT as int),
                0 < VEL_LIMIT as int,
        ;
        lemma_mul_bound(m1 as int, shift as int, MASS_LIMIT as int, 4 * VEL_LIMIT as int);
    }
    let change = m1 * shift;
    let amp0 = tdiv_i64(1000 * change, cfg.shake_divisor);
    proof {
        lemma_tdiv_facts((1000 * change) as int, cfg.shake_divisor as int);
    }
    let amp = if amp0 <= cfg.shake_max_milli {
        amp0
    } else {
        cfg.shake_max_milli
    };
    proof {
        lemma_sqrt_floor(nsq as int);
        crate::num::lemma_sq_mono(1, sqrt_floor(nsq as int));
    }
    assert(nsq <= 0x7fffffffffffffff);
    let dist = isqrt(nsq as i64);
    assert(dist >= 1);
    proof {
        lemma_mul_bound(r1 as int, dxw as int, POS_LIMIT as int, 2 * POS_LIMIT as int);
        lemma_mul_bound(r1 as int, dyw as int, POS_LIMIT as int, 2 * POS_LIMIT as int);
        lemma_tdiv_facts((r1 * dxw) as int, dist as int);
        lemma_tdiv_facts((r1 * dyw) as int, dist as int);
    }
    let cx = x1 + tdiv_i64(r1 * dxw, dist);
    let cy = y1 + tdiv_i64(r1 * dyw, dist);
    v1.x = n1x;
    v1.y = n1y;
    v2.x = n2x;
    v2.y = n2y;
    Some(BounceEffect { contact_x: cx, contact_y: cy, amplitude_milli: amp })
}

} // verus!
