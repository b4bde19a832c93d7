//! Playfield and rule configuration.
//!
//! Every tunable of the physics core lives here as a named value: the
//! playfield extent, the bounce loss factor, the bullet thresholds, the
//! fragment geometry and the placement separation.  Ratios are stored as
//! integer numerator/denominator pairs; quantities the rules state in
//! fractional units (charge levels, energy, screen-shake amplitudes)
//! are carried in thousandths.

use vstd::prelude::*;

verus! {

/// Largest coordinate magnitude the contracts admit; leaves headroom so
/// that every intermediate product of the solvers fits in 128 bits.
pub const POS_LIMIT: i64 = 8388608;

/// Largest velocity-component magnitude; bounce results are clamped to
/// this range so a detection pass keeps every body well formed.
pub const VEL_LIMIT: i64 = 8388608;

/// Largest admissible mass.
pub const MASS_LIMIT: i64 = 8388608;

/// Largest admissible frame time step, in milliseconds.
pub const DT_LIMIT: i64 = 10000;

/// Rule and geometry configuration for one playfield.
#[derive(Clone, Copy, Debug, PartialEq, Eq, Structural)]
pub struct Config {
    /// Playfield width; x wraps modulo this span.
    pub width: i64,
    /// Playfield height; y wraps modulo this span.
    pub height: i64,
    /// Minimum toroidal distance a freshly placed entity keeps from
    /// every occupied position.
    pub min_separation: i64,
    /// Numerator of the momentum retained by a bounce (19/20 = 0.95).
    pub loss_num: i64,
    /// Denominator of the momentum retained by a bounce.
    pub loss_den: i64,
    /// Grace period in milliseconds during which a fresh bullet cannot
    /// hit the ship that fired it.
    pub grace_ms: i64,
    /// Charge (in thousandths) a bullet needs to destroy a Big asteroid.
    pub charge_big: i64,
    /// Charge (in thousandths) a bullet needs to destroy a Medium
    /// asteroid, and the level it must exceed to destroy a ship.
    pub charge_medium: i64,
    /// Numerator of the fragment circle radius as a fraction of the
    /// parent radius (27/50 = 0.54).
    pub frag_radius_num: i64,
    /// Denominator of the fragment circle radius fraction.
    pub frag_radius_den: i64,
    /// Numerator of the parent velocity retained by a fragment
    /// (9/10 = 0.9).
    pub retain_num: i64,
    /// Denominator of the retained fragment velocity fraction.
    pub retain_den: i64,
    /// Magnitude bound of the random per-axis velocity perturbation
    /// added to each fragment.
    pub frag_jitter: i64,
    /// Momentum change per unit of screen-shake amplitude.
    pub shake_divisor: i64,
    /// Cap of the screen-shake amplitude, in thousandths.
    pub shake_max_milli: i64,
}

impl Config {
    /// The configuration is usable: extents are positive, even and within
    /// range, and every ratio is a positive fraction of at most one.
    pub open spec fn wf(self) -> bool {
        &&& 0 < self.width <= POS_LIMIT
        &&& self.width % 2 == 0
        &&& 0 < self.height <= POS_LIMIT
        &&& self.height % 2 == 0
        &&& 0 <= self.min_separation <= POS_LIMIT
        &&& 0 < self.loss_num <= self.loss_den <= 1000
        &&& 0 <= self.grace_ms <= 1000000
        &&& 0 <= self.charge_medium <= self.charge_big <= 1000000
        &&& 0 < self.frag_radius_num <= self.frag_radius_den <= 1000
        &&& 0 < self.retain_num <= self.retain_den <= 1000
        &&& 0 <= self.frag_jitter <= VEL_LIMIT
        &&& 0 < self.shake_divisor <= 1000000000
        &&& 0 <= self.shake_max_milli <= 1000000000
    }
}

impl Default for Config {
    /// The standard rules at whole-unit scale: a 1280x720
    /// window, 0.95 bounce retention, a 200 ms bullet grace period,
    /// charge thresholds 2.0/1.0, fragments on a 0.54-radius circle
    /// keeping 0.9 of the parent velocity with jitter up to 80, and a
    /// 200-unit placement separation.
    fn default() -> (c: Config)
        ensures
            c.wf(),
            c.width == 1280,
            c.height == 720,
            c.min_separation == 200,
            c.loss_num == 19,
            c.loss_den == 20,
            c.grace_ms == 200,
            c.charge_big == 2000,
            c.charge_medium == 1000,
            c.frag_radius_num == 27,
            c.frag_radius_den == 50,
            c.retain_num == 9,
            c.retain_den == 10,
            c.frag_jitter == 80,
            c.shake_divisor == 5000,
            c.shake_max_milli == 10000,
    {
        Config {
            width: 1280,
            height: 720,
            min_separation: 200,
            loss_num: 19,
            loss_den: 20,
            grace_ms: 200,
            charge_big: 2000,
            charge_medium: 1000,
            frag_radius_num: 27,
            frag_radius_den: 50,
            retain_num: 9,
            retain_den: 10,
            frag_jitter: 80,
            shake_divisor: 5000,
            shake_max_milli: 10000,
        }
    }
}

} // verus!
