//! Ship bookkeeping rules: energy regeneration and shield drain, fire
//! charge accumulation, and the shield activation threshold.  Energy
//! and charge are carried in thousandths of a unit.

use vstd::prelude::*;
use crate::config::DT_LIMIT;
use crate::num::{imin, tdiv, tdiv_i64, lemma_tdiv_facts, lemma_mul_bound};

verus! {

/// A full energy tank, in thousandths.
pub const ENERGY_FULL_MILLI: i64 = 100000;

/// Energy needed to raise the shield, in thousandths.
pub const SHIELD_THRESHOLD_MILLI: i64 = 20000;

/// Energy the shield consumes per second, in whole units.
pub const SHIELD_DRAIN_PER_S: i64 = 100;

/// The largest charge a bullet can accumulate, in thousandths.
pub const CHARGE_MAX_MILLI: i64 = 2000;

/// Working range of the energy and charge bookkeeping.
pub const ENERGY_RANGE: i64 = 1000000000;

/// A ship's shield energy, in thousandths of a unit.
#[derive(Clone, Copy, Debug, PartialEq, Eq, Structural)]
pub struct Energy(pub i64);

impl Default for Energy {
    /// A fresh ship starts with a full tank.
    fn default() -> (e: Energy)
        ensures
            e.0 == ENERGY_FULL_MILLI,
    {
        Energy(ENERGY_FULL_MILLI)
    }
}

/// Energy regained over one frame: the regeneration rate applied for
/// the frame time, saturating at a full tank.
pub fn gain_energy(energy_milli: i64, regen_milli_per_s: i64, dt_ms: i64) -> (e: i64)
    requires
        -ENERGY_RANGE <= energy_milli <= ENERGY_RANGE,
        0 <= regen_milli_per_s <= ENERGY_RANGE,
        0 <= dt_ms <= DT_LIMIT,
    ensures
        e == imin(energy_milli + tdiv(regen_milli_per_s * dt_ms, 1000), ENERGY_FULL_MILLI as int),
{
    proof {
        lemma_mul_bound(regen_milli_per_s as int, dt_ms as int, ENERGY_RANGE as int, DT_LIMIT as int);
        lemma_tdiv_facts((regen_milli_per_s * dt_ms) as int, 1000);
    }
    let e = energy_milli + tdiv_i64(regen_milli_per_s * dt_ms, 1000);
    if e >= ENERGY_FULL_MILLI {
        ENERGY_FULL_MILLI
    } else {
        e
    }
}

/// Shield upkeep over one frame: the raised shield drains a fixed
/// power; the second component says whether it stays up, which it does
/// exactly while some energy remains.
pub fn drain_energy(energy_milli: i64, dt_ms: i64) -> (r: (i64, bool))
    requires
        -ENERGY_RANGE <= energy_milli <= ENERGY_RANGE,
        0 <= dt_ms <= DT_LIMIT,
    ensures
        r.0 == energy_milli - SHIELD_DRAIN_PER_S * dt_ms,
        r.1 == (r.0 > 0),
{
    let e = energy_milli - SHIELD_DRAIN_PER_S * dt_ms;
    (e, e > 0)
}

/// Fire charge accumulated while the trigger is held, saturating at
/// the full two-unit charge.
pub fn charge_bullet(charge_milli: i64, rate_milli_per_s: i64, dt_ms: i64) -> (c: i64)
    requires
        0 <= charge_milli <= ENERGY_RANGE,
        0 <= rate_milli_per_s <= ENERGY_RANGE,
        0 <= dt_ms <= DT_LIMIT,
    ensures
        c == imin(charge_milli + tdiv(rate_milli_per_s * dt_ms, 1000), CHARGE_MAX_MILLI as int),
{
    proof {
        lemma_mul_bound(rate_milli_per_s as int, dt_ms as int, ENERGY_RANGE as int, DT_LIMIT as int);
        lemma_tdiv_facts((rate_milli_per_s * dt_ms) as int, 1000);
    }
    let c = charge_milli + tdiv_i64(rate_milli_per_s * dt_ms, 1000);
    if c > CHARGE_MAX_MILLI {
        CHARGE_MAX_MILLI
    } else {
        c
    }
}

/// The shield may only be raised with strictly more than the threshold
/// energy in the tank.
pub fn shield_activation_allowed(energy_milli: i64) -> (r: bool)
    ensures
        r == (energy_milli > SHIELD_THRESHOLD_MILLI),
{
    energy_milli > SHIELD_THRESHOLD_MILLI
}

} // verus!
