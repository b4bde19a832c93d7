//! Physics and collision core of a toroidal-playfield arcade shooter.
//!
//! Entities move on a rectangular playfield whose opposite edges are
//! identified, so every distance is the shortest one over the wrapped
//! copies of a point.  The library computes toroidal distances, detects
//! pairwise collisions, resolves elastic bounces with a fixed momentum
//! loss, splits destroyed asteroids into fragments, and searches for
//! spawn positions that keep a minimum separation from occupied ones.
//!
//! All quantities are integers.  A caller picks the unit (whole window
//! units, thousandths of a unit, ...) by scaling the configuration and
//! every coordinate consistently; the contracts are exact statements
//! about the integer arithmetic performed.

use vstd::prelude::*;

pub mod bounce;
pub mod config;
pub mod detect;
pub mod entity;
pub mod fragments;
pub mod geom;
pub mod num;
pub mod placement;
mod rng;
pub mod ship;
pub mod state;
pub mod trig;

pub use bounce::{BounceEffect, collision_bounce, shake_amplitude};
pub use config::Config;
pub use detect::{Body, Request, collision_detection, lifetime_expired};
pub use entity::{Angle, AsteroidSize, ChargeLevel, CollisionType, Mass, Radius, Velocity};
pub use fragments::{Fragment, spawn_asteroid_fragments, spawn_asteroid_fragments_random};
pub use geom::{closest_position, edge_looping, movement_translation, normalize_angle,
    shortest_distance, shortest_distance_sq};
pub use placement::{first_free_position, initial_asteroid_positions, is_position_free,
    random_free_position};
pub use ship::{Energy, charge_bullet, drain_energy, gain_energy, shield_activation_allowed};
pub use state::AppState;

verus! {

} // verus!
