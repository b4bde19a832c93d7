//! The physics-relevant components of an entity: velocity, mass,
//! radius, charge, the collision-type tag and the asteroid size class.

use vstd::prelude::*;

verus! {

/// Default mass of a ship.
pub const SHIP_MASS: i64 = 30;

/// Default collision radius of a ship.
pub const SHIP_RADIUS: i64 = 34;

/// Default mass of a bullet.
pub const BULLET_MASS: i64 = 10;

/// Default collision radius of a bullet.
pub const BULLET_RADIUS: i64 = 4;

/// Default collision radius of a shield.
pub const SHIELD_RADIUS: i64 = 30;

/// A 2D velocity vector, mutated in place by the bounce solver.
#[derive(Clone, Copy, Debug, PartialEq, Eq, Structural)]
pub struct Velocity {
    pub x: i64,
    pub y: i64,
}

impl Default for Velocity {
    /// A body at rest.
    fn default() -> (v: Velocity)
        ensures
            v.x == 0 && v.y == 0,
    {
        Velocity { x: 0, y: 0 }
    }
}

/// Facing angle, in thousandths of a degree.
#[derive(Clone, Copy, Debug, PartialEq, Eq, Structural)]
pub struct Angle(pub i64);

impl Default for Angle {
    /// Facing straight up: a quarter turn.
    fn default() -> (a: Angle)
        ensures
            a.0 == 90000,
    {
        Angle(90000)
    }
}

/// Mass of a physics entity; positive for every valid body.
#[derive(Clone, Copy, Debug, PartialEq, Eq, Structural)]
pub struct Mass(pub i64);

impl Default for Mass {
    /// The all-purpose default mass of a physics body.
    fn default() -> (m: Mass)
        ensures
            m.0 == 100,
    {
        Mass(100)
    }
}

/// Radius of the circular collision envelope; positive for every valid
/// body.
#[derive(Clone, Copy, Debug, PartialEq, Eq, Structural)]
pub struct Radius(pub i64);

impl Default for Radius {
    /// The all-purpose default radius of a physics body.
    fn default() -> (r: Radius)
        ensures
            r.0 == 20,
    {
        Radius(20)
    }
}

/// A bullet's accumulated power, in thousandths of a charge level
/// (0 to 2000).
#[derive(Clone, Copy, Debug, PartialEq, Eq, Structural)]
pub struct ChargeLevel(pub i64);

impl Default for ChargeLevel {
    /// An uncharged bullet.
    fn default() -> (c: ChargeLevel)
        ensures
            c.0 == 0,
    {
        ChargeLevel(0)
    }
}

/// The closed set of collision classes; dispatch is decided by the
/// unordered pair of these tags.
#[derive(Clone, Copy, Debug, PartialEq, Eq, Structural)]
pub enum CollisionType {
    Ship,
    Asteroid,
    Shield,
    Bullet,
}

impl CollisionType {
    /// The tag is `Ship`.
    pub fn is_ship(&self) -> (r: bool)
        ensures
            r == (*self is Ship),
    {
        matches!(*self, CollisionType::Ship)
    }

    /// The tag is `Asteroid`.
    pub fn is_asteroid(&self) -> (r: bool)
        ensures
            r == (*self is Asteroid),
    {
        matches!(*self, CollisionType::Asteroid)
    }

    /// The tag is `Shield`.
    pub fn is_shield(&self) -> (r: bool)
        ensures
            r == (*self is Shield),
    {
        matches!(*self, CollisionType::Shield)
    }

    /// The tag is `Bullet`.
    pub fn is_bullet(&self) -> (r: bool)
        ensures
            r == (*self is Bullet),
    {
        matches!(*self, CollisionType::Bullet)
    }
}

/// Size class of an asteroid: decides whether a hit destroys or splits
/// it, and which size its fragments take.
#[derive(Clone, Copy, Debug, PartialEq, Eq, Structural)]
pub enum AsteroidSize {
    Small,
    Medium,
    Big,
}

/// The size of the fragments a destroyed asteroid of the given size
/// leaves behind; a Small asteroid is terminal.
pub open spec fn split_size(s: AsteroidSize) -> Option<AsteroidSize> {
    match s {
        AsteroidSize::Big => Some(AsteroidSize::Medium),
        AsteroidSize::Medium => Some(AsteroidSize::Small),
        AsteroidSize::Small => None,
    }
}

impl AsteroidSize {
    /// The size is `Small`.
    pub fn is_small(&self) -> (r: bool)
        ensures
            r == (*self is Small),
    {
        matches!(*self, AsteroidSize::Small)
    }

    /// The size is `Medium`.
    pub fn is_medium(&self) -> (r: bool)
        ensures
            r == (*self is Medium),
    {
        matches!(*self, AsteroidSize::Medium)
    }

    /// The size is `Big`.
    pub fn is_big(&self) -> (r: bool)
        ensures
            r == (*self is Big),
    {
        matches!(*self, AsteroidSize::Big)
    }

    /// The size fragments of this asteroid take when it is destroyed,
    /// if any.
    pub fn fragment_size(&self) -> (r: Option<AsteroidSize>)
        ensures
            r == split_size(*self),
    {
        match *self {
            AsteroidSize::Big => Some(AsteroidSize::Medium),
            AsteroidSize::Medium => Some(AsteroidSize::Small),
            AsteroidSize::Small => None,
        }
    }

    /// Default mass of an asteroid of this size.
    pub fn default_mass(&self) -> (m: i64)
        ensures
            *self is Big ==> m == 100,
            *self is Medium ==> m == 50,
            *self is Small ==> m == 20,
    {
        match *self {
            AsteroidSize::Big => 100,
            AsteroidSize::Medium => 50,
            AsteroidSize::Small => 20,
        }
    }

    /// Default collision radius of an asteroid of this size.
    pub fn default_radius(&self) -> (r: i64)
        ensures
            *self is Big ==> r == 88,
            *self is Medium ==> r == 39,
            *self is Small ==> r == 17,
    {
        match *self {
            AsteroidSize::Big => 88,
            AsteroidSize::Medium => 39,
            AsteroidSize::Small => 17,
        }
    }
}

} // verus!
