use cometbuster::{collision_detection, lifetime_expired, AsteroidSize, Body, CollisionType,
    Config, Request, Velocity};

fn cfg() -> Config {
    Config::default()
}

fn ship(x: i64, y: i64) -> Body {
    Body {
        x,
        y,
        velocity: Velocity { x: 0, y: 0 },
        mass: 30,
        radius: 34,
        kind: CollisionType::Ship,
        size: None,
        charge_milli: None,
        age_ms: None,
    }
}

fn asteroid(x: i64, y: i64, size: AsteroidSize, vx: i64, vy: i64) -> Body {
    Body {
        x,
        y,
        velocity: Velocity { x: vx, y: vy },
        mass: 100,
        radius: 88,
        kind: CollisionType::Asteroid,
        size: Some(size),
        charge_milli: None,
        age_ms: None,
    }
}

fn bullet(x: i64, y: i64, charge_milli: i64, age_ms: i64, vx: i64) -> Body {
    Body {
        x,
        y,
        velocity: Velocity { x: vx, y: 0 },
        mass: 10,
        radius: 4,
        kind: CollisionType::Bullet,
        size: None,
        charge_milli: Some(charge_milli),
        age_ms: Some(age_ms),
    }
}

fn shield(x: i64, y: i64) -> Body {
    Body {
        x,
        y,
        velocity: Velocity { x: 0, y: 0 },
        mass: 30,
        radius: 30,
        kind: CollisionType::Shield,
        size: None,
        charge_milli: None,
        age_ms: None,
    }
}

#[test]
fn ship_hit_by_asteroid_despawns_only_the_ship() {
    let c = cfg();
    let mut bodies = vec![ship(0, 0), asteroid(50, 0, AsteroidSize::Big, 0, 0)];
    let requests = collision_detection(&c, &mut bodies, 16);
    // distance 50 < 34 + 88: exactly one despawn request, for the ship
    assert_eq!(requests, vec![Request::Despawn { index: 0 }]);
    assert_eq!(bodies[0].velocity, Velocity { x: 0, y: 0 });
    assert_eq!(bodies[1].velocity, Velocity { x: 0, y: 0 });
}

#[test]
fn distant_pair_is_ignored() {
    let c = cfg();
    let mut bodies = vec![ship(0, 0), asteroid(400, 0, AsteroidSize::Big, 0, 0)];
    let requests = collision_detection(&c, &mut bodies, 16);
    assert!(requests.is_empty());
}

#[test]
fn charged_bullet_splits_the_asteroid() {
    let c = cfg();
    let mut bodies = vec![
        asteroid(0, 0, AsteroidSize::Big, 10, 0),
        bullet(50, 0, 2000, 500, -100),
    ];
    let requests = collision_detection(&c, &mut bodies, 16);
    assert_eq!(
        requests,
        vec![
            Request::Despawn { index: 1 },
            Request::Despawn { index: 0 },
            Request::SpawnFragments {
                x: 0,
                y: 0,
                velocity: Velocity { x: 10, y: 0 },
                size_destroyed: AsteroidSize::Big,
            },
        ]
    );
}

#[test]
fn weak_bullet_only_deflects() {
    let c = cfg();
    let mut bodies = vec![
        asteroid(0, 0, AsteroidSize::Big, 0, 0),
        bullet(50, 0, 500, 500, -100),
    ];
    let requests = collision_detection(&c, &mut bodies, 16);
    assert_eq!(requests.len(), 1);
    assert!(matches!(requests[0], Request::BounceEffect { .. }));
    // the bullet deflected off the heavier asteroid
    assert_ne!(bodies[1].velocity, Velocity { x: -100, y: 0 });
}

#[test]
fn medium_threshold_is_one_unit() {
    let c = cfg();
    let mut bodies = vec![
        asteroid(0, 0, AsteroidSize::Medium, 0, 0),
        bullet(50, 0, 1000, 500, -100),
    ];
    let requests = collision_detection(&c, &mut bodies, 16);
    assert_eq!(requests.len(), 3);
    assert_eq!(requests[0], Request::Despawn { index: 1 });
}

#[test]
fn small_asteroid_dies_to_any_charge() {
    let c = cfg();
    let mut bodies = vec![
        bullet(50, 0, 0, 500, -100),
        asteroid(0, 0, AsteroidSize::Small, 0, 0),
    ];
    let requests = collision_detection(&c, &mut bodies, 16);
    // bullet first, asteroid second, then the split request
    assert_eq!(
        requests,
        vec![
            Request::Despawn { index: 0 },
            Request::Despawn { index: 1 },
            Request::SpawnFragments {
                x: 0,
                y: 0,
                velocity: Velocity { x: 0, y: 0 },
                size_destroyed: AsteroidSize::Small,
            },
        ]
    );
}

#[test]
fn asteroids_bounce_off_each_other() {
    let c = cfg();
    let mut bodies = vec![
        asteroid(-80, 0, AsteroidSize::Big, 50, 0),
        asteroid(80, 0, AsteroidSize::Big, -50, 0),
    ];
    let requests = collision_detection(&c, &mut bodies, 16);
    assert_eq!(requests.len(), 1);
    assert!(matches!(requests[0], Request::BounceEffect { .. }));
    assert_eq!(bodies[0].velocity, Velocity { x: -47, y: 0 });
    assert_eq!(bodies[1].velocity, Velocity { x: 47, y: 0 });
}

#[test]
fn shield_impact_emits_ripple_request() {
    let c = cfg();
    let mut bodies = vec![shield(0, 0), asteroid(60, 0, AsteroidSize::Big, -50, 0)];
    let requests = collision_detection(&c, &mut bodies, 16);
    assert_eq!(requests.len(), 2);
    assert!(matches!(requests[0], Request::BounceEffect { .. }));
    assert_eq!(
        requests[1],
        Request::ShieldCollision { shield_x: 0, shield_y: 0, other_x: 60, other_y: 0 }
    );
}

#[test]
fn fresh_bullet_cannot_hit_its_shooter() {
    let c = cfg();
    let mut bodies = vec![ship(0, 0), bullet(10, 0, 1500, 100, 40)];
    let requests = collision_detection(&c, &mut bodies, 16);
    assert!(requests.is_empty());
    assert_eq!(bodies[1].velocity, Velocity { x: 40, y: 0 });
}

#[test]
fn aged_charged_bullet_kills_the_ship() {
    let c = cfg();
    let mut bodies = vec![ship(0, 0), bullet(10, 0, 1500, 300, 40)];
    let requests = collision_detection(&c, &mut bodies, 16);
    assert_eq!(
        requests,
        vec![Request::Despawn { index: 0 }, Request::Despawn { index: 1 }]
    );
}

#[test]
fn aged_weak_bullet_bounces_off_the_ship() {
    let c = cfg();
    let mut bodies = vec![ship(0, 0), bullet(10, 0, 1000, 300, -40)];
    let requests = collision_detection(&c, &mut bodies, 16);
    assert_eq!(requests.len(), 1);
    assert!(matches!(requests[0], Request::BounceEffect { .. }));
}

#[test]
fn later_pairs_see_earlier_mutations() {
    let c = cfg();
    // three asteroids in a row; the first pair bounces, and the middle
    // one's already-mutated velocity is what the second pair examines
    let mut bodies = vec![
        asteroid(-80, 0, AsteroidSize::Big, 50, 0),
        asteroid(80, 0, AsteroidSize::Big, -50, 0),
        asteroid(240, 0, AsteroidSize::Big, -10, 0),
    ];
    let requests = collision_detection(&c, &mut bodies, 16);
    // pair (0,1) bounces and leaves the middle asteroid at 47; pair
    // (1,2) then sees that mutated velocity and bounces again; pair
    // (0,2) is out of range
    assert_eq!(requests.len(), 2);
    assert!(matches!(requests[0], Request::BounceEffect { .. }));
    assert!(matches!(requests[1], Request::BounceEffect { .. }));
    assert_eq!(bodies[0].velocity, Velocity { x: -47, y: 0 });
    assert_eq!(bodies[1].velocity, Velocity { x: -9, y: 0 });
    assert_eq!(bodies[2].velocity, Velocity { x: 44, y: 0 });
}

#[test]
fn lifetime_expiry_is_strict() {
    assert!(!lifetime_expired(1000, 1000));
    assert!(lifetime_expired(1001, 1000));
    assert!(!lifetime_expired(0, 1000));
}
