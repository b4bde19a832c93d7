use cometbuster::{charge_bullet, drain_energy, gain_energy, shield_activation_allowed, Angle,
    AppState, AsteroidSize, ChargeLevel, CollisionType, Config, Energy, Mass, Radius, Velocity};

#[test]
fn config_default_matches_the_standard_rules() {
    let c = Config::default();
    assert_eq!((c.width, c.height), (1280, 720));
    assert_eq!(c.min_separation, 200);
    assert_eq!((c.loss_num, c.loss_den), (19, 20));
    assert_eq!(c.grace_ms, 200);
    assert_eq!((c.charge_big, c.charge_medium), (2000, 1000));
    assert_eq!((c.frag_radius_num, c.frag_radius_den), (27, 50));
    assert_eq!((c.retain_num, c.retain_den), (9, 10));
    assert_eq!(c.frag_jitter, 80);
    assert_eq!((c.shake_divisor, c.shake_max_milli), (5000, 10000));
}

#[test]
fn component_defaults_match_the_bundles() {
    assert_eq!(Mass::default().0, 100);
    assert_eq!(Radius::default().0, 20);
    assert_eq!(ChargeLevel::default().0, 0);
    assert_eq!(Velocity::default(), Velocity { x: 0, y: 0 });
    assert_eq!(Angle::default().0, 90000);
    assert_eq!(Energy::default().0, 100000);
}

#[test]
fn collision_tags_answer_their_queries() {
    assert!(CollisionType::Ship.is_ship());
    assert!(!CollisionType::Ship.is_asteroid());
    assert!(CollisionType::Asteroid.is_asteroid());
    assert!(CollisionType::Shield.is_shield());
    assert!(CollisionType::Bullet.is_bullet());
    assert!(!CollisionType::Bullet.is_shield());
}

#[test]
fn sizes_answer_their_queries_and_split_down() {
    assert!(AsteroidSize::Small.is_small());
    assert!(AsteroidSize::Medium.is_medium());
    assert!(AsteroidSize::Big.is_big());
    assert_eq!(AsteroidSize::Big.fragment_size(), Some(AsteroidSize::Medium));
    assert_eq!(AsteroidSize::Medium.fragment_size(), Some(AsteroidSize::Small));
    assert_eq!(AsteroidSize::Small.fragment_size(), None);
    assert_eq!(AsteroidSize::Big.default_mass(), 100);
    assert_eq!(AsteroidSize::Big.default_radius(), 88);
    assert_eq!(AsteroidSize::Medium.default_mass(), 50);
    assert_eq!(AsteroidSize::Medium.default_radius(), 39);
    assert_eq!(AsteroidSize::Small.default_mass(), 20);
    assert_eq!(AsteroidSize::Small.default_radius(), 17);
}

#[test]
fn energy_regenerates_and_saturates() {
    // 20 units/s for one second on a nearly full tank tops out at 100
    assert_eq!(gain_energy(99000, 20000, 1000), 100000);
    assert_eq!(gain_energy(50000, 20000, 500), 60000);
    // recovery from an overdrained (negative) tank
    assert_eq!(gain_energy(-5000, 20000, 1000), 15000);
}

#[test]
fn shield_drains_and_drops_at_empty() {
    let (e, up) = drain_energy(50000, 100);
    assert_eq!(e, 40000);
    assert!(up);
    let (e2, up2) = drain_energy(5000, 100);
    assert_eq!(e2, -5000);
    assert!(!up2);
    let (e3, up3) = drain_energy(100, 1);
    assert_eq!(e3, 0);
    assert!(!up3);
}

#[test]
fn charge_accumulates_and_caps_at_two() {
    assert_eq!(charge_bullet(1500, 3000, 1000), 2000);
    assert_eq!(charge_bullet(0, 3000, 200), 600);
    assert_eq!(charge_bullet(2000, 3000, 16), 2000);
}

#[test]
fn shield_needs_more_than_twenty_energy() {
    assert!(!shield_activation_allowed(20000));
    assert!(shield_activation_allowed(20001));
    assert!(!shield_activation_allowed(-100));
}

#[test]
fn escape_toggles_the_pause() {
    assert_eq!(AppState::InGame.pause_transition(true), AppState::Paused);
    assert_eq!(AppState::Paused.pause_transition(true), AppState::InGame);
    assert_eq!(AppState::InGame.pause_transition(false), AppState::InGame);
    assert_eq!(AppState::SetupMaterials.pause_transition(true), AppState::SetupMaterials);
}

#[test]
fn startup_advances_through_spawn_into_the_game() {
    assert_eq!(AppState::default(), AppState::SetupMaterials);
    assert_eq!(AppState::SetupMaterials.setup_advanced(), AppState::SpawnStart);
    assert_eq!(AppState::SpawnStart.setup_advanced(), AppState::InGame);
    assert_eq!(AppState::InGame.setup_advanced(), AppState::InGame);
    assert_eq!(AppState::Paused.setup_advanced(), AppState::Paused);
}
