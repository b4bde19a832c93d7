use cometbuster::{first_free_position, initial_asteroid_positions, is_position_free,
    random_free_position, shortest_distance, shortest_distance_sq, spawn_asteroid_fragments,
    spawn_asteroid_fragments_random, AsteroidSize, Config, Velocity};

fn cfg() -> Config {
    Config::default()
}

fn no_jitter() -> Vec<Velocity> {
    vec![
        Velocity { x: 0, y: 0 },
        Velocity { x: 0, y: 0 },
        Velocity { x: 0, y: 0 },
    ]
}

#[test]
fn big_splits_into_three_medium() {
    let c = cfg();
    let v = Velocity { x: 100, y: -50 };
    let frags = spawn_asteroid_fragments(&c, 0, 0, v, 88, AsteroidSize::Big, 0, &no_jitter());
    assert_eq!(frags.len(), 3);
    for f in &frags {
        assert_eq!(f.size, AsteroidSize::Medium);
    }
}

#[test]
fn medium_splits_into_three_small() {
    let c = cfg();
    let v = Velocity { x: 0, y: 0 };
    let frags = spawn_asteroid_fragments(&c, 10, -20, v, 39, AsteroidSize::Medium, 30, &no_jitter());
    assert_eq!(frags.len(), 3);
    for f in &frags {
        assert_eq!(f.size, AsteroidSize::Small);
    }
}

#[test]
fn small_is_terminal() {
    let c = cfg();
    let v = Velocity { x: 5, y: 5 };
    let frags = spawn_asteroid_fragments(&c, 0, 0, v, 17, AsteroidSize::Small, 0, &no_jitter());
    assert!(frags.is_empty());
}

#[test]
fn fragments_sit_on_the_054_circle() {
    let c = cfg();
    let v = Velocity { x: 100, y: -50 };
    let frags = spawn_asteroid_fragments(&c, 0, 0, v, 88, AsteroidSize::Big, 0, &no_jitter());
    // start angle 0: directions 0, 120 and 240 degrees; 0.54 * 88 = 47.52
    assert_eq!((frags[0].x, frags[0].y), (47, 0));
    assert_eq!((frags[1].x, frags[1].y), (-23, 41));
    assert_eq!((frags[2].x, frags[2].y), (-23, -41));
    for f in &frags {
        let d = shortest_distance(&c, 0, 0, f.x, f.y);
        assert!(46 <= d && d <= 48, "fragment distance {d} strays from 0.54 * 88");
    }
}

#[test]
fn fragment_velocity_keeps_nine_tenths_plus_jitter() {
    let c = cfg();
    let v = Velocity { x: 100, y: -50 };
    let jitter = vec![
        Velocity { x: 80, y: -80 },
        Velocity { x: -1, y: 2 },
        Velocity { x: 0, y: 0 },
    ];
    let frags = spawn_asteroid_fragments(&c, 0, 0, v, 88, AsteroidSize::Big, 0, &jitter);
    assert_eq!(frags[0].velocity, Velocity { x: 90 + 80, y: -45 - 80 });
    assert_eq!(frags[1].velocity, Velocity { x: 89, y: -43 });
    assert_eq!(frags[2].velocity, Velocity { x: 90, y: -45 });
}

#[test]
fn random_split_respects_the_counts() {
    let c = cfg();
    let v = Velocity { x: 100, y: -50 };
    let frags = spawn_asteroid_fragments_random(&c, 0, 0, v, 88, AsteroidSize::Big);
    assert_eq!(frags.len(), 3);
    for f in &frags {
        assert_eq!(f.size, AsteroidSize::Medium);
    }
    let none = spawn_asteroid_fragments_random(&c, 0, 0, v, 17, AsteroidSize::Small);
    assert!(none.is_empty());
}

#[test]
fn first_free_candidate_is_taken() {
    let c = cfg();
    let occupied = vec![(0i64, 0i64)];
    let candidates = vec![(100i64, 0i64), (500i64, 0i64), (700i64, 0i64)];
    // (100,0) is 100 units away, below the 200-unit separation
    assert_eq!(first_free_position(&c, &occupied, &candidates), Some((500, 0)));
}

#[test]
fn separation_boundary_is_inclusive() {
    let c = cfg();
    let occupied = vec![(0i64, 0i64)];
    // exactly 200 units away is accepted; 199 is not
    assert!(is_position_free(&c, &occupied, 200, 0));
    assert!(!is_position_free(&c, &occupied, 199, 0));
}

#[test]
fn placement_rejects_across_the_seam() {
    let c = cfg();
    // 630 and -630 are only 20 units apart on the torus
    let occupied = vec![(630i64, 0i64)];
    assert!(!is_position_free(&c, &occupied, -630, 0));
    let candidates = vec![(-630i64, 0i64)];
    assert_eq!(first_free_position(&c, &occupied, &candidates), None);
}

#[test]
fn random_search_returns_a_free_point_in_the_field() {
    let c = cfg();
    let occupied = vec![(100i64, 100i64), (900i64, 500i64)];
    let p = random_free_position(&c, &occupied, 10000).expect("a sparse field has free room");
    assert!(0 <= p.0 && p.0 < c.width);
    assert!(0 <= p.1 && p.1 < c.height);
    assert!(is_position_free(&c, &occupied, p.0, p.1));
}

#[test]
fn saturated_field_fails_explicitly() {
    let mut c = cfg();
    // no two points of a 1280 x 720 torus are 2000 apart
    c.min_separation = 2000;
    let occupied = vec![(0i64, 0i64)];
    assert_eq!(random_free_position(&c, &occupied, 50), None);
}

#[test]
fn random_split_realises_one_shared_draw() {
    let c = cfg();
    let v = Velocity { x: 100, y: -50 };
    let frags = spawn_asteroid_fragments_random(&c, 0, 0, v, 88, AsteroidSize::Big);
    for f in &frags {
        // position: on the 0.54 * 88 circle for some whole-degree direction
        let d = shortest_distance(&c, 0, 0, f.x, f.y);
        assert!(45 <= d && d <= 50, "fragment strayed off the circle: {d}");
        // velocity: nine tenths of the parent plus at most the jitter bound
        assert!((90 - 80..=90 + 80).contains(&f.velocity.x));
        assert!((-45 - 80..=-45 + 80).contains(&f.velocity.y));
    }
}

#[test]
fn no_attempts_means_no_position() {
    let c = cfg();
    let occupied = vec![(0i64, 0i64)];
    assert_eq!(random_free_position(&c, &occupied, 0), None);
}

#[test]
fn empty_field_succeeds_on_the_first_draw() {
    let c = cfg();
    let occupied: Vec<(i64, i64)> = Vec::new();
    assert!(random_free_position(&c, &occupied, 1).is_some());
}

#[test]
fn zero_separation_accepts_any_draw() {
    let mut c = cfg();
    c.min_separation = 0;
    let occupied = vec![(0i64, 0i64), (100i64, 100i64)];
    assert!(random_free_position(&c, &occupied, 1).is_some());
}

#[test]
fn empty_scatter_succeeds_trivially() {
    let c = cfg();
    let v = initial_asteroid_positions(&c, 0, 0).expect("nothing to place");
    assert!(v.is_empty());
}

#[test]
fn initial_scatter_keeps_everything_apart() {
    let c = cfg();
    let v = initial_asteroid_positions(&c, 5, 10000).expect("five big asteroids fit");
    assert_eq!(v.len(), 5);
    let sep_sq = c.min_separation * c.min_separation;
    for i in 0..v.len() {
        let (xi, yi) = v[i];
        assert!(shortest_distance_sq(&c, 0, 0, xi, yi) >= sep_sq);
        for j in (i + 1)..v.len() {
            let (xj, yj) = v[j];
            assert!(shortest_distance_sq(&c, xi, yi, xj, yj) >= sep_sq);
        }
    }
}
