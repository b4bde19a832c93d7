use cometbuster::{closest_position, edge_looping, movement_translation, normalize_angle,
    shortest_distance, shortest_distance_sq, Config};

fn cfg() -> Config {
    Config::default()
}

#[test]
fn distance_is_symmetric() {
    let c = cfg();
    let pairs = [(0i64, 0i64, 3i64, 4i64), (5, 0, 1275, 0), (-600, -350, 610, 355), (7, -9, 7, -9)];
    for (x1, y1, x2, y2) in pairs {
        assert_eq!(
            shortest_distance(&c, x1, y1, x2, y2),
            shortest_distance(&c, x2, y2, x1, y1)
        );
        assert_eq!(
            shortest_distance_sq(&c, x1, y1, x2, y2),
            shortest_distance_sq(&c, x2, y2, x1, y1)
        );
    }
}

#[test]
fn distance_wraps_at_the_edge() {
    let c = cfg();
    // 5 and width-5 are ten units apart across the seam, not width-10.
    assert_eq!(shortest_distance(&c, 5, 0, 1275, 0), 10);
    assert_eq!(shortest_distance_sq(&c, 5, 0, 1275, 0), 100);
    // and vertically
    assert_eq!(shortest_distance(&c, 0, 5, 0, 715), 10);
}

#[test]
fn distance_is_euclidean_away_from_edges() {
    let c = cfg();
    assert_eq!(shortest_distance(&c, 0, 0, 3, 4), 5);
    assert_eq!(shortest_distance_sq(&c, 0, 0, 3, 4), 25);
    assert_eq!(shortest_distance(&c, -10, -10, -10, -10), 0);
}

#[test]
fn distance_rounds_down() {
    let c = cfg();
    // sqrt(2) = 1.41... rounds down to 1
    assert_eq!(shortest_distance(&c, 0, 0, 1, 1), 1);
}

#[test]
fn closest_copy_crosses_the_seam() {
    let c = cfg();
    let p = closest_position(&c, 600, 0, -600, 0);
    assert_eq!(p, (680, 0));
    let q = closest_position(&c, 0, -350, 0, 350);
    assert_eq!(q, (0, -370));
    // an unwrapped neighbour stays put
    assert_eq!(closest_position(&c, 10, 10, 40, 30), (40, 30));
}

#[test]
fn edge_looping_reenters_opposite_side() {
    let c = cfg();
    assert_eq!(edge_looping(&c, 645, 0), (-635, 0));
    assert_eq!(edge_looping(&c, -645, 0), (635, 0));
    assert_eq!(edge_looping(&c, 0, 365), (0, -355));
    assert_eq!(edge_looping(&c, 0, -365), (0, 355));
    assert_eq!(edge_looping(&c, 100, -200), (100, -200));
}

#[test]
fn movement_advances_and_wraps() {
    let c = cfg();
    // one second at 100 units/s
    assert_eq!(movement_translation(&c, 0, 0, 100, 0, 1000), (100, 0));
    // sub-unit progress truncates toward zero
    assert_eq!(movement_translation(&c, 0, 0, 50, 0, 16), (0, 0));
    assert_eq!(movement_translation(&c, 0, 0, 500, -250, 16), (8, -4));
    // crossing the right edge re-enters on the left
    assert_eq!(movement_translation(&c, 635, 0, 100, 0, 100), (-635, 0));
}

#[test]
fn angles_fold_into_one_turn() {
    assert_eq!(normalize_angle(-90000), 270000);
    assert_eq!(normalize_angle(45000), 45000);
    assert_eq!(normalize_angle(360000), 360000);
    assert_eq!(normalize_angle(7 * 360000 + 5), 5);
    assert_eq!(normalize_angle(-7 * 360000 - 5), 359995);
}
