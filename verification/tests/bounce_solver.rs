use cometbuster::{collision_bounce, shake_amplitude, Config, Velocity};

fn cfg() -> Config {
    Config::default()
}

#[test]
fn head_on_equal_masses_swap_scaled() {
    let c = cfg();
    let mut v1 = Velocity { x: 50, y: 0 };
    let mut v2 = Velocity { x: -50, y: 0 };
    let eff = collision_bounce(&c, -100, 0, &mut v1, 100, 100, 0, &mut v2, 100, 16, 88);
    // x-velocities swap in sign, scaled by 0.95 (truncated)
    assert_eq!(v1, Velocity { x: -47, y: 0 });
    assert_eq!(v2, Velocity { x: 47, y: 0 });
    let e = eff.expect("closing bodies must produce a contact request");
    // contact point sits one radius along the line of centres
    assert_eq!(e.contact_x, -12);
    assert_eq!(e.contact_y, 0);
    // shake amplitude: momentum change 100 * 97, divided by 5000, in thousandths
    assert_eq!(e.amplitude_milli, 1940);
}

#[test]
fn separating_bodies_are_untouched() {
    let c = cfg();
    let mut v1 = Velocity { x: -50, y: 0 };
    let mut v2 = Velocity { x: 50, y: 0 };
    let eff = collision_bounce(&c, -100, 0, &mut v1, 100, 100, 0, &mut v2, 100, 16, 88);
    assert!(eff.is_none());
    assert_eq!(v1, Velocity { x: -50, y: 0 });
    assert_eq!(v2, Velocity { x: 50, y: 0 });
}

#[test]
fn coinciding_centres_are_untouched() {
    let c = cfg();
    let mut v1 = Velocity { x: 10, y: 20 };
    let mut v2 = Velocity { x: -30, y: 5 };
    let eff = collision_bounce(&c, 7, 7, &mut v1, 100, 7, 7, &mut v2, 100, 16, 88);
    assert!(eff.is_none());
    assert_eq!(v1, Velocity { x: 10, y: 20 });
    assert_eq!(v2, Velocity { x: -30, y: 5 });
}

#[test]
fn bounce_works_across_the_seam() {
    let c = cfg();
    // bodies on opposite sides of the vertical seam, closing in on it
    let mut v1 = Velocity { x: -50, y: 0 };
    let mut v2 = Velocity { x: 50, y: 0 };
    let eff = collision_bounce(&c, -620, 0, &mut v1, 100, 620, 0, &mut v2, 100, 16, 88);
    // across the seam body two sits to the left of body one, so they are closing
    assert!(eff.is_some());
    assert_eq!(v1, Velocity { x: 47, y: 0 });
    assert_eq!(v2, Velocity { x: -47, y: 0 });
}

#[test]
fn momentum_is_scaled_by_the_loss_factor() {
    let c = cfg();
    let (m1, m2) = (100i64, 50i64);
    let before = Velocity { x: 50, y: 10 };
    let before2 = Velocity { x: -30, y: -20 };
    let mut v1 = before;
    let mut v2 = before2;
    let eff = collision_bounce(&c, -40, 0, &mut v1, m1, 42, 5, &mut v2, m2, 16, 88);
    assert!(eff.is_some());
    // per axis: |den*(m1 v1' + m2 v2') - num*(m1 v1 + m2 v2)| <= 2*den*(m1+m2)
    let bound = 2 * c.loss_den * (m1 + m2);
    let px = c.loss_den * (m1 * v1.x + m2 * v2.x) - c.loss_num * (m1 * before.x + m2 * before2.x);
    let py = c.loss_den * (m1 * v1.y + m2 * v2.y) - c.loss_num * (m1 * before.y + m2 * before2.y);
    assert!(px.abs() <= bound, "x momentum drifted: {px}");
    assert!(py.abs() <= bound, "y momentum drifted: {py}");
}

#[test]
fn shake_decays_linearly_and_expires() {
    assert_eq!(shake_amplitude(4000, 0, 300), 4000);
    assert_eq!(shake_amplitude(4000, 150, 300), 2000);
    assert_eq!(shake_amplitude(4000, 299, 300), 13);
    assert_eq!(shake_amplitude(4000, 300, 300), 0);
    assert_eq!(shake_amplitude(4000, 1000, 300), 0);
}

#[test]
fn zero_velocity_component_is_no_singularity() {
    let c = cfg();
    // body one at rest: the angle-free solver must still deflect it
    let mut v1 = Velocity { x: 0, y: 0 };
    let mut v2 = Velocity { x: -60, y: 0 };
    let eff = collision_bounce(&c, 0, 0, &mut v1, 100, 120, 0, &mut v2, 100, 16, 60);
    assert!(eff.is_some());
    // equal masses: the mover hands its normal component over
    assert_eq!(v1, Velocity { x: -57, y: 0 });
    assert_eq!(v2, Velocity { x: 0, y: 0 });
}
