use ray_tracer::distance::distance_key;
use ray_tracer::scene::closest_hit;
use ray_tracer::sphere::{select_root, Root};

fn key(t: f64) -> u64 {
    distance_key(t.to_bits())
}

const T_MIN: f64 = 0.001;

#[test]
fn keys_follow_the_order_of_distances() {
    let values = [
        f64::NEG_INFINITY,
        -1.0e300,
        -2.5,
        -1.0,
        -0.001,
        0.0,
        0.001,
        0.5,
        1.0,
        1.5,
        1.0e300,
        f64::INFINITY,
    ];
    for w in values.windows(2) {
        assert!(key(w[0]) < key(w[1]), "{} {}", w[0], w[1]);
    }
    assert_eq!(key(0.5), key(0.5));
}

#[test]
fn key_of_known_patterns() {
    assert_eq!(distance_key(0), 0x8000_0000_0000_0000);
    assert_eq!(distance_key(0x8000_0000_0000_0000), 0x7FFF_FFFF_FFFF_FFFF);
    assert_eq!(distance_key(u64::MAX), 0);
    assert_eq!(distance_key(1.0f64.to_bits()), 0xBFF0_0000_0000_0000);
}

#[test]
fn ray_from_outside_takes_near_root() {
    // sphere of radius 0.5 at (0,0,-1), ray from the origin along -z
    assert_eq!(select_root(key(0.5), key(1.5), key(T_MIN), key(f64::INFINITY)), Some(Root::Near));
}

#[test]
fn ray_from_inside_takes_far_root() {
    assert_eq!(select_root(key(-0.5), key(0.5), key(T_MIN), key(f64::INFINITY)), Some(Root::Far));
}

#[test]
fn roots_outside_interval_give_no_hit() {
    assert_eq!(select_root(key(-1.5), key(-0.5), key(T_MIN), key(f64::INFINITY)), None);
    assert_eq!(select_root(key(2.0), key(3.0), key(T_MIN), key(1.0)), None);
}

#[test]
fn interval_bounds_are_exclusive() {
    assert_eq!(select_root(key(T_MIN), key(1.0), key(T_MIN), key(2.0)), Some(Root::Far));
    assert_eq!(select_root(key(T_MIN), key(2.0), key(T_MIN), key(2.0)), None);
}

#[test]
fn closest_of_overlapping_spheres() {
    let roots = vec![
        Some((key(3.0), key(4.0))),
        None,
        Some((key(1.0), key(2.0))),
        Some((key(-1.0), key(1.5))),
    ];
    assert_eq!(closest_hit(&roots, key(T_MIN), key(f64::INFINITY)), Some((2, Root::Near)));
}

#[test]
fn inside_sphere_can_be_closest() {
    let roots = vec![Some((key(1.0), key(2.0))), Some((key(-1.0), key(0.5)))];
    assert_eq!(closest_hit(&roots, key(T_MIN), key(f64::INFINITY)), Some((1, Root::Far)));
}

#[test]
fn earliest_member_wins_a_tie() {
    let roots = vec![None, Some((key(1.0), key(2.0))), Some((key(1.0), key(3.0)))];
    assert_eq!(closest_hit(&roots, key(T_MIN), key(f64::INFINITY)), Some((1, Root::Near)));
}

#[test]
fn empty_or_missed_scene_has_no_hit() {
    assert_eq!(closest_hit(&vec![], key(T_MIN), key(f64::INFINITY)), None);
    let roots = vec![None, Some((key(-2.0), key(-1.0)))];
    assert_eq!(closest_hit(&roots, key(T_MIN), key(f64::INFINITY)), None);
}

#[test]
fn upper_bound_limits_scene_hits() {
    let roots = vec![Some((key(5.0), key(6.0)))];
    assert_eq!(closest_hit(&roots, key(T_MIN), key(5.5)), Some((0, Root::Near)));
    assert_eq!(closest_hit(&roots, key(T_MIN), key(5.0)), None);
}
