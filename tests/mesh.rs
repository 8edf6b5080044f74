use boids::mesh::{boid_indices, circle_fan_indices, CIRCLE_VERTICES};

#[test]
fn fan_over_three_rim_vertices() {
    assert_eq!(circle_fan_indices(3), vec![0, 3, 1, 0, 1, 2, 0, 2, 3]);
}

#[test]
fn fan_over_circle_vertices() {
    let r = circle_fan_indices(CIRCLE_VERTICES);
    assert_eq!(r.len(), 150);
    assert_eq!(&r[0..3], &[0, 50, 1]);
    assert_eq!(&r[147..150], &[0, 49, 50]);
}

#[test]
fn fan_over_no_rim_vertices() {
    assert_eq!(circle_fan_indices(0), vec![0, 0, 1]);
    assert_eq!(circle_fan_indices(1), vec![0, 1, 1]);
}

#[test]
fn boid_triangle() {
    assert_eq!(boid_indices(), vec![0, 1, 2]);
}
