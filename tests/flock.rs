use boids::flock::{
    apply_force, chase_mouse, start, tick, to_world, update_boids, Flock, WindowSize, BOID_COUNT,
    MAX_FORCE, MAX_SPEED,
};
use boids::steering::{advance, push, steer, Force, Transform, Velocity};
use boids::vector::Vec2;

fn within(v: Vec2, max: u32) -> bool {
    let m = max as u128;
    v.length_squared() <= m * m
}

#[test]
fn force_clamps_velocity_and_is_consumed() {
    let mut velocity = Velocity { vector: Vec2::new(0, 0), max: 1000 };
    let mut force = Force { vector: Vec2::new(10_000, 0), max: 10_000 };
    push(&mut velocity, &mut force);
    assert_eq!(velocity.vector, Vec2::new(1000, 0));
    assert_eq!(velocity.max, 1000);
    assert_eq!(force.vector, Vec2::new(0, 0));
}

#[test]
fn one_step_moves_and_faces_forward() {
    let mut transform = Transform { translation: Vec2::new(0, 0), heading: Vec2::new(0, 1) };
    let velocity = Velocity { vector: Vec2::new(1, 0), max: MAX_SPEED };
    advance(&mut transform, &velocity);
    assert_eq!(transform.translation, Vec2::new(1, 0));
    assert_eq!(transform.heading.y, 0);
    assert!(transform.heading.x > 0);
}

#[test]
fn zero_velocity_keeps_heading() {
    let mut transform = Transform { translation: Vec2::new(5, -5), heading: Vec2::new(-3, 2) };
    let velocity = Velocity { vector: Vec2::new(0, 0), max: MAX_SPEED };
    advance(&mut transform, &velocity);
    assert_eq!(transform.translation, Vec2::new(5, -5));
    assert_eq!(transform.heading, Vec2::new(-3, 2));
}

#[test]
fn tiny_velocity_still_turns() {
    let mut transform = Transform { translation: Vec2::new(0, 0), heading: Vec2::new(1, 0) };
    let velocity = Velocity { vector: Vec2::new(0, -1), max: MAX_SPEED };
    advance(&mut transform, &velocity);
    assert_eq!(transform.heading, Vec2::new(0, -1));
}

#[test]
fn steering_from_rest_is_clamped_offset() {
    let transform = Transform { translation: Vec2::new(0, 0), heading: Vec2::new(1, 0) };
    let velocity = Velocity { vector: Vec2::new(0, 0), max: MAX_SPEED };
    let mut force = Force { vector: Vec2::new(0, 0), max: MAX_FORCE };
    steer(Vec2::new(3000, 4000), &transform, &velocity, &mut force);
    assert_eq!(force.vector, Vec2::new(150, 200));
    assert_eq!(force.max, MAX_FORCE);
}

#[test]
fn steering_subtracts_velocity() {
    let transform = Transform { translation: Vec2::new(10, 10), heading: Vec2::new(1, 0) };
    let velocity = Velocity { vector: Vec2::new(5, 0), max: 10 };
    let mut force = Force { vector: Vec2::new(0, 0), max: 100 };
    steer(Vec2::new(20, 30), &transform, &velocity, &mut force);
    assert_eq!(force.vector, Vec2::new(5, 20));
}

#[test]
fn window_to_world() {
    let window = WindowSize { width: 800, height: 600 };
    assert_eq!(to_world(window, Vec2::new(400, 300)), Vec2::new(0, 0));
    assert_eq!(to_world(window, Vec2::new(0, 600)), Vec2::new(-400, 300));
}

#[test]
fn start_places_agents_in_window() {
    let window = WindowSize { width: 800_000, height: 600_000 };
    let flock = start(window, BOID_COUNT);
    assert_eq!(flock.size(), 100);
    assert_eq!(flock.velocities.len(), 100);
    assert_eq!(flock.forces.len(), 100);
    for t in &flock.transforms {
        assert!(-400_000 <= t.translation.x && t.translation.x <= 400_000);
        assert!(-300_000 <= t.translation.y && t.translation.y <= 300_000);
        assert_eq!(t.heading, Vec2::new(1, 0));
    }
    for v in &flock.velocities {
        assert_eq!(*v, Velocity { vector: Vec2::new(0, 0), max: MAX_SPEED });
    }
    for f in &flock.forces {
        assert_eq!(*f, Force { vector: Vec2::new(0, 0), max: MAX_FORCE });
    }
    let first = flock.transforms[0].translation;
    assert!(flock.transforms.iter().any(|t| t.translation != first));
}

#[test]
fn start_in_empty_window_places_at_origin() {
    let flock = start(WindowSize { width: 0, height: 1 }, 3);
    assert_eq!(flock.size(), 3);
    for t in &flock.transforms {
        assert_eq!(t.translation, Vec2::new(0, 0));
    }
}

#[test]
fn spawn_adds_agent_at_rest() {
    let mut flock = Flock::new();
    assert_eq!(flock.size(), 0);
    flock.spawn(Vec2::new(7, -7));
    assert_eq!(flock.size(), 1);
    assert_eq!(
        flock.transforms[0],
        Transform { translation: Vec2::new(7, -7), heading: Vec2::new(1, 0) }
    );
    assert_eq!(flock.velocities[0].vector, Vec2::new(0, 0));
    assert_eq!(flock.forces[0].max, MAX_FORCE);
}

#[test]
fn chase_without_cursor_changes_nothing() {
    let mut flock = Flock::new();
    flock.spawn(Vec2::new(1, 2));
    flock.forces[0].vector = Vec2::new(3, 4);
    chase_mouse(&mut flock, WindowSize { width: 100, height: 100 }, None);
    assert_eq!(flock.forces[0].vector, Vec2::new(3, 4));
    assert_eq!(flock.transforms[0].translation, Vec2::new(1, 2));
}

#[test]
fn chase_steers_every_agent() {
    let mut flock = Flock::new();
    flock.spawn(Vec2::new(0, 0));
    flock.spawn(Vec2::new(-5000, 0));
    chase_mouse(&mut flock, WindowSize { width: 2000, height: 2000 }, Some(Vec2::new(1000, 4000)));
    assert_eq!(flock.forces[0].vector, Vec2::new(0, 250));
    assert_eq!(flock.forces[1].vector, Vec2::new(214, 128));
}

#[test]
fn apply_force_twice_keeps_velocity() {
    let mut flock = Flock::new();
    flock.spawn(Vec2::new(0, 0));
    flock.forces[0].vector = Vec2::new(-150, 200);
    apply_force(&mut flock);
    assert_eq!(flock.velocities[0].vector, Vec2::new(-150, 200));
    assert_eq!(flock.forces[0].vector, Vec2::new(0, 0));
    apply_force(&mut flock);
    assert_eq!(flock.velocities[0].vector, Vec2::new(-150, 200));
    assert_eq!(flock.forces[0].vector, Vec2::new(0, 0));
}

#[test]
fn update_moves_by_velocity() {
    let mut flock = Flock::new();
    flock.spawn(Vec2::new(10, 10));
    flock.spawn(Vec2::new(0, 0));
    flock.velocities[0].vector = Vec2::new(-600, 800);
    update_boids(&mut flock);
    assert_eq!(flock.transforms[0].translation, Vec2::new(-590, 810));
    assert_eq!(flock.transforms[0].heading, Vec2::new(-600, 800));
    assert_eq!(flock.transforms[1].translation, Vec2::new(0, 0));
    assert_eq!(flock.transforms[1].heading, Vec2::new(1, 0));
}

#[test]
fn frames_keep_limits() {
    let window = WindowSize { width: 800_000, height: 600_000 };
    let mut flock = start(window, 20);
    let cursors = [Some(Vec2::new(0, 0)), None, Some(Vec2::new(800_000, 600_000)), Some(Vec2::new(1, 599_999))];
    for frame in 0..200 {
        tick(&mut flock, window, cursors[frame % cursors.len()]);
        for v in &flock.velocities {
            assert!(within(v.vector, v.max));
        }
        for f in &flock.forces {
            assert!(within(f.vector, f.max));
            assert!(f.vector.is_zero());
        }
    }
}

#[test]
fn tick_runs_the_three_steps_in_order() {
    let window = WindowSize { width: 0, height: 0 };
    let mut flock = Flock::new();
    flock.spawn(Vec2::new(0, 0));
    tick(&mut flock, window, Some(Vec2::new(0, 1000)));
    assert_eq!(flock.velocities[0].vector, Vec2::new(0, 250));
    assert_eq!(flock.transforms[0].translation, Vec2::new(0, 250));
    assert_eq!(flock.transforms[0].heading, Vec2::new(0, 250));
    assert_eq!(flock.forces[0].vector, Vec2::new(0, 0));
}

#[test]
fn tick_at_rest_without_cursor_keeps_heading() {
    let mut flock = Flock::new();
    flock.spawn(Vec2::new(3, 3));
    flock.transforms[0].heading = Vec2::new(0, -9);
    tick(&mut flock, WindowSize { width: 10, height: 10 }, None);
    assert_eq!(flock.transforms[0].heading, Vec2::new(0, -9));
    assert_eq!(flock.transforms[0].translation, Vec2::new(3, 3));
}
