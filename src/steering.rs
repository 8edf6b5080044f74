//! The three per-agent updates of a frame, as spec functions on views and as
//! executable functions proved against them.
use vstd::prelude::*;
use crate::vector::{Vec2, norm2, clamped, clamp_length_max, lemma_clamped_within};

verus! {

/// Coordinates beyond this size are out of the world: within it, every sum
/// and difference that a frame computes fits in an `i64`.
pub const WORLD_LIMIT: i64 = 0x2000_0000_0000_0000;

/// Both components lie within `WORLD_LIMIT`.
pub open spec fn in_world(p: (int, int)) -> bool {
    -WORLD_LIMIT <= p.0 <= WORLD_LIMIT && -WORLD_LIMIT <= p.1 <= WORLD_LIMIT
}

/// Position and facing direction of an agent. The facing direction is kept
/// as a vector; its angle from the `(1, 0)` axis is the agent's rotation.
#[derive(Clone, Copy, Debug, PartialEq, Eq, Structural)]
pub struct Transform {
    pub translation: Vec2,
    pub heading: Vec2,
}

/// Velocity of an agent and the speed it may not exceed.
#[derive(Clone, Copy, Debug, PartialEq, Eq, Structural)]
pub struct Velocity {
    pub vector: Vec2,
    pub max: u32,
}

/// Steering force on an agent and the magnitude it may not exceed.
#[derive(Clone, Copy, Debug, PartialEq, Eq, Structural)]
pub struct Force {
    pub vector: Vec2,
    pub max: u32,
}

impl Velocity {
    /// The speed is at most `max`.
    pub open spec fn wf(&self) -> bool {
        norm2(self.vector@) <= self.max * self.max
    }
}

impl Force {
    /// The magnitude is at most `max`.
    pub open spec fn wf(&self) -> bool {
        norm2(self.vector@) <= self.max * self.max
    }
}

pub open spec fn sum(a: (int, int), b: (int, int)) -> (int, int) {
    (a.0 + b.0, a.1 + b.1)
}

pub open spec fn difference(a: (int, int), b: (int, int)) -> (int, int) {
    (a.0 - b.0, a.1 - b.1)
}

/// Steering toward `target`: the desired velocity `target - position` less
/// the current velocity, clamped to `max`.
pub open spec fn steering(target: (int, int), position: (int, int), velocity: (int, int), max: int) -> (int, int) {
    clamped(difference(difference(target, position), velocity), max)
}

/// The velocity after a force is applied to it, with unit mass.
pub open spec fn accelerated(velocity: (int, int), force: (int, int), max: int) -> (int, int) {
    clamped(sum(velocity, force), max)
}

/// The facing direction after a frame: that of the velocity, unless the
/// velocity is exactly zero, in which case the previous one is kept.
pub open spec fn turned(heading: (int, int), velocity: (int, int)) -> (int, int) {
    if velocity == (0int, 0int) {
        heading
    } else {
        velocity
    }
}

/// A component of a vector no longer than `max` is at most `max` in size.
pub proof fn lemma_component_bound(v: (int, int), max: int)
    requires
        max >= 0,
        norm2(v) <= max * max,
    ensures
        -max <= v.0 <= max,
        -max <= v.1 <= max,
{
    assert(v.1 * v.1 >= 0) by (nonlinear_arith);
    assert(v.0 * v.0 >= 0) by (nonlinear_arith);
    assert(-max <= v.0 <= max) by (nonlinear_arith)
        requires
            v.0 * v.0 <= max * max,
            max >= 0,
    ;
    assert(-max <= v.1 <= max) by (nonlinear_arith)
        requires
            v.1 * v.1 <= max * max,
            max >= 0,
    ;
}

/// Sets the force on an agent to the steering toward `target`.
pub fn steer(target: Vec2, transform: &Transform, velocity: &Velocity, force: &mut Force)
    requires
        in_world(target@),
        in_world(transform.translation@),
        velocity.wf(),
    ensures
        final(force).vector@ == steering(target@, transform.translation@, velocity.vector@, old(force).max as int),
        final(force).max == old(force).max,
        final(force).wf(),
{
    proof {
        lemma_component_bound(velocity.vector@, velocity.max as int);
    }
    let desired = Vec2 {
        x: target.x - transform.translation.x,
        y: target.y - transform.translation.y,
    };
    let difference = Vec2 { x: desired.x - velocity.vector.x, y: desired.y - velocity.vector.y };
    force.vector = clamp_length_max(difference, force.max);
}

/// Adds the force to the velocity, clamps the result to the velocity's `max`,
/// and consumes the force.
pub fn push(velocity: &mut Velocity, force: &mut Force)
    requires
        old(velocity).wf(),
        old(force).wf(),
    ensures
        final(velocity).vector@ == accelerated(old(velocity).vector@, old(force).vector@, old(velocity).max as int),
        final(velocity).max == old(velocity).max,
        final(velocity).wf(),
        final(force).vector@ == (0int, 0int),
        final(force).max == old(force).max,
        final(force).wf(),
{
    proof {
        lemma_component_bound(velocity.vector@, velocity.max as int);
        lemma_component_bound(force.vector@, force.max as int);
    }
    let sum = Vec2 { x: velocity.vector.x + force.vector.x, y: velocity.vector.y + force.vector.y };
    velocity.vector = clamp_length_max(sum, velocity.max);
    force.vector = Vec2::zero();
}

/// Moves an agent by its velocity and turns it to face the way it moves,
/// unless the velocity is exactly zero.
pub fn advance(transform: &mut Transform, velocity: &Velocity)
    requires
        in_world(old(transform).translation@),
        velocity.wf(),
    ensures
        final(transform).translation@ == sum(old(transform).translation@, velocity.vector@),
        final(transform).heading@ == turned(old(transform).heading@, velocity.vector@),
{
    proof {
        lemma_component_bound(velocity.vector@, velocity.max as int);
    }
    transform.translation = Vec2 {
        x: transform.translation.x + velocity.vector.x,
        y: transform.translation.y + velocity.vector.y,
    };
    if !velocity.vector.is_zero() {
        transform.heading = velocity.vector;
    }
}

/// Applying forces a second time, with no new force in between, leaves the
/// velocity as the first application left it.
pub proof fn lemma_apply_force_twice(velocity: (int, int), force: (int, int), max: int)
    requires
        max >= 0,
        norm2(velocity) <= max * max,
    ensures
        accelerated(accelerated(velocity, force, max), (0int, 0int), max) == accelerated(velocity, force, max),
{
    let once = accelerated(velocity, force, max);
    lemma_clamped_within(sum(velocity, force), max);
    assert(sum(once, (0int, 0int)) == once);
}

/// For an agent at rest, the steering toward a target is the offset from the
/// agent to the target, clamped to `max`.
pub proof fn lemma_steering_from_rest(target: (int, int), position: (int, int), max: int)
    ensures
        steering(target, position, (0int, 0int), max) == clamped(difference(target, position), max),
{
    assert(difference(difference(target, position), (0int, 0int)) == difference(target, position));
}

} // verus!
