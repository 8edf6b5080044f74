//! A flock of agents held as parallel slices of transforms, velocities and
//! forces, and the updates that run over the whole flock each frame.
use vstd::prelude::*;
use rand::Rng;
use crate::vector::Vec2;
use crate::steering::{
    Transform, Velocity, Force, in_world, steering, accelerated, turned, sum, steer, push, advance,
};

verus! {

/// World units in one pixel of the window.
pub const UNITS_PER_PIXEL: i64 = 1000;

/// Speed limit of a new agent, in world units per frame: one pixel.
pub const MAX_SPEED: u32 = 1000;

/// Limit on the steering force of a new agent, in world units per frame per
/// frame: a quarter of a pixel.
pub const MAX_FORCE: u32 = 250;

/// Number of agents that a simulation starts with.
pub const BOID_COUNT: usize = 100;

/// Size of the window in world units.
#[derive(Clone, Copy, Debug, PartialEq, Eq, Structural)]
pub struct WindowSize {
    pub width: u32,
    pub height: u32,
}

/// Where a point given in window coordinates (origin at a corner) lies in the
/// world, whose origin is the window's centre.
pub open spec fn world_position(window: WindowSize, p: (int, int)) -> (int, int) {
    (p.0 - window.width as int / 2, p.1 - window.height as int / 2)
}

/// Moves a point from window coordinates to world coordinates.
pub fn to_world(window: WindowSize, p: Vec2) -> (r: Vec2)
    requires
        in_world(world_position(window, p@)),
    ensures
        r@ == world_position(window, p@),
{
    Vec2 { x: p.x - (window.width / 2) as i64, y: p.y - (window.height / 2) as i64 }
}

/// The agents of a simulation: agent `i` has `transforms[i]`, `velocities[i]`
/// and `forces[i]`.
pub struct Flock {
    pub transforms: Vec<Transform>,
    pub velocities: Vec<Velocity>,
    pub forces: Vec<Force>,
}

impl Flock {
    /// The three slices have one entry per agent, and every velocity and force
    /// is within its `max`.
    pub open spec fn wf(&self) -> bool {
        &&& self.velocities@.len() == self.transforms@.len()
        &&& self.forces@.len() == self.transforms@.len()
        &&& forall|i: int| 0 <= i < self.velocities@.len() ==> #[trigger] self.velocities@[i].wf()
        &&& forall|i: int| 0 <= i < self.forces@.len() ==> #[trigger] self.forces@[i].wf()
    }

    /// Every agent stands within the world's limits.
    pub open spec fn in_bounds(&self) -> bool {
        forall|i: int| 0 <= i < self.transforms@.len() ==> in_world(#[trigger] self.transforms@[i].translation@)
    }

    pub open spec fn len(&self) -> nat {
        self.transforms@.len()
    }

    /// A flock with no agents.
    pub fn new() -> (r: Flock)
        ensures
            r.wf(),
            r.len() == 0,
    {
        Flock { transforms: Vec::new(), velocities: Vec::new(), forces: Vec::new() }
    }

    /// Number of agents.
    pub fn size(&self) -> (r: usize)
        requires
            self.wf(),
        ensures
            r == self.len(),
    {
        self.transforms.len()
    }
}

/// Sets every agent's force to the steering toward the cursor, given in window
/// coordinates; with no cursor, the flock is left as it is.
pub fn chase_mouse(flock: &mut Flock, window: WindowSize, cursor: Option<Vec2>)
    requires
        old(flock).wf(),
        old(flock).in_bounds(),
        cursor matches Some(c) ==> in_world(world_position(window, c@)),
    ensures
        final(flock).wf(),
        final(flock).transforms@ == old(flock).transforms@,
        final(flock).velocities@ == old(flock).velocities@,
        final(flock).forces@.len() == old(flock).forces@.len(),
        cursor is None ==> final(flock).forces@ == old(flock).forces@,
        forall|i: int| 0 <= i < old(flock).forces@.len() ==> (#[trigger] final(flock).forces@[i]).max == old(flock).forces@[i].max,
        cursor matches Some(c) ==> forall|i: int| 0 <= i < old(flock).forces@.len() ==>
            (#[trigger] final(flock).forces@[i]).vector@ == steering(
                world_position(window, c@),
                old(flock).transforms@[i].translation@,
                old(flock).velocities@[i].vector@,
                old(flock).forces@[i].max as int,
            ),
{
    if let Some(c) = cursor {
        let target = to_world(window, c);
        let n = flock.forces.len();
        let mut i: usize = 0;
        while i < n
            invariant
                n == flock.forces@.len(),
                0 <= i <= n,
                in_world(target@),
                target@ == world_position(window, c@),
                flock.wf(),
                flock.in_bounds(),
                flock.transforms@ == old(flock).transforms@,
                flock.velocities@ == old(flock).velocities@,
                flock.forces@.len() == old(flock).forces@.len(),
                forall|j: int| 0 <= j < n ==> (#[trigger] flock.forces@[j]).max == old(flock).forces@[j].max,
                forall|j: int| i <= j < n ==> #[trigger] flock.forces@[j] == old(flock).forces@[j],
                forall|j: int| 0 <= j < i ==> (#[trigger] flock.forces@[j]).vector@ == steering(
                    target@,
                    old(flock).transforms@[j].translation@,
                    old(flock).velocities@[j].vector@,
                    old(flock).forces@[j].max as int,
                ),
            decreases n - i,
        {
            let transform = flock.transforms[i];
            let velocity = flock.velocities[i];
            let mut force = flock.forces[i];
            assert(velocity.wf());
            assert(in_world(transform.translation@));
            steer(target, &transform, &velocity, &mut force);
            flock.forces.set(i, force);
            i = i + 1;
        }
    }
}

/// Adds each agent's force to its velocity, clamped to the velocity's `max`,
/// and consumes the force.
pub fn apply_force(flock: &mut Flock)
    requires
        old(flock).wf(),
    ensures
        final(flock).wf(),
        final(flock).transforms@ == old(flock).transforms@,
        final(flock).velocities@.len() == old(flock).velocities@.len(),
        final(flock).forces@.len() == old(flock).forces@.len(),
        forall|i: int| 0 <= i < old(flock).velocities@.len() ==> {
            &&& (#[trigger] final(flock).velocities@[i]).vector@ == accelerated(
                old(flock).velocities@[i].vector@,
                old(flock).forces@[i].vector@,
                old(flock).velocities@[i].max as int,
            )
            &&& final(flock).velocities@[i].max == old(flock).velocities@[i].max
            &&& final(flock).forces@[i].vector@ == (0int, 0int)
            &&& final(flock).forces@[i].max == old(flock).forces@[i].max
        },
{
    let n = flock.velocities.len();
    let mut i: usize = 0;
    while i < n
        invariant
            n == flock.velocities@.len(),
            0 <= i <= n,
            flock.wf(),
            flock.transforms@ == old(flock).transforms@,
            flock.velocities@.len() == old(flock).velocities@.len(),
            flock.forces@.len() == old(flock).forces@.len(),
            forall|j: int| i <= j < n ==> #[trigger] flock.velocities@[j] == old(flock).velocities@[j],
            forall|j: int| i <= j < n ==> #[trigger] flock.forces@[j] == old(flock).forces@[j],
            forall|j: int| 0 <= j < i ==> {
                &&& (#[trigger] flock.velocities@[j]).vector@ == accelerated(
                    old(flock).velocities@[j].vector@,
                    old(flock).forces@[j].vector@,
                    old(flock).velocities@[j].max as int,
                )
                &&& flock.velocities@[j].max == old(flock).velocities@[j].max
                &&& flock.forces@[j].vector@ == (0int, 0int)
                &&& flock.forces@[j].max == old(flock).forces@[j].max
            },
        decreases n - i,
    {
        let mut velocity = flock.velocities[i];
        let mut force = flock.forces[i];
        assert(velocity.wf() && force.wf());
        push(&mut velocity, &mut force);
        flock.velocities.set(i, velocity);
        flock.forces.set(i, force);
        i = i + 1;
    }
}

/// Moves each agent by its velocity and turns it to face the way it moves,
/// unless its velocity is exactly zero.
pub fn update_boids(flock: &mut Flock)
    requires
        old(flock).wf(),
        old(flock).in_bounds(),
    ensures
        final(flock).wf(),
        final(flock).velocities@ == old(flock).velocities@,
        final(flock).forces@ == old(flock).forces@,
        final(flock).transforms@.len() == old(flock).transforms@.len(),
        forall|i: int| 0 <= i < old(flock).transforms@.len() ==> {
            &&& (#[trigger] final(flock).transforms@[i]).translation@ == sum(
                old(flock).transforms@[i].translation@,
                old(flock).velocities@[i].vector@,
            )
            &&& final(flock).transforms@[i].heading@ == turned(
                old(flock).transforms@[i].heading@,
                old(flock).velocities@[i].vector@,
            )
        },
{
    let n = flock.transforms.len();
    let mut i: usize = 0;
    while i < n
        invariant
            n == flock.transforms@.len(),
            0 <= i <= n,
            flock.wf(),
            flock.velocities@ == old(flock).velocities@,
            flock.forces@ == old(flock).forces@,
            flock.transforms@.len() == old(flock).transforms@.len(),
            forall|j: int| i <= j < n ==> #[trigger] flock.transforms@[j] == old(flock).transforms@[j],
            forall|j: int| 0 <= j < n ==> in_world(#[trigger] old(flock).transforms@[j].translation@),
            forall|j: int| 0 <= j < i ==> {
                &&& (#[trigger] flock.transforms@[j]).translation@ == sum(
                    old(flock).transforms@[j].translation@,
                    old(flock).velocities@[j].vector@,
                )
                &&& flock.transforms@[j].heading@ == turned(
                    old(flock).transforms@[j].heading@,
                    old(flock).velocities@[j].vector@,
                )
            },
        decreases n - i,
    {
        let mut transform = flock.transforms[i];
        let velocity = flock.velocities[i];
        assert(velocity.wf());
        advance(&mut transform, &velocity);
        flock.transforms.set(i, transform);
        i = i + 1;
    }
}

/// The force that an agent's velocity receives in a frame: the steering
/// toward the cursor where there is one, else the force it already holds.
pub open spec fn frame_force(flock: Flock, i: int, window: WindowSize, cursor: Option<Vec2>) -> (int, int) {
    match cursor {
        Some(c) => steering(
            world_position(window, c@),
            flock.transforms@[i].translation@,
            flock.velocities@[i].vector@,
            flock.forces@[i].max as int,
        ),
        None => flock.forces@[i].vector@,
    }
}

/// The velocity of agent `i` after a frame.
pub open spec fn frame_velocity(flock: Flock, i: int, window: WindowSize, cursor: Option<Vec2>) -> (int, int) {
    accelerated(
        flock.velocities@[i].vector@,
        frame_force(flock, i, window, cursor),
        flock.velocities@[i].max as int,
    )
}

/// One frame: steering toward the cursor, then the force applied to the
/// velocity, then the move by the velocity.
pub fn tick(flock: &mut Flock, window: WindowSize, cursor: Option<Vec2>)
    requires
        old(flock).wf(),
        old(flock).in_bounds(),
        cursor matches Some(c) ==> in_world(world_position(window, c@)),
    ensures
        final(flock).wf(),
        final(flock).len() == old(flock).len(),
        forall|i: int| 0 <= i < old(flock).len() ==> {
            &&& (#[trigger] final(flock).velocities@[i]).vector@ == frame_velocity(*old(flock), i, window, cursor)
            &&& final(flock).velocities@[i].max == old(flock).velocities@[i].max
            &&& final(flock).forces@[i].vector@ == (0int, 0int)
            &&& final(flock).forces@[i].max == old(flock).forces@[i].max
            &&& final(flock).transforms@[i].translation@ == sum(
                old(flock).transforms@[i].translation@,
                frame_velocity(*old(flock), i, window, cursor),
            )
            &&& final(flock).transforms@[i].heading@ == turned(
                old(flock).transforms@[i].heading@,
                frame_velocity(*old(flock), i, window, cursor),
            )
        },
{
    chase_mouse(flock, window, cursor);
    let ghost steered = *flock;
    apply_force(flock);
    let ghost pushed = *flock;
    update_boids(flock);
    assert forall|i: int| 0 <= i < old(flock).len() implies
        (#[trigger] steered.forces@[i]).vector@ == frame_force(*old(flock), i, window, cursor) by {
    }
}

impl Flock {
    /// Adds an agent at `position`, at rest, facing along `(1, 0)`, with the
    /// speed limit `MAX_SPEED` and the force limit `MAX_FORCE`.
    pub fn spawn(&mut self, position: Vec2)
        requires
            old(self).wf(),
        ensures
            final(self).wf(),
            final(self).transforms@ == old(self).transforms@.push(
                Transform { translation: position, heading: Vec2 { x: 1, y: 0 } },
            ),
            final(self).velocities@ == old(self).velocities@.push(
                Velocity { vector: Vec2 { x: 0, y: 0 }, max: MAX_SPEED },
            ),
            final(self).forces@ == old(self).forces@.push(
                Force { vector: Vec2 { x: 0, y: 0 }, max: MAX_FORCE },
            ),
    {
        self.transforms.push(Transform { translation: position, heading: Vec2 { x: 1, y: 0 } });
        self.velocities.push(Velocity { vector: Vec2 { x: 0, y: 0 }, max: MAX_SPEED });
        self.forces.push(Force { vector: Vec2 { x: 0, y: 0 }, max: MAX_FORCE });
        assert forall|i: int| 0 <= i < self.velocities@.len() implies #[trigger] self.velocities@[i].wf() by {
            if i == self.velocities@.len() - 1 {
                assert(self.velocities@[i].vector@ == (0int, 0int));
            } else {
                assert(self.velocities@[i] == old(self).velocities@[i]);
            }
        }
        assert forall|i: int| 0 <= i < self.forces@.len() implies #[trigger] self.forces@[i].wf() by {
            if i == self.forces@.len() - 1 {
                assert(self.forces@[i].vector@ == (0int, 0int));
            } else {
                assert(self.forces@[i] == old(self).forces@[i]);
            }
        }
    }
}

/// `p` lies in the window when the window is centred on the origin.
pub open spec fn in_window(window: WindowSize, p: (int, int)) -> bool {
    &&& -(window.width as int / 2) <= p.0 <= window.width as int / 2
    &&& -(window.height as int / 2) <= p.1 <= window.height as int / 2
}

/// Relies on rand's `thread_rng` and `Rng::gen_range` over an inclusive range:
/// a value drawn from `lo..=hi`, which must not be empty.
#[verifier::external_body]
fn random_between(lo: i64, hi: i64) -> (r: i64)
    requires
        lo <= hi,
    ensures
        lo <= r <= hi,
{
    rand::thread_rng().gen_range(lo..=hi)
}

/// A flock of `count` agents at rest, each at a random position within the
/// window centred on the origin.
pub fn start(window: WindowSize, count: usize) -> (r: Flock)
    ensures
        r.wf(),
        r.in_bounds(),
        r.len() == count,
        forall|i: int| 0 <= i < count ==> {
            &&& in_window(window, (#[trigger] r.transforms@[i]).translation@)
            &&& r.transforms@[i].heading@ == (1int, 0int)
            &&& r.velocities@[i] == (Velocity { vector: Vec2 { x: 0, y: 0 }, max: MAX_SPEED })
            &&& r.forces@[i] == (Force { vector: Vec2 { x: 0, y: 0 }, max: MAX_FORCE })
        },
{
    let mut flock = Flock::new();
    let half_width = (window.width / 2) as i64;
    let half_height = (window.height / 2) as i64;
    let mut k: usize = 0;
    while k < count
        invariant
            0 <= k <= count,
            half_width == window.width / 2,
            half_height == window.height / 2,
            flock.wf(),
            flock.len() == k,
            forall|i: int| 0 <= i < k ==> {
                &&& in_window(window, (#[trigger] flock.transforms@[i]).translation@)
                &&& flock.transforms@[i].heading@ == (1int, 0int)
                &&& flock.velocities@[i] == (Velocity { vector: Vec2 { x: 0, y: 0 }, max: MAX_SPEED })
                &&& flock.forces@[i] == (Force { vector: Vec2 { x: 0, y: 0 }, max: MAX_FORCE })
            },
        decreases count - k,
    {
        let x = random_between(-half_width, half_width);
        let y = random_between(-half_height, half_height);
        let ghost before = flock;
        flock.spawn(Vec2 { x, y });
        assert forall|i: int| 0 <= i < k + 1 implies {
            &&& in_window(window, (#[trigger] flock.transforms@[i]).translation@)
            &&& flock.transforms@[i].heading@ == (1int, 0int)
            &&& flock.velocities@[i] == (Velocity { vector: Vec2 { x: 0, y: 0 }, max: MAX_SPEED })
            &&& flock.forces@[i] == (Force { vector: Vec2 { x: 0, y: 0 }, max: MAX_FORCE })
        } by {
            if i < k {
                assert(flock.transforms@[i] == before.transforms@[i]);
                assert(flock.velocities@[i] == before.velocities@[i]);
                assert(flock.forces@[i] == before.forces@[i]);
            }
        }
        k = k + 1;
    }
    assert forall|i: int| 0 <= i < flock.transforms@.len() implies in_world(#[trigger] flock.transforms@[i].translation@) by {
        assert(in_window(window, flock.transforms@[i].translation@));
    }
    flock
}

/// An agent at rest before a frame and after it keeps its facing direction.
pub proof fn lemma_rest_keeps_heading(flock: Flock, i: int, window: WindowSize, cursor: Option<Vec2>)
    requires
        flock.wf(),
        0 <= i < flock.len(),
        flock.velocities@[i].vector@ == (0int, 0int),
        frame_velocity(flock, i, window, cursor) == (0int, 0int),
    ensures
        turned(flock.transforms@[i].heading@, frame_velocity(flock, i, window, cursor))
            == flock.transforms@[i].heading@,
{
}

} // verus!
