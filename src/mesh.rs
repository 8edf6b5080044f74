//! Index lists of the meshes that are drawn.
use vstd::prelude::*;

verus! {

/// Number of rim vertices of the circle mesh.
pub const CIRCLE_VERTICES: u32 = 50;

/// Number of triangles in the fan over `n` rim vertices. The first triangle is
/// there even when `n` is zero.
pub open spec fn fan_len(n: int) -> int {
    if n == 0 {
        1
    } else {
        n
    }
}

/// Triangle `k` of the fan over rim vertices `1..=n` around the centre vertex
/// `0`: the first closes the rim from vertex `n` to vertex `1`, the others join
/// rim vertices `k` and `k + 1`.
pub open spec fn fan_triangle(n: int, k: int) -> (int, int, int) {
    if k == 0 {
        (0, n, 1)
    } else {
        (0, k, k + 1)
    }
}

/// The index list of a triangle fan around vertex `0` over the rim vertices
/// `1..=n`, three indices per triangle.
pub fn circle_fan_indices(n: u32) -> (r: Vec<u32>)
    ensures
        r@.len() == 3 * fan_len(n as int),
        forall|k: int| 0 <= k < fan_len(n as int) ==> (
            r@[3 * k] as int,
            r@[3 * k + 1] as int,
            r@[3 * k + 2] as int,
        ) == #[trigger] fan_triangle(n as int, k),
{
    let mut r: Vec<u32> = Vec::new();
    r.push(0);
    r.push(n);
    r.push(1);
    let mut i: u64 = 2;
    while i <= n as u64
        invariant
            2 <= i,
            n >= 1 ==> i <= n + 1,
            n == 0 ==> i == 2,
            r@.len() == 3 * (i - 1),
            forall|k: int| 0 <= k < i - 1 ==> (
                r@[3 * k] as int,
                r@[3 * k + 1] as int,
                r@[3 * k + 2] as int,
            ) == #[trigger] fan_triangle(n as int, k),
        decreases n + 1 - i,
    {
        r.push(0);
        r.push((i - 1) as u32);
        r.push(i as u32);
        assert(fan_triangle(n as int, i - 1) == (0int, i - 1, i as int));
        i = i + 1;
    }
    r
}

/// The index list of the agents' mesh: one triangle.
pub fn boid_indices() -> (r: Vec<u32>)
    ensures
        r@ == seq![0u32, 1, 2],
{
    let mut r: Vec<u32> = Vec::new();
    r.push(0);
    r.push(1);
    r.push(2);
    assert(r@ =~= seq![0u32, 1, 2]);
    r
}

} // verus!
