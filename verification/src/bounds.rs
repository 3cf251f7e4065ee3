//! The bounds of a mesh: its axis-aligned box and the radius of its
//! bounding sphere.

use vstd::prelude::*;
use crate::binary32::{
    is_nan, is_negative, lemma_order, less_eq, max, maximum, min, minimum, INFINITY, NEG_INFINITY,
    ZERO,
};
use crate::error::{Error, ErrorView};
use crate::scene::{Mesh, MeshView, Position, PrimitiveView, Vector3};

verus! {

/// An axis-aligned box, given by its least and its greatest corner.
#[derive(Debug, Clone, Copy, PartialEq, Eq)]
pub struct BoundingBox {
    pub min: Vector3,
    pub max: Vector3,
}

/// The positions of all primitives, one primitive after the other; a
/// primitive without positions adds none.
pub open spec fn mesh_positions(primitives: Seq<PrimitiveView>) -> Seq<Position>
    decreases primitives.len(),
{
    if primitives.len() == 0 {
        Seq::empty()
    } else {
        mesh_positions(primitives.drop_last()) + match primitives.last().positions {
            Some(positions) => positions,
            None => Seq::empty(),
        }
    }
}

/// Whether some primitive has no positions.
pub open spec fn lacks_positions(primitives: Seq<PrimitiveView>) -> bool {
    exists|i: int| 0 <= i < primitives.len() && (#[trigger] primitives[i]).positions is None
}

/// The least coordinate along `axis`, starting from positive infinity.
pub open spec fn lowest(positions: Seq<Position>, axis: int) -> u32
    decreases positions.len(),
{
    if positions.len() == 0 {
        INFINITY
    } else {
        minimum(lowest(positions.drop_last(), axis), positions.last().coords[axis])
    }
}

/// The greatest coordinate along `axis`, starting from negative infinity.
pub open spec fn highest(positions: Seq<Position>, axis: int) -> u32
    decreases positions.len(),
{
    if positions.len() == 0 {
        NEG_INFINITY
    } else {
        maximum(highest(positions.drop_last(), axis), positions.last().coords[axis])
    }
}

/// The greatest distance from the origin, and no less than zero.
pub open spec fn farthest(positions: Seq<Position>) -> u32
    decreases positions.len(),
{
    if positions.len() == 0 {
        ZERO
    } else {
        maximum(farthest(positions.drop_last()), positions.last().distance)
    }
}

/// The least corner of the box of a mesh along `axis`: zero for a mesh without vertices.
pub open spec fn aabb_min(mesh: MeshView, axis: int) -> u32 {
    if mesh_positions(mesh.primitives).len() == 0 {
        ZERO
    } else {
        lowest(mesh_positions(mesh.primitives), axis)
    }
}

/// The greatest corner of the box of a mesh along `axis`: zero for a mesh without vertices.
pub open spec fn aabb_max(mesh: MeshView, axis: int) -> u32 {
    if mesh_positions(mesh.primitives).len() == 0 {
        ZERO
    } else {
        highest(mesh_positions(mesh.primitives), axis)
    }
}

/// The radius of the bounding sphere of a mesh, which is only defined
/// where every primitive has positions.
pub open spec fn bounding_radius(mesh: MeshView) -> Result<u32, ErrorView> {
    if lacks_positions(mesh.primitives) {
        Err(ErrorView::MissingPositions)
    } else {
        Ok(farthest(mesh_positions(mesh.primitives)))
    }
}

proof fn lemma_mesh_positions_step(primitives: Seq<PrimitiveView>, i: int)
    requires
        0 <= i < primitives.len(),
    ensures
        mesh_positions(primitives.take(i + 1)) == mesh_positions(primitives.take(i))
            + match primitives[i].positions {
            Some(positions) => positions,
            None => Seq::empty(),
        },
{
    assert(primitives.take(i + 1).drop_last() == primitives.take(i));
}

/// Counts the vertices of a mesh.
pub fn count_mesh_vertices(mesh: &Mesh) -> (n: u128)
    ensures
        n == mesh_positions(mesh@.primitives).len(),
{
    let mut n: u128 = 0;
    let mut i: usize = 0;
    while i < mesh.primitives.len()
        invariant
            i <= mesh.primitives.len(),
            n == mesh_positions(mesh@.primitives.take(i as int)).len(),
            n <= i * 0x1_0000_0000_0000_0000,
        decreases mesh.primitives.len() - i,
    {
        proof {
            lemma_mesh_positions_step(mesh@.primitives, i as int);
        }
        if let Some(positions) = &mesh.primitives[i].positions {
            n = n + positions.len() as u128;
        }
        i += 1;
    }
    assert(mesh@.primitives.take(i as int) == mesh@.primitives);
    n
}

/// Computes the axis-aligned box of a mesh. A mesh without vertices has the
/// box from the origin to the origin; otherwise each corner is folded from
/// the coordinates of all vertices, in the order of the primitives.
pub fn compute_mesh_aabb(mesh: &Mesh) -> (aabb: BoundingBox)
    ensures
        aabb.min[0] == aabb_min(mesh@, 0),
        aabb.min[1] == aabb_min(mesh@, 1),
        aabb.min[2] == aabb_min(mesh@, 2),
        aabb.max[0] == aabb_max(mesh@, 0),
        aabb.max[1] == aabb_max(mesh@, 1),
        aabb.max[2] == aabb_max(mesh@, 2),
{
    if count_mesh_vertices(mesh) == 0 {
        return BoundingBox { min: [ZERO, ZERO, ZERO], max: [ZERO, ZERO, ZERO] };
    }
    let mut lo: Vector3 = [INFINITY, INFINITY, INFINITY];
    let mut hi: Vector3 = [NEG_INFINITY, NEG_INFINITY, NEG_INFINITY];
    let mut i: usize = 0;
    while i < mesh.primitives.len()
        invariant
            i <= mesh.primitives.len(),
            forall|axis: int|
                0 <= axis < 3 ==> lo[axis] == lowest(
                    mesh_positions(mesh@.primitives.take(i as int)),
                    axis,
                ) && hi[axis] == highest(mesh_positions(mesh@.primitives.take(i as int)), axis),
        decreases mesh.primitives.len() - i,
    {
        proof {
            lemma_mesh_positions_step(mesh@.primitives, i as int);
        }
        if let Some(positions) = &mesh.primitives[i].positions {
            let ghost seen = mesh_positions(mesh@.primitives.take(i as int));
            let mut j: usize = 0;
            assert(seen + positions@.take(0) == seen);
            while j < positions.len()
                invariant
                    j <= positions.len(),
                    forall|axis: int|
                        0 <= axis < 3 ==> lo[axis] == lowest(seen + positions@.take(j as int), axis)
                            && hi[axis] == highest(seen + positions@.take(j as int), axis),
                decreases positions.len() - j,
            {
                let coords = &positions[j].coords;
                proof {
                    let next = seen + positions@.take(j + 1);
                    assert(next.drop_last() == seen + positions@.take(j as int));
                    assert(next.last() == positions@[j as int]);
                }
                lo = [min(lo[0], coords[0]), min(lo[1], coords[1]), min(lo[2], coords[2])];
                hi = [max(hi[0], coords[0]), max(hi[1], coords[1]), max(hi[2], coords[2])];
                j += 1;
            }
            assert(positions@.take(j as int) == positions@);
        } else {
            assert(mesh_positions(mesh@.primitives.take(i as int)) + Seq::<Position>::empty()
                == mesh_positions(mesh@.primitives.take(i as int)));
        }
        i += 1;
    }
    assert(mesh@.primitives.take(i as int) == mesh@.primitives);
    BoundingBox { min: lo, max: hi }
}

/// Computes the radius of the bounding sphere of a mesh around the origin
/// of its frame: the greatest distance of a vertex. A primitive without
/// positions is a failure.
pub fn compute_mesh_bounding_sphere_radius(mesh: &Mesh) -> (r: Result<u32, Error>)
    ensures
        match bounding_radius(mesh@) {
            Ok(radius) => r == Ok::<u32, Error>(radius),
            Err(e) => r matches Err(x) && x@ == e,
        },
{
    let mut radius = ZERO;
    let mut i: usize = 0;
    while i < mesh.primitives.len()
        invariant
            i <= mesh.primitives.len(),
            !lacks_positions(mesh@.primitives.take(i as int)),
            radius == farthest(mesh_positions(mesh@.primitives.take(i as int))),
        decreases mesh.primitives.len() - i,
    {
        proof {
            lemma_mesh_positions_step(mesh@.primitives, i as int);
        }
        if let Some(positions) = &mesh.primitives[i].positions {
            let ghost seen = mesh_positions(mesh@.primitives.take(i as int));
            let mut j: usize = 0;
            assert(seen + positions@.take(0) == seen);
            while j < positions.len()
                invariant
                    j <= positions.len(),
                    radius == farthest(seen + positions@.take(j as int)),
                decreases positions.len() - j,
            {
                proof {
                    let next = seen + positions@.take(j + 1);
                    assert(next.drop_last() == seen + positions@.take(j as int));
                    assert(next.last() == positions@[j as int]);
                }
                radius = max(radius, positions[j].distance);
                j += 1;
            }
            assert(positions@.take(j as int) == positions@);
            proof {
                let next = mesh@.primitives.take(i + 1);
                assert forall|k: int| 0 <= k < next.len() implies (#[trigger] next[k]).positions
                    is Some by {
                    if k < i {
                        assert(mesh@.primitives.take(i as int)[k] == next[k]);
                    }
                }
            }
        } else {
            assert(mesh@.primitives[i as int].positions is None);
            return Err(Error::MissingPositions);
        }
        i += 1;
    }
    assert(mesh@.primitives.take(i as int) == mesh@.primitives);
    Ok(radius)
}

proof fn lemma_fold_bounds(positions: Seq<Position>, axis: int, i: int)
    requires
        0 <= axis < 3,
        0 <= i < positions.len(),
        forall|k: int| 0 <= k < positions.len() ==> !is_nan(#[trigger] positions[k].coords[axis]),
    ensures
        !is_nan(lowest(positions, axis)),
        !is_nan(highest(positions, axis)),
        less_eq(lowest(positions, axis), positions[i].coords[axis]),
        less_eq(positions[i].coords[axis], highest(positions, axis)),
    decreases positions.len(),
{
    let rest = positions.drop_last();
    let last = positions.last().coords[axis];
    assert(!is_nan(last));
    assert forall|k: int| 0 <= k < rest.len() implies !is_nan(#[trigger] rest[k].coords[axis]) by {
        assert(rest[k] == positions[k]);
    }
    if rest.len() > 0 {
        lemma_fold_bounds(rest, axis, 0);
        if i < rest.len() {
            lemma_fold_bounds(rest, axis, i);
            assert(rest[i] == positions[i]);
            lemma_order(lowest(positions, axis), lowest(rest, axis), positions[i].coords[axis]);
            lemma_order(positions[i].coords[axis], highest(rest, axis), highest(positions, axis));
        }
    }
    lemma_order(lowest(rest, axis), last, last);
    lemma_order(highest(rest, axis), last, last);
}

/// The box of a mesh that has vertices, none of whose coordinates is not a
/// number, holds every vertex, and its least corner is not beyond its
/// greatest.
pub proof fn lemma_aabb_holds_every_vertex(mesh: MeshView, axis: int)
    requires
        0 <= axis < 3,
        mesh_positions(mesh.primitives).len() > 0,
        forall|k: int|
            0 <= k < mesh_positions(mesh.primitives).len() ==> !is_nan(
                #[trigger] mesh_positions(mesh.primitives)[k].coords[axis],
            ),
    ensures
        less_eq(aabb_min(mesh, axis), aabb_max(mesh, axis)),
        forall|k: int|
            0 <= k < mesh_positions(mesh.primitives).len() ==> less_eq(
                aabb_min(mesh, axis),
                #[trigger] mesh_positions(mesh.primitives)[k].coords[axis],
            ) && less_eq(mesh_positions(mesh.primitives)[k].coords[axis], aabb_max(mesh, axis)),
{
    let positions = mesh_positions(mesh.primitives);
    assert forall|k: int| 0 <= k < positions.len() implies less_eq(
        aabb_min(mesh, axis),
        #[trigger] positions[k].coords[axis],
    ) && less_eq(positions[k].coords[axis], aabb_max(mesh, axis)) by {
        lemma_fold_bounds(positions, axis, k);
    }
    lemma_fold_bounds(positions, axis, 0);
    lemma_order(aabb_min(mesh, axis), positions[0].coords[axis], aabb_max(mesh, axis));
}

/// The box of a mesh without vertices reaches from the origin to the origin.
pub proof fn lemma_aabb_of_no_vertices(mesh: MeshView, axis: int)
    requires
        mesh_positions(mesh.primitives).len() == 0,
    ensures
        aabb_min(mesh, axis) == ZERO,
        aabb_max(mesh, axis) == ZERO,
{
}

/// Whether a pattern is a distance: a number that is not negative.
pub open spec fn is_distance(bits: u32) -> bool {
    !is_nan(bits) && !is_negative(bits)
}

/// Where every vertex carries a distance, the greatest of them is the
/// radius: no vertex lies farther out, and some vertex lies exactly that
/// far, unless there is no vertex, and then the radius is zero.
pub proof fn lemma_radius_is_greatest_distance(positions: Seq<Position>)
    requires
        forall|k: int| 0 <= k < positions.len() ==> is_distance(#[trigger] positions[k].distance),
    ensures
        is_distance(farthest(positions)),
        forall|k: int|
            0 <= k < positions.len() ==> less_eq(
                #[trigger] positions[k].distance,
                farthest(positions),
            ),
        positions.len() == 0 ==> farthest(positions) == ZERO,
        positions.len() > 0 ==> exists|k: int|
            0 <= k < positions.len() && #[trigger] positions[k].distance == farthest(positions),
    decreases positions.len(),
{
    if positions.len() > 0 {
        let rest = positions.drop_last();
        let last = positions.last().distance;
        assert(is_distance(last));
        assert forall|k: int| 0 <= k < rest.len() implies is_distance(
            #[trigger] rest[k].distance,
        ) by {
            assert(rest[k] == positions[k]);
        }
        lemma_radius_is_greatest_distance(rest);
        lemma_order(farthest(rest), last, last);
        assert forall|k: int| 0 <= k < positions.len() implies less_eq(
            #[trigger] positions[k].distance,
            farthest(positions),
        ) by {
            if k < rest.len() {
                assert(rest[k] == positions[k]);
                lemma_order(positions[k].distance, farthest(rest), farthest(positions));
            }
        }
        if farthest(positions) == last {
            assert(positions[positions.len() - 1].distance == farthest(positions));
        } else {
            assert(farthest(positions) == farthest(rest));
            assert(rest.len() > 0);
            let k = choose|k: int|
                0 <= k < rest.len() && #[trigger] rest[k].distance == farthest(rest);
            assert(positions[k].distance == farthest(positions));
        }
    }
}

} // verus!
