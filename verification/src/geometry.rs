//! What can be decided about a transform or a normal without arithmetic on
//! real numbers: splitting a transform into origin and linear part, and
//! choosing the axis along which texture coordinates are projected.

use vstd::prelude::*;
use crate::binary32::{abs, le, less_eq, magnitude, max, maximum};
use crate::scene::{Matrix3, Matrix4, Vector3};

verus! {

/// One of the three axes of a frame.
#[derive(Debug, Clone, Copy, PartialEq, Eq, Structural)]
pub enum Axis {
    X,
    Y,
    Z,
}

/// The axis along which a normal is longest. X wins where its component is
/// at least as long as the longer of the other two, Y where that holds of
/// its component, and Z takes the rest; a comparison with a component that
/// is not a number fails.
pub open spec fn dominant_axis(n: Vector3) -> Axis {
    let x = magnitude(n[0]);
    let y = magnitude(n[1]);
    let z = magnitude(n[2]);
    if less_eq(maximum(y, z), x) {
        Axis::X
    } else if less_eq(maximum(x, z), y) {
        Axis::Y
    } else {
        Axis::Z
    }
}

/// Splits a transform into its origin, which is the translation row, and
/// its linear part, which is the upper left three by three block.
pub fn extract_translation_from_matrix(transform: &Matrix4) -> (r: (Vector3, Matrix3))
    ensures
        forall|j: int| 0 <= j < 3 ==> r.0[j] == transform[3][j],
        forall|i: int, j: int| 0 <= i < 3 && 0 <= j < 3 ==> r.1[i][j] == transform[i][j],
{
    let translation = [transform[3][0], transform[3][1], transform[3][2]];
    let rot_scale_mat = [
        [transform[0][0], transform[0][1], transform[0][2]],
        [transform[1][0], transform[1][1], transform[1][2]],
        [transform[2][0], transform[2][1], transform[2][2]],
    ];
    (translation, rot_scale_mat)
}

/// Chooses the axis along which the texture coordinates of a vertex with
/// normal `n` are projected when the primitive brings none of its own.
pub fn projection_axis(n: &Vector3) -> (axis: Axis)
    ensures
        axis == dominant_axis(*n),
{
    let x = abs(n[0]);
    let y = abs(n[1]);
    let z = abs(n[2]);
    if le(max(y, z), x) {
        Axis::X
    } else if le(max(x, z), y) {
        Axis::Y
    } else {
        Axis::Z
    }
}

} // verus!
