//! One batch per primitive: what a primitive must satisfy, and the blocks of
//! vertex, index and plane data that are written for it.

use vstd::prelude::*;
use crate::encoding::{
    i32_le, pad16, padding, put_i16, put_i32, put_u16, put_u32, u16_le, u32_le, words_le, write_f32_slice,
    write_v3d_mesh_data_padding, write_zeros, zeros,
};
use crate::error::{Error, ErrorView};
use crate::render_state::{compute_render_state_for_material, render_state};
use crate::scene::{Mesh, Mode, Plane, Position, Primitive, PrimitiveView, Vector3};
use crate::texture::{
    get_material_base_color_texture_name, names_of, position, texture_index, texture_name,
};

verus! {

/// The most indices that one batch can hold.
pub const MAX_INDICES: usize = 9232;

/// The most vertices that one batch can hold.
pub const MAX_VERTICES: usize = 5232;

/// The flag of a triangle that is drawn from both sides.
pub const DOUBLE_SIDED: u16 = 0x20;

/// The first index that names no vertex, if there is one.
pub open spec fn first_bad_index(indices: Seq<u32>, vertex_count: nat) -> Option<u32>
    decreases indices.len(),
{
    if indices.len() == 0 {
        None
    } else if indices[0] >= vertex_count {
        Some(indices[0])
    } else {
        first_bad_index(indices.drop_first(), vertex_count)
    }
}

/// Why the format cannot hold the primitive, if it cannot: the checks come
/// in this order, and the first that fails decides.
pub open spec fn validation_error(p: PrimitiveView) -> Option<ErrorView> {
    if p.mode != Mode::Triangles {
        Some(ErrorView::UnsupportedTopology)
    } else if p.indices is None {
        Some(ErrorView::NotIndexed)
    } else if p.indices->Some_0.len() > MAX_INDICES {
        Some(
            ErrorView::TooManyIndices {
                count: p.indices->Some_0.len() as usize,
                limit: MAX_INDICES,
            },
        )
    } else if p.vertex_count() > MAX_VERTICES {
        Some(ErrorView::TooManyVertices { count: p.vertex_count() as usize, limit: MAX_VERTICES })
    } else if p.indices->Some_0.len() % 3 != 0 {
        Some(ErrorView::IndexCountNotMultipleOfThree { count: p.indices->Some_0.len() as usize })
    } else {
        None
    }
}

/// Which assumption about its data a primitive breaks that the format could
/// otherwise hold: again the first check that fails decides.
pub open spec fn data_error(p: PrimitiveView) -> Option<ErrorView> {
    if p.positions is None {
        Some(ErrorView::MissingPositions)
    } else if p.normals is None {
        Some(ErrorView::MissingNormals)
    } else if first_bad_index(p.indices->Some_0, p.vertex_count()) is Some {
        Some(
            ErrorView::IndexOutOfRange {
                index: first_bad_index(p.indices->Some_0, p.vertex_count())->Some_0,
                vertex_count: p.vertex_count() as usize,
            },
        )
    } else if p.planes.len() != p.indices->Some_0.len() / 3 {
        Some(
            ErrorView::PlaneCountMismatch {
                planes: p.planes.len() as usize,
                triangles: (p.indices->Some_0.len() / 3) as usize,
            },
        )
    } else {
        None
    }
}

/// Why the primitive cannot be encoded, if it cannot: validation comes
/// before the assumptions about the data.
pub open spec fn primitive_error(p: PrimitiveView) -> Option<ErrorView> {
    if validation_error(p) is Some {
        validation_error(p)
    } else {
        data_error(p)
    }
}

/// The coordinates of the positions, vertex after vertex.
pub open spec fn positions_bytes(positions: Seq<Position>) -> Seq<u8>
    decreases positions.len(),
{
    if positions.len() == 0 {
        Seq::empty()
    } else {
        positions_bytes(positions.drop_last()) + words_le(positions.last().coords@)
    }
}

/// The components of the normals, vertex after vertex.
pub open spec fn normals_bytes(normals: Seq<Vector3>) -> Seq<u8>
    decreases normals.len(),
{
    if normals.len() == 0 {
        Seq::empty()
    } else {
        normals_bytes(normals.drop_last()) + words_le(normals.last()@)
    }
}

/// The texture coordinates, vertex after vertex.
pub open spec fn tex_coords_bytes(tex_coords: Seq<[u32; 2]>) -> Seq<u8>
    decreases tex_coords.len(),
{
    if tex_coords.len() == 0 {
        Seq::empty()
    } else {
        tex_coords_bytes(tex_coords.drop_last()) + words_le(tex_coords.last()@)
    }
}

/// The planes, triangle after triangle.
pub open spec fn planes_bytes(planes: Seq<Plane>) -> Seq<u8>
    decreases planes.len(),
{
    if planes.len() == 0 {
        Seq::empty()
    } else {
        planes_bytes(planes.drop_last()) + words_le(planes.last()@)
    }
}

/// One triangle of the index block: its three vertex numbers and its flags,
/// each in sixteen bits.
pub open spec fn triangle_bytes(a: u32, b: u32, c: u32, flags: u16) -> Seq<u8> {
    u16_le(a as u16) + u16_le(b as u16) + u16_le(c as u16) + u16_le(flags)
}

/// The index block of the first `count` triangles of `indices`.
pub open spec fn triangles_bytes(indices: Seq<u32>, count: nat, flags: u16) -> Seq<u8>
    decreases count,
{
    if count == 0 {
        Seq::empty()
    } else {
        let t = count - 1;
        triangles_bytes(indices, t as nat, flags) + triangle_bytes(
            indices[3 * t],
            indices[3 * t + 1],
            indices[3 * t + 2],
            flags,
        )
    }
}

/// The flags that every triangle of the primitive carries.
pub open spec fn triangle_flags(p: PrimitiveView) -> u16 {
    if p.material.double_sided {
        DOUBLE_SIDED
    } else {
        0
    }
}

/// The buffer after the data of one primitive has been appended to `buf`:
/// positions, normals, texture coordinates, triangles, planes, one zero
/// offset of two bytes per vertex and one zero bone link of eight bytes per
/// vertex, each block padded so that the buffer ends on a multiple of
/// sixteen bytes.
pub open spec fn batch_data(buf: Seq<u8>, p: PrimitiveView) -> Seq<u8> {
    let indices = p.indices->Some_0;
    let b1 = pad16(buf + positions_bytes(p.positions->Some_0));
    let b2 = pad16(b1 + normals_bytes(p.normals->Some_0));
    let b3 = pad16(b2 + tex_coords_bytes(p.tex_coords));
    let b4 = pad16(b3 + triangles_bytes(indices, indices.len() / 3, triangle_flags(p)));
    let b5 = pad16(b4 + planes_bytes(p.planes));
    let b6 = pad16(b5 + zeros(2 * p.vertex_count()));
    pad16(b6 + zeros(8 * p.vertex_count()))
}

proof fn lemma_first_bad_index(indices: Seq<u32>, vertex_count: nat, k: int)
    requires
        0 <= k <= indices.len(),
        forall|j: int| 0 <= j < k ==> indices[j] < vertex_count,
        k < indices.len() ==> indices[k] >= vertex_count,
    ensures
        first_bad_index(indices, vertex_count) == if k < indices.len() {
            Some(indices[k])
        } else {
            None
        },
    decreases k,
{
    if k > 0 {
        let rest = indices.drop_first();
        assert forall|j: int| 0 <= j < k - 1 implies rest[j] < vertex_count by {
            assert(rest[j] == indices[j + 1]);
        }
        lemma_first_bad_index(rest, vertex_count, k - 1);
    }
}

/// The number of vertices of a primitive: that of its positions, or none
/// where they are missing.
pub fn get_primitive_vertex_count(prim: &Primitive) -> (n: usize)
    ensures
        n == prim@.vertex_count(),
{
    match &prim.positions {
        Some(positions) => positions.len(),
        None => 0,
    }
}

/// Checks what the format asks of a primitive before anything is written for it.
pub fn validate_primitive(prim: &Primitive) -> (r: Result<(), Error>)
    ensures
        match validation_error(prim@) {
            None => r is Ok,
            Some(e) => r matches Err(x) && x@ == e,
        },
{
    match prim.mode {
        Mode::Triangles => {},
        _ => {
            return Err(Error::UnsupportedTopology);
        },
    }
    let index_count = match &prim.indices {
        Some(indices) => indices.len(),
        None => {
            return Err(Error::NotIndexed);
        },
    };
    if index_count > MAX_INDICES {
        return Err(Error::TooManyIndices { count: index_count, limit: MAX_INDICES });
    }
    let vertex_count = get_primitive_vertex_count(prim);
    if vertex_count > MAX_VERTICES {
        return Err(Error::TooManyVertices { count: vertex_count, limit: MAX_VERTICES });
    }
    if index_count % 3 != 0 {
        return Err(Error::IndexCountNotMultipleOfThree { count: index_count });
    }
    Ok(())
}

/// Checks the assumptions about the data of a primitive that has passed
/// [`validate_primitive`].
fn check_primitive_data(prim: &Primitive) -> (r: Result<(), Error>)
    requires
        validation_error(prim@) is None,
    ensures
        match data_error(prim@) {
            None => r is Ok,
            Some(e) => r matches Err(x) && x@ == e,
        },
{
    let vertex_count = match &prim.positions {
        Some(positions) => positions.len(),
        None => {
            return Err(Error::MissingPositions);
        },
    };
    if prim.normals.is_none() {
        return Err(Error::MissingNormals);
    }
    let indices = prim.indices.as_ref().unwrap();
    let mut i: usize = 0;
    while i < indices.len()
        invariant
            i <= indices.len(),
            prim@.positions is Some,
            prim@.normals is Some,
            prim@.indices == Some(indices@),
            vertex_count == prim@.vertex_count(),
            forall|j: int| 0 <= j < i ==> indices@[j] < vertex_count,
        decreases indices.len() - i,
    {
        if indices[i] as usize >= vertex_count {
            proof {
                lemma_first_bad_index(indices@, vertex_count as nat, i as int);
            }
            return Err(Error::IndexOutOfRange { index: indices[i], vertex_count });
        }
        i += 1;
    }
    proof {
        lemma_first_bad_index(indices@, vertex_count as nat, i as int);
    }
    if prim.planes.len() != indices.len() / 3 {
        return Err(
            Error::PlaneCountMismatch { planes: prim.planes.len(), triangles: indices.len() / 3 },
        );
    }
    Ok(())
}

/// Checks a primitive in full: validation first, then the assumptions about its data.
pub fn check_primitive(prim: &Primitive) -> (r: Result<(), Error>)
    ensures
        match primitive_error(prim@) {
            None => r is Ok,
            Some(e) => r matches Err(x) && x@ == e,
        },
{
    validate_primitive(prim)?;
    check_primitive_data(prim)
}

/// Appends the data of one primitive: seven blocks, each followed by padding.
/// Nothing is written for a primitive that cannot be encoded.
pub fn write_v3d_batch_data(wrt: &mut Vec<u8>, prim: &Primitive) -> (r: Result<(), Error>)
    ensures
        match primitive_error(prim@) {
            None => r is Ok && final(wrt)@ == batch_data(old(wrt)@, prim@),
            Some(e) => (r matches Err(x) && x@ == e) && final(wrt)@ == old(wrt)@,
        },
{
    check_primitive(prim)?;
    let positions = prim.positions.as_ref().unwrap();
    let normals = prim.normals.as_ref().unwrap();
    let indices = prim.indices.as_ref().unwrap();
    let ghost start = wrt@;

    let mut i: usize = 0;
    while i < positions.len()
        invariant
            i <= positions.len(),
            wrt@ == start + positions_bytes(positions@.take(i as int)),
        decreases positions.len() - i,
    {
        write_f32_slice(wrt, &positions[i].coords);
        proof {
            assert(positions@.take(i + 1).drop_last() == positions@.take(i as int));
        }
        i += 1;
    }
    assert(positions@.take(i as int) == positions@);
    write_v3d_mesh_data_padding(wrt);
    let ghost b1 = wrt@;

    let mut i: usize = 0;
    while i < normals.len()
        invariant
            i <= normals.len(),
            wrt@ == b1 + normals_bytes(normals@.take(i as int)),
        decreases normals.len() - i,
    {
        write_f32_slice(wrt, &normals[i]);
        proof {
            assert(normals@.take(i + 1).drop_last() == normals@.take(i as int));
        }
        i += 1;
    }
    assert(normals@.take(i as int) == normals@);
    write_v3d_mesh_data_padding(wrt);
    let ghost b2 = wrt@;

    let mut i: usize = 0;
    while i < prim.tex_coords.len()
        invariant
            i <= prim.tex_coords.len(),
            wrt@ == b2 + tex_coords_bytes(prim.tex_coords@.take(i as int)),
        decreases prim.tex_coords.len() - i,
    {
        write_f32_slice(wrt, &prim.tex_coords[i]);
        proof {
            assert(prim.tex_coords@.take(i + 1).drop_last() == prim.tex_coords@.take(i as int));
        }
        i += 1;
    }
    assert(prim.tex_coords@.take(i as int) == prim.tex_coords@);
    write_v3d_mesh_data_padding(wrt);
    let ghost b3 = wrt@;

    let tri_flags: u16 = if prim.material.double_sided {
        DOUBLE_SIDED
    } else {
        0
    };
    let tri_count = indices.len() / 3;
    let mut t: usize = 0;
    while t < tri_count
        invariant
            t <= tri_count,
            tri_count == indices.len() / 3,
            indices.len() <= MAX_INDICES,
            positions.len() <= MAX_VERTICES,
            first_bad_index(indices@, positions.len() as nat) is None,
            wrt@ == b3 + triangles_bytes(indices@, t as nat, tri_flags),
        decreases tri_count - t,
    {
        let a = indices[3 * t];
        let b = indices[3 * t + 1];
        let c = indices[3 * t + 2];
        proof {
            lemma_no_bad_index(indices@, positions.len() as nat, 3 * t);
            lemma_no_bad_index(indices@, positions.len() as nat, 3 * t + 1);
            lemma_no_bad_index(indices@, positions.len() as nat, 3 * t + 2);
        }
        put_u16(wrt, a as u16);
        put_u16(wrt, b as u16);
        put_u16(wrt, c as u16);
        put_u16(wrt, tri_flags);
        t += 1;
    }
    write_v3d_mesh_data_padding(wrt);
    let ghost b4 = wrt@;

    let mut i: usize = 0;
    while i < prim.planes.len()
        invariant
            i <= prim.planes.len(),
            wrt@ == b4 + planes_bytes(prim.planes@.take(i as int)),
        decreases prim.planes.len() - i,
    {
        write_f32_slice(wrt, &prim.planes[i]);
        proof {
            assert(prim.planes@.take(i + 1).drop_last() == prim.planes@.take(i as int));
        }
        i += 1;
    }
    assert(prim.planes@.take(i as int) == prim.planes@);
    write_v3d_mesh_data_padding(wrt);
    let ghost b5 = wrt@;

    let num_vertices = get_primitive_vertex_count(prim);
    let mut i: usize = 0;
    while i < num_vertices
        invariant
            i <= num_vertices,
            wrt@ == b5 + zeros(2 * (i as nat)),
        decreases num_vertices - i,
    {
        put_i16(wrt, 0);
        i += 1;
        assert(wrt@ == b5 + zeros(2 * (i as nat)));
    }
    write_v3d_mesh_data_padding(wrt);
    let ghost b6 = wrt@;

    let mut i: usize = 0;
    while i < num_vertices
        invariant
            i <= num_vertices,
            num_vertices <= MAX_VERTICES,
            wrt@ == b6 + zeros(8 * (i as nat)),
        decreases num_vertices - i,
    {
        write_zeros(wrt, 8);
        i += 1;
        assert(wrt@ == b6 + zeros(8 * (i as nat)));
    }
    write_v3d_mesh_data_padding(wrt);
    Ok(())
}

proof fn lemma_no_bad_index(indices: Seq<u32>, vertex_count: nat, k: int)
    requires
        first_bad_index(indices, vertex_count) is None,
        0 <= k < indices.len(),
    ensures
        indices[k] < vertex_count,
    decreases k,
{
    if k > 0 {
        lemma_no_bad_index(indices.drop_first(), vertex_count, k - 1);
    }
}

/// Whether `table` can serve the primitives as their texture table: it
/// holds the texture name of each of them, and its places fit the field
/// that refers to them.
pub open spec fn serves(table: Seq<Seq<char>>, primitives: Seq<PrimitiveView>) -> bool {
    &&& table.len() <= 0x7fff_ffff
    &&& forall|i: int|
        0 <= i < primitives.len() ==> table.contains(
            texture_name(#[trigger] primitives[i].material),
        )
}

/// The header of one batch: thirty-two reserved bytes, the place of the
/// primitive's texture in the table, and twenty more reserved bytes.
pub open spec fn batch_header(p: PrimitiveView, table: Seq<Seq<char>>) -> Seq<u8> {
    zeros(0x20) + i32_le(position(table, texture_name(p.material)) as i32) + zeros(0x14)
}

/// The headers of the batches, in the order of the primitives.
pub open spec fn batch_headers(primitives: Seq<PrimitiveView>, table: Seq<Seq<char>>) -> Seq<u8>
    decreases primitives.len(),
{
    if primitives.len() == 0 {
        Seq::empty()
    } else {
        batch_headers(primitives.drop_last(), table) + batch_header(primitives.last(), table)
    }
}

/// The buffer after the data of each primitive has been appended to `buf`, in their order.
pub open spec fn batches_data(buf: Seq<u8>, primitives: Seq<PrimitiveView>) -> Seq<u8>
    decreases primitives.len(),
{
    if primitives.len() == 0 {
        buf
    } else {
        batch_data(batches_data(buf, primitives.drop_last()), primitives.last())
    }
}

/// Why the first primitive that cannot be encoded cannot, if there is one.
pub open spec fn first_primitive_error(primitives: Seq<PrimitiveView>) -> Option<ErrorView>
    decreases primitives.len(),
{
    if primitives.len() == 0 {
        None
    } else if primitive_error(primitives[0]) is Some {
        primitive_error(primitives[0])
    } else {
        first_primitive_error(primitives.drop_first())
    }
}

/// The data section of a mesh: the batch headers, padding, and the data of
/// each batch, with padding once more at the end.
pub open spec fn mesh_data(primitives: Seq<PrimitiveView>, table: Seq<Seq<char>>) -> Seq<u8> {
    pad16(batches_data(pad16(batch_headers(primitives, table)), primitives))
}

/// The record of one batch that follows the data section: the numbers of
/// its vertices and triangles, the sizes of five of its blocks, and its
/// render state.
pub open spec fn batch_info(p: PrimitiveView) -> Seq<u8> {
    let vertices = p.vertex_count();
    let triangles = p.indices->Some_0.len() / 3;
    u16_le(vertices as u16) + u16_le(triangles as u16) + u16_le((vertices * 12) as u16) + u16_le(
        (triangles * 8) as u16,
    ) + u16_le((vertices * 2) as u16) + u16_le((vertices * 8) as u16) + u16_le(
        (vertices * 8) as u16,
    ) + u32_le(render_state(p.material).packed())
}

proof fn lemma_first_primitive_error(primitives: Seq<PrimitiveView>, k: int)
    requires
        0 <= k <= primitives.len(),
        forall|j: int| 0 <= j < k ==> primitive_error(#[trigger] primitives[j]) is None,
        k < primitives.len() ==> primitive_error(primitives[k]) is Some,
    ensures
        first_primitive_error(primitives) == if k < primitives.len() {
            primitive_error(primitives[k])
        } else {
            None
        },
    decreases k,
{
    if k > 0 {
        let rest = primitives.drop_first();
        assert forall|j: int| 0 <= j < k - 1 implies primitive_error(#[trigger] rest[j])
            is None by {
            assert(rest[j] == primitives[j + 1]);
        }
        lemma_first_primitive_error(rest, k - 1);
    }
}

/// Appends the header of the batch of `prim`, which refers to the place of
/// the primitive's texture in `textures`.
pub fn write_v3d_batch_header(wrt: &mut Vec<u8>, prim: &Primitive, textures: &Vec<String>)
    requires
        textures@.len() <= 0x7fff_ffff,
        names_of(textures@).contains(texture_name(prim@.material)),
    ensures
        final(wrt)@ == old(wrt)@ + batch_header(prim@, names_of(textures@)),
{
    write_zeros(wrt, 0x20);
    let (texture_name, _) = get_material_base_color_texture_name(&prim.material);
    let texture_idx = texture_index(textures, &texture_name);
    put_i32(wrt, texture_idx as i32);
    write_zeros(wrt, 0x38 - 0x24);
}

/// Builds the data section of a mesh. The first primitive that cannot be
/// encoded stops it.
pub fn create_v3d_mesh_data(mesh: &Mesh, textures: &Vec<String>) -> (r: Result<Vec<u8>, Error>)
    requires
        serves(names_of(textures@), mesh@.primitives),
    ensures
        match first_primitive_error(mesh@.primitives) {
            None => r matches Ok(data) && data@ == mesh_data(
                mesh@.primitives,
                names_of(textures@),
            ),
            Some(e) => r matches Err(x) && x@ == e,
        },
{
    let mut wrt: Vec<u8> = Vec::new();
    let mut i: usize = 0;
    while i < mesh.primitives.len()
        invariant
            i <= mesh.primitives.len(),
            serves(names_of(textures@), mesh@.primitives),
            wrt@ == batch_headers(mesh@.primitives.take(i as int), names_of(textures@)),
        decreases mesh.primitives.len() - i,
    {
        proof {
            assert(mesh@.primitives.take(i + 1).drop_last() == mesh@.primitives.take(i as int));
            assert(mesh@.primitives[i as int] == mesh.primitives@[i as int]@);
        }
        write_v3d_batch_header(&mut wrt, &mesh.primitives[i], textures);
        i += 1;
    }
    assert(mesh@.primitives.take(i as int) == mesh@.primitives);
    write_v3d_mesh_data_padding(&mut wrt);
    let ghost start = wrt@;
    let mut i: usize = 0;
    while i < mesh.primitives.len()
        invariant
            i <= mesh.primitives.len(),
            forall|j: int| 0 <= j < i ==> primitive_error(#[trigger] mesh@.primitives[j]) is None,
            wrt@ == batches_data(start, mesh@.primitives.take(i as int)),
        decreases mesh.primitives.len() - i,
    {
        proof {
            assert(mesh@.primitives.take(i + 1).drop_last() == mesh@.primitives.take(i as int));
            assert(mesh@.primitives[i as int] == mesh.primitives@[i as int]@);
        }
        match write_v3d_batch_data(&mut wrt, &mesh.primitives[i]) {
            Ok(()) => {},
            Err(e) => {
                proof {
                    lemma_first_primitive_error(mesh@.primitives, i as int);
                }
                return Err(e);
            },
        }
        i += 1;
    }
    proof {
        assert(mesh@.primitives.take(i as int) == mesh@.primitives);
        lemma_first_primitive_error(mesh@.primitives, i as int);
    }
    write_v3d_mesh_data_padding(&mut wrt);
    Ok(wrt)
}

/// Appends the record of the batch of `prim` after validating the
/// primitive. Nothing is written for a primitive that the format cannot hold.
pub fn write_v3d_batch_info(wrt: &mut Vec<u8>, prim: &Primitive) -> (r: Result<(), Error>)
    ensures
        match validation_error(prim@) {
            None => r is Ok && final(wrt)@ == old(wrt)@ + batch_info(prim@),
            Some(e) => (r matches Err(x) && x@ == e) && final(wrt)@ == old(wrt)@,
        },
{
    validate_primitive(prim)?;
    let index_count = prim.indices.as_ref().unwrap().len();
    let tri_count = index_count / 3;
    let vertex_count = get_primitive_vertex_count(prim);
    put_u16(wrt, vertex_count as u16);
    put_u16(wrt, tri_count as u16);
    put_u16(wrt, (vertex_count * 3 * 4) as u16);
    put_u16(wrt, (tri_count * 4 * 2) as u16);
    put_u16(wrt, (vertex_count * 2) as u16);
    put_u16(wrt, (vertex_count * 2 * 4) as u16);
    put_u16(wrt, (vertex_count * 2 * 4) as u16);
    let (state, _) = compute_render_state_for_material(&prim.material);
    put_u32(wrt, state);
    Ok(())
}


/// What block number `j` of the data of a primitive holds, counted from zero.
pub open spec fn batch_block_content(p: PrimitiveView, j: int) -> Seq<u8> {
    let indices = p.indices->Some_0;
    if j == 0 {
        positions_bytes(p.positions->Some_0)
    } else if j == 1 {
        normals_bytes(p.normals->Some_0)
    } else if j == 2 {
        tex_coords_bytes(p.tex_coords)
    } else if j == 3 {
        triangles_bytes(indices, indices.len() / 3, triangle_flags(p))
    } else if j == 4 {
        planes_bytes(p.planes)
    } else if j == 5 {
        zeros(2 * p.vertex_count())
    } else {
        zeros(8 * p.vertex_count())
    }
}

/// Block number `j` of the data of a primitive with the padding that
/// brings its own length to a multiple of sixteen bytes.
pub open spec fn batch_block(p: PrimitiveView, j: int) -> Seq<u8> {
    pad16(batch_block_content(p, j))
}

/// The first `count` blocks of the data of a primitive, one after the other.
pub open spec fn batch_blocks(p: PrimitiveView, count: nat) -> Seq<u8>
    decreases count,
{
    if count == 0 {
        Seq::empty()
    } else {
        batch_blocks(p, (count - 1) as nat) + batch_block(p, count - 1)
    }
}

proof fn lemma_pad16_after_aligned(buf: Seq<u8>, block: Seq<u8>)
    requires
        buf.len() % 16 == 0,
    ensures
        pad16(buf + block) == buf + pad16(block),
        pad16(block).len() % 16 == 0,
        (buf + pad16(block)).len() % 16 == 0,
{
    assert(padding((buf + block).len()) == padding(block.len()));
    assert(pad16(buf + block) =~= buf + pad16(block));
}

proof fn lemma_seven_blocks(
    buf: Seq<u8>,
    x0: Seq<u8>,
    x1: Seq<u8>,
    x2: Seq<u8>,
    x3: Seq<u8>,
    x4: Seq<u8>,
    x5: Seq<u8>,
    x6: Seq<u8>,
)
    requires
        buf.len() % 16 == 0,
    ensures
        pad16(
            pad16(pad16(pad16(pad16(pad16(pad16(buf + x0) + x1) + x2) + x3) + x4) + x5) + x6,
        ) == buf + (Seq::<u8>::empty() + pad16(x0) + pad16(x1) + pad16(x2) + pad16(x3) + pad16(x4)
            + pad16(x5) + pad16(x6)),
{
    let e = Seq::<u8>::empty();
    let b1 = pad16(buf + x0);
    lemma_pad16_after_aligned(buf, x0);
    assert(b1 =~= buf + (e + pad16(x0)));
    let b2 = pad16(b1 + x1);
    lemma_pad16_after_aligned(b1, x1);
    assert(b2 =~= buf + (e + pad16(x0) + pad16(x1)));
    let b3 = pad16(b2 + x2);
    lemma_pad16_after_aligned(b2, x2);
    assert(b3 =~= buf + (e + pad16(x0) + pad16(x1) + pad16(x2)));
    let b4 = pad16(b3 + x3);
    lemma_pad16_after_aligned(b3, x3);
    assert(b4 =~= buf + (e + pad16(x0) + pad16(x1) + pad16(x2) + pad16(x3)));
    let b5 = pad16(b4 + x4);
    lemma_pad16_after_aligned(b4, x4);
    assert(b5 =~= buf + (e + pad16(x0) + pad16(x1) + pad16(x2) + pad16(x3) + pad16(x4)));
    let b6 = pad16(b5 + x5);
    lemma_pad16_after_aligned(b5, x5);
    assert(b6 =~= buf + (e + pad16(x0) + pad16(x1) + pad16(x2) + pad16(x3) + pad16(x4) + pad16(
        x5,
    )));
    let b7 = pad16(b6 + x6);
    lemma_pad16_after_aligned(b6, x6);
    assert(b7 =~= buf + (e + pad16(x0) + pad16(x1) + pad16(x2) + pad16(x3) + pad16(x4) + pad16(x5)
        + pad16(x6)));
}

/// Each padded block has a length that is a multiple of sixteen bytes,
/// and so has whatever number of them.
pub proof fn lemma_batch_blocks_are_whole(p: PrimitiveView, count: nat)
    ensures
        batch_block(p, count as int).len() % 16 == 0,
        batch_blocks(p, count).len() % 16 == 0,
    decreases count,
{
    lemma_pad16_after_aligned(Seq::empty(), batch_block_content(p, count as int));
    if count > 0 {
        lemma_batch_blocks_are_whole(p, (count - 1) as nat);
        lemma_pad16_after_aligned(Seq::empty(), batch_block_content(p, count - 1));
        assert(batch_blocks(p, count).len() == batch_blocks(p, (count - 1) as nat).len()
            + batch_block(p, count - 1).len());
    }
}

proof fn lemma_batch_data_unfolds(buf: Seq<u8>, p: PrimitiveView)
    ensures
        batch_data(buf, p) == pad16(
            pad16(
                pad16(
                    pad16(
                        pad16(
                            pad16(pad16(buf + batch_block_content(p, 0)) + batch_block_content(p, 1))
                                + batch_block_content(p, 2),
                        ) + batch_block_content(p, 3),
                    ) + batch_block_content(p, 4),
                ) + batch_block_content(p, 5),
            ) + batch_block_content(p, 6),
        ),
{
}

proof fn lemma_batch_blocks_unfold(p: PrimitiveView)
    ensures
        batch_blocks(p, 7) == Seq::<u8>::empty() + pad16(batch_block_content(p, 0)) + pad16(
            batch_block_content(p, 1),
        ) + pad16(batch_block_content(p, 2)) + pad16(batch_block_content(p, 3)) + pad16(
            batch_block_content(p, 4),
        ) + pad16(batch_block_content(p, 5)) + pad16(batch_block_content(p, 6)),
{
    reveal_with_fuel(batch_blocks, 8);
}

/// Started on a multiple of sixteen bytes from the start of the data
/// section, the data of a primitive is its seven padded blocks one after
/// the other.
pub proof fn lemma_batch_data_is_its_blocks(buf: Seq<u8>, p: PrimitiveView)
    requires
        buf.len() % 16 == 0,
    ensures
        batch_data(buf, p) == buf + batch_blocks(p, 7),
{
    lemma_seven_blocks(
        buf,
        batch_block_content(p, 0),
        batch_block_content(p, 1),
        batch_block_content(p, 2),
        batch_block_content(p, 3),
        batch_block_content(p, 4),
        batch_block_content(p, 5),
        batch_block_content(p, 6),
    );
    lemma_batch_data_unfolds(buf, p);
    lemma_batch_blocks_unfold(p);
}

/// Started on a multiple of sixteen bytes from the start of the data
/// section, every block of the data of a primitive starts and ends on
/// such a multiple.
pub proof fn lemma_batch_blocks_are_aligned(buf: Seq<u8>, p: PrimitiveView, j: nat)
    requires
        buf.len() % 16 == 0,
    ensures
        (buf + batch_blocks(p, j)).len() % 16 == 0,
{
    lemma_batch_blocks_are_whole(p, j);
}

/// In the data section of a mesh every batch starts and ends on a
/// multiple of sixteen bytes from the start of the section.
pub proof fn lemma_batches_are_aligned(
    primitives: Seq<PrimitiveView>,
    table: Seq<Seq<char>>,
    k: int,
)
    requires
        0 <= k <= primitives.len(),
    ensures
        batches_data(pad16(batch_headers(primitives, table)), primitives.take(k)).len() % 16 == 0,
    decreases k,
{
    let start = pad16(batch_headers(primitives, table));
    if k > 0 {
        lemma_batches_are_aligned(primitives, table, k - 1);
        assert(primitives.take(k).drop_last() == primitives.take(k - 1));
        let before = batches_data(start, primitives.take(k - 1));
        let p = primitives.take(k).last();
        lemma_batch_data_is_its_blocks(before, p);
        lemma_batch_blocks_are_aligned(before, p, 7);
    } else {
        assert(start.len() % 16 == 0);
    }
}

/// The data section of a mesh ends with its last batch: the padding at
/// its end adds nothing, and its length is a multiple of sixteen bytes.
pub proof fn lemma_mesh_data_is_aligned(primitives: Seq<PrimitiveView>, table: Seq<Seq<char>>)
    ensures
        mesh_data(primitives, table).len() % 16 == 0,
        mesh_data(primitives, table) == batches_data(
            pad16(batch_headers(primitives, table)),
            primitives,
        ),
{
    lemma_batches_are_aligned(primitives, table, primitives.len() as int);
    assert(primitives.take(primitives.len() as int) == primitives);
    let whole = batches_data(pad16(batch_headers(primitives, table)), primitives);
    assert(pad16(whole) =~= whole);
}

} // verus!
