//! One section per node that carries a mesh: its name, its bounds, its one
//! level of detail and its materials.

use vstd::prelude::*;
use vstd::utf8::{encode_utf8, is_ascii_chars_encode_utf8};
use crate::batch::{
    batch_info, create_v3d_mesh_data, first_primitive_error, mesh_data, serves, validation_error,
    write_v3d_batch_info,
};
use crate::bounds::{
    aabb_max, aabb_min, bounding_radius, compute_mesh_aabb, compute_mesh_bounding_sphere_radius,
    count_mesh_vertices, mesh_positions,
};
use crate::encoding::{
    char_array, i32_le, put_i32, put_u16, put_u32, put_u8, u16_le, u32_le, write_char_array,
    write_zeros, zeros,
};
use crate::error::{Error, ErrorView};
use crate::geometry::extract_translation_from_matrix;
use crate::scene::{Mesh, MeshView, Node, NodeView, PrimitiveView, Vector3};
use crate::texture::{
    emissive_factor, get_emissive_factor, get_material_base_color_texture_name,
    get_submesh_textures, names_of, position, texture_index, texture_name, texture_names,
    texture_table, MAX_TEXTURES,
};

verus! {

/// The tag that opens the section of a submesh.
pub const V3D_SUBMESH: u32 = 0x5355424D;

/// The version of the submesh record.
pub const SUBMESH_VERSION: u32 = 7;

/// The flags of a level of detail of a static mesh.
pub const LOD_FLAGS: u32 = 0x20;

/// The number that follows the data section of a level of detail.
pub const LOD_DATA_END: i32 = -1;

/// The flags of every material.
pub const MATERIAL_FLAGS: u32 = 0x11;

/// The size of the field that holds the name of a node.
pub const NODE_NAME_SIZE: usize = 24;

/// The size of the field that holds the name of a texture in a material.
pub const MATERIAL_NAME_SIZE: usize = 32;

/// The low thirty-two bits of a number.
pub open spec fn low32(n: nat) -> u32 {
    (n % 0x1_0000_0000) as u32
}

/// The low sixteen bits of a number.
pub open spec fn low16(n: nat) -> u16 {
    (n % 0x1_0000) as u16
}

/// The name under which a node is written: its own, or `Default`.
pub open spec fn node_name(node: NodeView) -> Seq<char> {
    match node.name {
        Some(name) => name,
        None => "Default"@,
    }
}

/// One entry of the texture list of a level of detail: the place of the
/// texture in the table, its name, and a zero byte.
pub open spec fn lod_texture(name: Seq<char>, table: Seq<Seq<char>>) -> Seq<u8> {
    seq![position(table, name) as u8] + encode_utf8(name) + seq![0u8]
}

/// The texture list of a level of detail: one entry per primitive, in their order.
pub open spec fn lod_textures(primitives: Seq<PrimitiveView>, table: Seq<Seq<char>>) -> Seq<u8>
    decreases primitives.len(),
{
    if primitives.len() == 0 {
        Seq::empty()
    } else {
        lod_textures(primitives.drop_last(), table) + lod_texture(
            texture_name(primitives.last().material),
            table,
        )
    }
}

/// The records of the batches, in the order of the primitives.
pub open spec fn batch_infos(primitives: Seq<PrimitiveView>) -> Seq<u8>
    decreases primitives.len(),
{
    if primitives.len() == 0 {
        Seq::empty()
    } else {
        batch_infos(primitives.drop_last()) + batch_info(primitives.last())
    }
}

/// The one level of detail of a submesh: flags, the number of vertices,
/// the number of batches, the data section with its size before it, a
/// constant, the batch records, the number of prop points, which is zero,
/// and the texture list with its length before it.
pub open spec fn lod_model(primitives: Seq<PrimitiveView>, table: Seq<Seq<char>>) -> Seq<u8> {
    let data = mesh_data(primitives, table);
    u32_le(LOD_FLAGS) + u32_le(low32(mesh_positions(primitives).len())) + u16_le(
        low16(primitives.len()),
    ) + u32_le(low32(data.len())) + data + i32_le(LOD_DATA_END) + batch_infos(primitives) + u32_le(0)
        + u32_le(low32(primitives.len())) + lod_textures(primitives, table)
}

/// One material: the texture name in a field of thirty-two bytes, the
/// emissive strength, three reserved numbers, a reserved field of
/// thirty-two bytes, and the flags.
pub open spec fn material_record(name: Seq<char>, emissive: u32) -> Seq<u8> {
    char_array(encode_utf8(name), MATERIAL_NAME_SIZE as nat) + u32_le(emissive) + u32_le(0)
        + u32_le(0) + u32_le(0) + zeros(32) + u32_le(MATERIAL_FLAGS)
}

/// The materials of the first `count` textures of the table.
pub open spec fn material_records(
    primitives: Seq<PrimitiveView>,
    table: Seq<Seq<char>>,
    count: nat,
) -> Seq<u8>
    decreases count,
{
    if count == 0 {
        Seq::empty()
    } else {
        let k = count - 1;
        material_records(primitives, table, k as nat) + material_record(
            table[k],
            emissive_factor(primitives, table[k]),
        )
    }
}

/// The first name of the table that does not fit the name field of a material.
pub open spec fn first_long_name(table: Seq<Seq<char>>) -> Option<Seq<char>>
    decreases table.len(),
{
    if table.len() == 0 {
        None
    } else if encode_utf8(table[0]).len() >= MATERIAL_NAME_SIZE {
        Some(table[0])
    } else {
        first_long_name(table.drop_first())
    }
}

/// Why the section of a node cannot be written, if it cannot. The checks
/// come in the order in which the section is laid out: the name of the
/// node, the bounding sphere, the texture table, the primitives, and the
/// names of the materials.
#[verifier::opaque]
pub open spec fn section_error(node: NodeView) -> Option<ErrorView> {
    let primitives = node.mesh->Some_0.primitives;
    let table = texture_table(node.mesh->Some_0);
    if encode_utf8(node_name(node)).len() >= NODE_NAME_SIZE {
        Some(ErrorView::NameTooLong { name: node_name(node), max: (NODE_NAME_SIZE - 1) as usize })
    } else if bounding_radius(node.mesh->Some_0) is Err {
        Some(bounding_radius(node.mesh->Some_0)->Err_0)
    } else if table.len() > MAX_TEXTURES {
        Some(ErrorView::TooManyTextures { count: table.len() as usize, limit: MAX_TEXTURES })
    } else if first_primitive_error(primitives) is Some {
        first_primitive_error(primitives)
    } else if first_long_name(table) is Some {
        Some(
            ErrorView::NameTooLong {
                name: first_long_name(table)->Some_0,
                max: (MATERIAL_NAME_SIZE - 1) as usize,
            },
        )
    } else {
        None
    }
}

/// The bounding sphere of a node: the origin of its frame, which is the
/// translation of its transform, and the radius around it.
pub open spec fn bounding_sphere(node: NodeView) -> Seq<u8> {
    u32_le(node.transform[3][0]) + u32_le(node.transform[3][1]) + u32_le(node.transform[3][2])
        + u32_le(bounding_radius(node.mesh->Some_0)->Ok_0)
}

/// The bounding box of a mesh: its least corner, then its greatest.
pub open spec fn bounding_box(mesh: MeshView) -> Seq<u8> {
    u32_le(aabb_min(mesh, 0)) + u32_le(aabb_min(mesh, 1)) + u32_le(aabb_min(mesh, 2)) + u32_le(
        aabb_max(mesh, 0),
    ) + u32_le(aabb_max(mesh, 1)) + u32_le(aabb_max(mesh, 2))
}

/// What opens the section of a node: the tag, a size that is left zero,
/// the name of the node, a reserved name, the version, the number of
/// levels of detail, which is one, and the distance of the first, which is zero.
pub open spec fn section_head(name: Seq<char>) -> Seq<u8> {
    u32_le(V3D_SUBMESH) + u32_le(0) + char_array(encode_utf8(name), NODE_NAME_SIZE as nat)
        + char_array(encode_utf8("None"@), NODE_NAME_SIZE as nat) + u32_le(SUBMESH_VERSION)
        + u32_le(1) + u32_le(0)
}

/// The materials of a submesh, one per texture of the table, with their number before them.
pub open spec fn materials(primitives: Seq<PrimitiveView>, table: Seq<Seq<char>>) -> Seq<u8> {
    u32_le(low32(table.len())) + material_records(primitives, table, table.len())
}

/// What closes the section of a node: one record that repeats the name of
/// the node and holds a zero.
pub open spec fn section_tail(name: Seq<char>) -> Seq<u8> {
    u32_le(1) + char_array(encode_utf8(name), NODE_NAME_SIZE as nat) + u32_le(0)
}

/// The section of a node that carries a mesh.
#[verifier::opaque]
pub open spec fn submesh_section(node: NodeView) -> Seq<u8> {
    let mesh = node.mesh->Some_0;
    let table = texture_table(mesh);
    section_head(node_name(node)) + bounding_sphere(node) + bounding_box(mesh) + lod_model(
        mesh.primitives,
        table,
    ) + materials(mesh.primitives, table) + section_tail(node_name(node))
}

/// Appends one entry of the texture list of a level of detail.
pub fn write_v3d_lod_texture(wrt: &mut Vec<u8>, tex_name: &str, textures: &Vec<String>)
    requires
        textures@.len() <= 256,
        names_of(textures@).contains(tex_name@),
    ensures
        final(wrt)@ == old(wrt)@ + lod_texture(tex_name@, names_of(textures@)),
{
    let ghost start = wrt@;
    let id = texture_index(textures, &tex_name.to_owned());
    put_u8(wrt, id as u8);
    let bytes = tex_name.as_bytes();
    let ghost named = wrt@;
    let mut i: usize = 0;
    while i < bytes.len()
        invariant
            i <= bytes.len(),
            wrt@ == named + bytes@.take(i as int),
        decreases bytes.len() - i,
    {
        wrt.push(bytes[i]);
        i += 1;
    }
    assert(bytes@.take(i as int) == bytes@);
    put_u8(wrt, 0);
    assert(wrt@ == start + lod_texture(tex_name@, names_of(textures@)));
}

proof fn lemma_no_primitive_error(primitives: Seq<PrimitiveView>, k: int)
    requires
        first_primitive_error(primitives) is None,
        0 <= k < primitives.len(),
    ensures
        validation_error(primitives[k]) is None,
    decreases k,
{
    if k > 0 {
        lemma_no_primitive_error(primitives.drop_first(), k - 1);
    }
}

proof fn lemma_first_long_name(table: Seq<Seq<char>>, k: int)
    requires
        0 <= k <= table.len(),
        forall|j: int| 0 <= j < k ==> encode_utf8(#[trigger] table[j]).len() < MATERIAL_NAME_SIZE,
        k < table.len() ==> encode_utf8(table[k]).len() >= MATERIAL_NAME_SIZE,
    ensures
        first_long_name(table) == if k < table.len() {
            Some(table[k])
        } else {
            None
        },
    decreases k,
{
    if k > 0 {
        let rest = table.drop_first();
        assert forall|j: int| 0 <= j < k - 1 implies encode_utf8(#[trigger] rest[j]).len()
            < MATERIAL_NAME_SIZE by {
            assert(rest[j] == table[j + 1]);
        }
        lemma_first_long_name(rest, k - 1);
    }
}

/// Appends the one level of detail of a mesh, whose batches refer to
/// `textures`. Nothing is written if a primitive cannot be encoded.
pub fn write_v3d_lod_model(wrt: &mut Vec<u8>, mesh: &Mesh, textures: &Vec<String>) -> (r: Result<
    (),
    Error,
>)
    requires
        textures@.len() <= 256,
        serves(names_of(textures@), mesh@.primitives),
    ensures
        match first_primitive_error(mesh@.primitives) {
            None => r is Ok && final(wrt)@ == old(wrt)@ + lod_model(
                mesh@.primitives,
                names_of(textures@),
            ),
            Some(e) => (r matches Err(x) && x@ == e) && final(wrt)@ == old(wrt)@,
        },
{
    let mut batch_data = create_v3d_mesh_data(mesh, textures)?;
    let ghost data = batch_data@;
    let ghost primitives = mesh@.primitives;
    let ghost table = names_of(textures@);
    let mut out: Vec<u8> = Vec::new();
    put_u32(&mut out, LOD_FLAGS);
    put_u32(&mut out, (count_mesh_vertices(mesh) % 0x1_0000_0000) as u32);
    put_u16(&mut out, (mesh.primitives.len() as u64 % 0x1_0000) as u16);
    put_u32(&mut out, (batch_data.len() as u64 % 0x1_0000_0000) as u32);
    out.append(&mut batch_data);
    put_i32(&mut out, LOD_DATA_END);
    let ghost head = out@;
    assert(head == u32_le(LOD_FLAGS) + u32_le(low32(mesh_positions(primitives).len())) + u16_le(
        low16(primitives.len()),
    ) + u32_le(low32(data.len())) + data + i32_le(LOD_DATA_END));

    let mut i: usize = 0;
    while i < mesh.primitives.len()
        invariant
            i <= mesh.primitives.len(),
            primitives == mesh@.primitives,
            first_primitive_error(primitives) is None,
            out@ == head + batch_infos(primitives.take(i as int)),
        decreases mesh.primitives.len() - i,
    {
        proof {
            assert(primitives.take(i + 1).drop_last() == primitives.take(i as int));
            assert(primitives[i as int] == mesh.primitives@[i as int]@);
            lemma_no_primitive_error(primitives, i as int);
        }
        let written = write_v3d_batch_info(&mut out, &mesh.primitives[i]);
        assert(written is Ok);
        i += 1;
    }
    assert(primitives.take(i as int) == primitives);
    put_u32(&mut out, 0);
    put_u32(&mut out, (mesh.primitives.len() as u64 % 0x1_0000_0000) as u32);
    let ghost listed = out@;

    let mut i: usize = 0;
    while i < mesh.primitives.len()
        invariant
            i <= mesh.primitives.len(),
            primitives == mesh@.primitives,
            table == names_of(textures@),
            textures@.len() <= 256,
            serves(table, primitives),
            out@ == listed + lod_textures(primitives.take(i as int), table),
        decreases mesh.primitives.len() - i,
    {
        proof {
            assert(primitives.take(i + 1).drop_last() == primitives.take(i as int));
            assert(primitives[i as int] == mesh.primitives@[i as int]@);
        }
        let (tex_name, _) = get_material_base_color_texture_name(&mesh.primitives[i].material);
        assert(table.contains(texture_name(primitives[i as int].material)));
        write_v3d_lod_texture(&mut out, tex_name.as_str(), textures);
        i += 1;
    }
    assert(primitives.take(i as int) == primitives);
    assert(out@ == lod_model(primitives, table));
    wrt.append(&mut out);
    Ok(())
}

/// Appends the material of one texture. Nothing is written if the name
/// of the texture does not fit its field.
pub fn write_v3d_material(wrt: &mut Vec<u8>, tex_name: &str, emissive_factor: u32) -> (r: Result<
    (),
    Error,
>)
    ensures
        encode_utf8(tex_name@).len() < MATERIAL_NAME_SIZE ==> r is Ok && final(wrt)@ == old(wrt)@
            + material_record(tex_name@, emissive_factor),
        encode_utf8(tex_name@).len() >= MATERIAL_NAME_SIZE ==> final(wrt)@ == old(wrt)@ && (
        r matches Err(e) && e@ == ErrorView::NameTooLong {
            name: tex_name@,
            max: (MATERIAL_NAME_SIZE - 1) as usize,
        }),
{
    write_char_array(wrt, tex_name, MATERIAL_NAME_SIZE)?;
    put_u32(wrt, emissive_factor);
    put_u32(wrt, 0);
    put_u32(wrt, 0);
    put_u32(wrt, 0);
    write_zeros(wrt, 32);
    put_u32(wrt, MATERIAL_FLAGS);
    Ok(())
}

/// Appends the bounding sphere of a mesh around `origin`. Nothing is
/// written if a primitive of the mesh has no positions.
pub fn write_v3d_bounding_sphere(wrt: &mut Vec<u8>, mesh: &Mesh, origin: &Vector3) -> (r: Result<
    (),
    Error,
>)
    ensures
        match bounding_radius(mesh@) {
            Ok(radius) => r is Ok && final(wrt)@ == old(wrt)@ + u32_le(origin[0]) + u32_le(
                origin[1],
            ) + u32_le(origin[2]) + u32_le(radius),
            Err(e) => (r matches Err(x) && x@ == e) && final(wrt)@ == old(wrt)@,
        },
{
    let radius = compute_mesh_bounding_sphere_radius(mesh)?;
    put_u32(wrt, origin[0]);
    put_u32(wrt, origin[1]);
    put_u32(wrt, origin[2]);
    put_u32(wrt, radius);
    Ok(())
}

/// Appends the bounding box of a mesh.
pub fn write_v3d_bounding_box(wrt: &mut Vec<u8>, mesh: &Mesh)
    ensures
        final(wrt)@ == old(wrt)@ + bounding_box(mesh@),
{
    let aabb = compute_mesh_aabb(mesh);
    put_u32(wrt, aabb.min[0]);
    put_u32(wrt, aabb.min[1]);
    put_u32(wrt, aabb.min[2]);
    put_u32(wrt, aabb.max[0]);
    put_u32(wrt, aabb.max[1]);
    put_u32(wrt, aabb.max[2]);
}

/// Appends the materials of a mesh, one per texture of its table.
/// Nothing is written if the name of a texture does not fit its field.
pub fn write_v3d_materials(wrt: &mut Vec<u8>, mesh: &Mesh, textures: &Vec<String>) -> (r: Result<
    (),
    Error,
>)
    ensures
        match first_long_name(names_of(textures@)) {
            None => r is Ok && final(wrt)@ == old(wrt)@ + materials(
                mesh@.primitives,
                names_of(textures@),
            ),
            Some(name) => final(wrt)@ == old(wrt)@ && (r matches Err(e) && e@
                == ErrorView::NameTooLong { name, max: (MATERIAL_NAME_SIZE - 1) as usize }),
        },
{
    let ghost primitives = mesh@.primitives;
    let ghost table = names_of(textures@);
    let mut out: Vec<u8> = Vec::new();
    put_u32(&mut out, (textures.len() as u64 % 0x1_0000_0000) as u32);
    let ghost head = out@;
    let mut k: usize = 0;
    while k < textures.len()
        invariant
            k <= textures.len(),
            primitives == mesh@.primitives,
            table == names_of(textures@),
            forall|j: int|
                0 <= j < k ==> encode_utf8(#[trigger] table[j]).len() < MATERIAL_NAME_SIZE,
            out@ == head + material_records(primitives, table, k as nat),
        decreases textures.len() - k,
    {
        let tex_name = textures[k].as_str();
        assert(tex_name@ == table[k as int]);
        let emissive_factor = get_emissive_factor(mesh, tex_name);
        match write_v3d_material(&mut out, tex_name, emissive_factor) {
            Ok(()) => {},
            Err(e) => {
                proof {
                    lemma_first_long_name(table, k as int);
                }
                return Err(e);
            },
        }
        k += 1;
    }
    proof {
        lemma_first_long_name(table, k as int);
    }
    wrt.append(&mut out);
    Ok(())
}

/// Appends what opens the section of a node named `name`. Nothing is
/// written if the name does not fit its field.
pub fn write_v3d_section_head(wrt: &mut Vec<u8>, name: &str) -> (r: Result<(), Error>)
    ensures
        encode_utf8(name@).len() < NODE_NAME_SIZE ==> r is Ok && final(wrt)@ == old(wrt)@
            + section_head(name@),
        encode_utf8(name@).len() >= NODE_NAME_SIZE ==> final(wrt)@ == old(wrt)@ && (
        r matches Err(e) && e@ == ErrorView::NameTooLong {
            name: name@,
            max: (NODE_NAME_SIZE - 1) as usize,
        }),
{
    let mut out: Vec<u8> = Vec::new();
    put_u32(&mut out, V3D_SUBMESH);
    put_u32(&mut out, 0);
    write_char_array(&mut out, name, NODE_NAME_SIZE)?;
    proof {
        reveal_strlit("None");
        is_ascii_chars_encode_utf8("None"@);
    }
    let reserved = write_char_array(&mut out, "None", NODE_NAME_SIZE);
    assert(reserved is Ok);
    put_u32(&mut out, SUBMESH_VERSION);
    put_u32(&mut out, 1);
    put_u32(&mut out, 0);
    wrt.append(&mut out);
    Ok(())
}

/// Appends what closes the section of a node named `name`.
fn write_v3d_section_tail(wrt: &mut Vec<u8>, name: &str)
    requires
        encode_utf8(name@).len() < NODE_NAME_SIZE,
    ensures
        final(wrt)@ == old(wrt)@ + section_tail(name@),
{
    put_u32(wrt, 1);
    let written = write_char_array(wrt, name, NODE_NAME_SIZE);
    assert(written is Ok);
    put_u32(wrt, 0);
}

/// Appends the section of a node that carries a mesh. Nothing is written
/// if the section cannot be.
pub fn write_v3d_subm_sect(wrt: &mut Vec<u8>, node: &Node) -> (r: Result<(), Error>)
    requires
        node@.mesh is Some,
    ensures
        match section_error(node@) {
            None => r is Ok && final(wrt)@ == old(wrt)@ + submesh_section(node@),
            Some(e) => (r matches Err(x) && x@ == e) && final(wrt)@ == old(wrt)@,
        },
{
    reveal(section_error);
    reveal(submesh_section);
    let mesh = node.mesh.as_ref().unwrap();
    let ghost primitives = mesh@.primitives;
    let name = match &node.name {
        Some(name) => name.as_str(),
        None => "Default",
    };
    assert(name@ == node_name(node@));
    let mut out: Vec<u8> = Vec::new();
    write_v3d_section_head(&mut out, name)?;

    let (origin, _) = extract_translation_from_matrix(&node.transform);
    write_v3d_bounding_sphere(&mut out, mesh, &origin)?;
    assert(out@ == section_head(name@) + bounding_sphere(node@));
    write_v3d_bounding_box(&mut out, mesh);

    let textures = get_submesh_textures(mesh)?;
    let ghost table = names_of(textures@);
    assert(serves(table, primitives)) by {
        assert forall|i: int| 0 <= i < primitives.len() implies table.contains(
            texture_name(#[trigger] primitives[i].material),
        ) by {
            assert(texture_names(primitives).contains(texture_name(primitives[i].material)));
        }
    }
    write_v3d_lod_model(&mut out, mesh, &textures)?;
    write_v3d_materials(&mut out, mesh, &textures)?;
    write_v3d_section_tail(&mut out, name);
    wrt.append(&mut out);
    Ok(())
}

} // verus!
