//! The file as a whole: its header, one section per node that carries a
//! mesh, in the order of the document, and the section that ends it.

use vstd::prelude::*;
use crate::encoding::{put_u32, u32_le};
use crate::error::{Error, ErrorView, Warning};
use crate::render_state::{compute_render_state_for_material, render_state_warnings};
use crate::scene::{Document, DocumentView, Mesh, Node, NodeView, Primitive, PrimitiveView};
use crate::submesh::{low32, section_error, submesh_section, write_v3d_subm_sect};
use crate::texture::{
    get_material_base_color_texture_name, get_submesh_textures, texture_table, texture_warning,
    MAX_TEXTURES,
};

verus! {

/// The signature of a static mesh file.
pub const V3M_SIGNATURE: u32 = 0x52463344;

/// The version of the format.
pub const V3D_VERSION: u32 = 0x40000;

/// The tag of the section that ends a file.
pub const V3D_END: u32 = 0x00000000;

/// The nodes that carry a mesh, in their order.
pub open spec fn submesh_nodes(nodes: Seq<NodeView>) -> Seq<NodeView>
    decreases nodes.len(),
{
    if nodes.len() == 0 {
        Seq::empty()
    } else if nodes.last().mesh is Some {
        submesh_nodes(nodes.drop_last()).push(nodes.last())
    } else {
        submesh_nodes(nodes.drop_last())
    }
}

/// The sizes of the texture tables of the nodes, added up. A texture that
/// several nodes use counts once for each of them.
pub open spec fn material_total(submeshes: Seq<NodeView>) -> nat
    decreases submeshes.len(),
{
    if submeshes.len() == 0 {
        0
    } else {
        material_total(submeshes.drop_last()) + texture_table(submeshes.last().mesh->Some_0).len()
    }
}

/// Why the header cannot be written, if it cannot: the first node whose
/// texture table is too large decides.
pub open spec fn header_error(submeshes: Seq<NodeView>) -> Option<ErrorView>
    decreases submeshes.len(),
{
    if submeshes.len() == 0 {
        None
    } else if texture_table(submeshes[0].mesh->Some_0).len() > MAX_TEXTURES {
        Some(
            ErrorView::TooManyTextures {
                count: texture_table(submeshes[0].mesh->Some_0).len() as usize,
                limit: MAX_TEXTURES,
            },
        )
    } else {
        header_error(submeshes.drop_first())
    }
}

/// The header: signature, version, the number of submeshes, three
/// counters that are left zero, the number of materials, and three more
/// fields that are left zero.
pub open spec fn header(submeshes: Seq<NodeView>) -> Seq<u8> {
    u32_le(V3M_SIGNATURE) + u32_le(V3D_VERSION) + u32_le(low32(submeshes.len())) + u32_le(0)
        + u32_le(0) + u32_le(0) + u32_le(low32(material_total(submeshes))) + u32_le(0) + u32_le(0)
        + u32_le(0)
}

/// Why the first section that cannot be written cannot, if there is one.
pub open spec fn first_section_error(submeshes: Seq<NodeView>) -> Option<ErrorView>
    decreases submeshes.len(),
{
    if submeshes.len() == 0 {
        None
    } else if section_error(submeshes[0]) is Some {
        section_error(submeshes[0])
    } else {
        first_section_error(submeshes.drop_first())
    }
}

/// The sections of the nodes, in their order.
pub open spec fn sections(submeshes: Seq<NodeView>) -> Seq<u8>
    decreases submeshes.len(),
{
    if submeshes.len() == 0 {
        Seq::empty()
    } else {
        sections(submeshes.drop_last()) + submesh_section(submeshes.last())
    }
}

/// The section that ends a file: its tag and a size of zero.
pub open spec fn end_section() -> Seq<u8> {
    u32_le(V3D_END) + u32_le(0)
}

/// Why a document cannot be converted, if it cannot: the header comes
/// before the sections.
pub open spec fn file_error(document: DocumentView) -> Option<ErrorView> {
    let submeshes = submesh_nodes(document.nodes);
    if header_error(submeshes) is Some {
        header_error(submeshes)
    } else {
        first_section_error(submeshes)
    }
}

/// The bytes of the file that a document converts to.
pub open spec fn v3d_file(document: DocumentView) -> Seq<u8> {
    let submeshes = submesh_nodes(document.nodes);
    header(submeshes) + sections(submeshes) + end_section()
}

/// Whether some node has children.
pub open spec fn has_hierarchy(nodes: Seq<NodeView>) -> bool {
    exists|i: int| 0 <= i < nodes.len() && (#[trigger] nodes[i]).child_count > 0
}

/// The diagnostics on one primitive: on its texture name first, then on its render state.
pub open spec fn primitive_warnings(p: PrimitiveView) -> Seq<Warning> {
    (match texture_warning(p.material) {
        Some(w) => seq![w],
        None => Seq::empty(),
    }) + render_state_warnings(p.material)
}

/// The diagnostics on the primitives, in their order.
pub open spec fn mesh_warnings(primitives: Seq<PrimitiveView>) -> Seq<Warning>
    decreases primitives.len(),
{
    if primitives.len() == 0 {
        Seq::empty()
    } else {
        mesh_warnings(primitives.drop_last()) + primitive_warnings(primitives.last())
    }
}

/// The diagnostics on the meshes of the nodes, in their order.
pub open spec fn submesh_warnings(submeshes: Seq<NodeView>) -> Seq<Warning>
    decreases submeshes.len(),
{
    if submeshes.len() == 0 {
        Seq::empty()
    } else {
        submesh_warnings(submeshes.drop_last()) + mesh_warnings(
            submeshes.last().mesh->Some_0.primitives,
        )
    }
}

/// The diagnostics on a document: that its hierarchy is ignored, if it
/// has one, and then those on its meshes.
pub open spec fn document_warnings(document: DocumentView) -> Seq<Warning> {
    (if has_hierarchy(document.nodes) {
        seq![Warning::HierarchyIgnored]
    } else {
        Seq::empty()
    }) + submesh_warnings(submesh_nodes(document.nodes))
}

/// The values of a sequence of nodes.
pub open spec fn node_views(nodes: Seq<&Node>) -> Seq<NodeView> {
    nodes.map_values(|n: &Node| n@)
}

/// Selects the nodes that carry a mesh, in the order of the document.
pub fn get_submesh_nodes(doc: &Document) -> (nodes: Vec<&Node>)
    ensures
        node_views(nodes@) == submesh_nodes(doc@.nodes),
        forall|i: int| 0 <= i < nodes@.len() ==> (#[trigger] nodes@[i]).mesh is Some,
{
    let mut nodes: Vec<&Node> = Vec::new();
    let mut i: usize = 0;
    assert(node_views(nodes@) == submesh_nodes(doc@.nodes.take(0)));
    while i < doc.nodes.len()
        invariant
            i <= doc.nodes.len(),
            node_views(nodes@) == submesh_nodes(doc@.nodes.take(i as int)),
            forall|k: int| 0 <= k < nodes@.len() ==> (#[trigger] nodes@[k]).mesh is Some,
        decreases doc.nodes.len() - i,
    {
        proof {
            assert(doc@.nodes.take(i + 1).drop_last() == doc@.nodes.take(i as int));
            assert(doc@.nodes.take(i + 1).last() == doc.nodes@[i as int]@);
        }
        let ghost before = nodes@;
        if doc.nodes[i].mesh.is_some() {
            nodes.push(&doc.nodes[i]);
            assert(node_views(nodes@) == node_views(before).push(doc.nodes@[i as int]@));
        }
        i += 1;
    }
    assert(doc@.nodes.take(i as int) == doc@.nodes);
    nodes
}

proof fn lemma_header_error(submeshes: Seq<NodeView>, k: int)
    requires
        0 <= k <= submeshes.len(),
        forall|j: int|
            0 <= j < k ==> texture_table((#[trigger] submeshes[j]).mesh->Some_0).len()
                <= MAX_TEXTURES,
        k < submeshes.len() ==> texture_table(submeshes[k].mesh->Some_0).len() > MAX_TEXTURES,
    ensures
        header_error(submeshes) == if k < submeshes.len() {
            Some(
                ErrorView::TooManyTextures {
                    count: texture_table(submeshes[k].mesh->Some_0).len() as usize,
                    limit: MAX_TEXTURES,
                },
            )
        } else {
            None
        },
    decreases k,
{
    if k > 0 {
        let rest = submeshes.drop_first();
        assert forall|j: int| 0 <= j < k - 1 implies texture_table(
            (#[trigger] rest[j]).mesh->Some_0,
        ).len() <= MAX_TEXTURES by {
            assert(rest[j] == submeshes[j + 1]);
        }
        lemma_header_error(rest, k - 1);
    }
}

proof fn lemma_first_section_error(submeshes: Seq<NodeView>, k: int)
    requires
        0 <= k <= submeshes.len(),
        forall|j: int| 0 <= j < k ==> section_error(#[trigger] submeshes[j]) is None,
        k < submeshes.len() ==> section_error(submeshes[k]) is Some,
    ensures
        first_section_error(submeshes) == if k < submeshes.len() {
            section_error(submeshes[k])
        } else {
            None
        },
    decreases k,
{
    if k > 0 {
        let rest = submeshes.drop_first();
        assert forall|j: int| 0 <= j < k - 1 implies section_error(#[trigger] rest[j]) is None by {
            assert(rest[j] == submeshes[j + 1]);
        }
        lemma_first_section_error(rest, k - 1);
    }
}

/// Appends the header of the file of a document. Nothing is written if
/// the texture table of a node is too large.
pub fn write_v3d_header(wrt: &mut Vec<u8>, doc: &Document) -> (r: Result<(), Error>)
    ensures
        match header_error(submesh_nodes(doc@.nodes)) {
            None => r is Ok && final(wrt)@ == old(wrt)@ + header(submesh_nodes(doc@.nodes)),
            Some(e) => (r matches Err(x) && x@ == e) && final(wrt)@ == old(wrt)@,
        },
{
    let nodes = get_submesh_nodes(doc);
    let ghost submeshes = submesh_nodes(doc@.nodes);
    let mut num_all_materials: u128 = 0;
    let mut i: usize = 0;
    while i < nodes.len()
        invariant
            i <= nodes.len(),
            node_views(nodes@) == submeshes,
            forall|k: int| 0 <= k < nodes@.len() ==> (#[trigger] nodes@[k]).mesh is Some,
            forall|j: int|
                0 <= j < i ==> texture_table((#[trigger] submeshes[j]).mesh->Some_0).len()
                    <= MAX_TEXTURES,
            num_all_materials == material_total(submeshes.take(i as int)),
            num_all_materials <= i * MAX_TEXTURES,
            submeshes == submesh_nodes(doc@.nodes),
            wrt@ == old(wrt)@,
        decreases nodes.len() - i,
    {
        proof {
            assert(submeshes.take(i + 1).drop_last() == submeshes.take(i as int));
            assert(submeshes[i as int] == nodes@[i as int]@);
        }
        let mesh = nodes[i].mesh.as_ref().unwrap();
        assert(submeshes[i as int].mesh == Some(mesh@));
        match get_submesh_textures(mesh) {
            Ok(textures) => {
                num_all_materials = num_all_materials + textures.len() as u128;
            },
            Err(e) => {
                proof {
                    lemma_header_error(submeshes, i as int);
                }
                return Err(e);
            },
        }
        i += 1;
    }
    proof {
        assert(submeshes.take(i as int) == submeshes);
        lemma_header_error(submeshes, i as int);
    }
    put_u32(wrt, V3M_SIGNATURE);
    put_u32(wrt, V3D_VERSION);
    put_u32(wrt, (nodes.len() as u64 % 0x1_0000_0000) as u32);
    put_u32(wrt, 0);
    put_u32(wrt, 0);
    put_u32(wrt, 0);
    put_u32(wrt, (num_all_materials % 0x1_0000_0000) as u32);
    put_u32(wrt, 0);
    put_u32(wrt, 0);
    put_u32(wrt, 0);
    Ok(())
}

/// Appends the section that ends a file.
pub fn write_v3d_end_sect(wrt: &mut Vec<u8>)
    ensures
        final(wrt)@ == old(wrt)@ + end_section(),
{
    put_u32(wrt, V3D_END);
    put_u32(wrt, 0);
}

/// Appends the sections of the nodes that carry a mesh. Nothing is
/// written if one of them cannot be.
pub fn write_v3d_sections(wrt: &mut Vec<u8>, doc: &Document) -> (r: Result<(), Error>)
    ensures
        match first_section_error(submesh_nodes(doc@.nodes)) {
            None => r is Ok && final(wrt)@ == old(wrt)@ + sections(submesh_nodes(doc@.nodes)),
            Some(e) => (r matches Err(x) && x@ == e) && final(wrt)@ == old(wrt)@,
        },
{
    let nodes = get_submesh_nodes(doc);
    let ghost submeshes = submesh_nodes(doc@.nodes);
    let mut out: Vec<u8> = Vec::new();
    let mut i: usize = 0;
    while i < nodes.len()
        invariant
            i <= nodes.len(),
            node_views(nodes@) == submeshes,
            forall|k: int| 0 <= k < nodes@.len() ==> (#[trigger] nodes@[k]).mesh is Some,
            forall|j: int| 0 <= j < i ==> section_error(#[trigger] submeshes[j]) is None,
            out@ == sections(submeshes.take(i as int)),
            submeshes == submesh_nodes(doc@.nodes),
            wrt@ == old(wrt)@,
        decreases nodes.len() - i,
    {
        proof {
            assert(submeshes.take(i + 1).drop_last() == submeshes.take(i as int));
            assert(submeshes[i as int] == nodes@[i as int]@);
        }
        match write_v3d_subm_sect(&mut out, nodes[i]) {
            Ok(()) => {},
            Err(e) => {
                proof {
                    lemma_first_section_error(submeshes, i as int);
                }
                return Err(e);
            },
        }
        i += 1;
    }
    proof {
        assert(submeshes.take(i as int) == submeshes);
        lemma_first_section_error(submeshes, i as int);
    }
    wrt.append(&mut out);
    Ok(())
}

/// Appends the diagnostics on one primitive.
pub fn collect_primitive_warnings(warnings: &mut Vec<Warning>, prim: &Primitive)
    ensures
        final(warnings)@ == old(warnings)@ + primitive_warnings(prim@),
{
    let (_, missing) = get_material_base_color_texture_name(&prim.material);
    if let Some(w) = missing {
        warnings.push(w);
    }
    let (_, mut unsupported) = compute_render_state_for_material(&prim.material);
    warnings.append(&mut unsupported);
}

/// Appends the diagnostics on the primitives of a mesh.
pub fn collect_mesh_warnings(warnings: &mut Vec<Warning>, mesh: &Mesh)
    ensures
        final(warnings)@ == old(warnings)@ + mesh_warnings(mesh@.primitives),
{
    let mut i: usize = 0;
    while i < mesh.primitives.len()
        invariant
            i <= mesh.primitives.len(),
            warnings@ == old(warnings)@ + mesh_warnings(mesh@.primitives.take(i as int)),
        decreases mesh.primitives.len() - i,
    {
        proof {
            assert(mesh@.primitives.take(i + 1).drop_last() == mesh@.primitives.take(i as int));
            assert(mesh@.primitives[i as int] == mesh.primitives@[i as int]@);
        }
        collect_primitive_warnings(warnings, &mesh.primitives[i]);
        i += 1;
    }
    assert(mesh@.primitives.take(i as int) == mesh@.primitives);
}

/// Decides whether some node of the document has children.
pub fn document_has_hierarchy(doc: &Document) -> (r: bool)
    ensures
        r == has_hierarchy(doc@.nodes),
{
    let mut i: usize = 0;
    while i < doc.nodes.len()
        invariant
            i <= doc.nodes.len(),
            forall|j: int| 0 <= j < i ==> (#[trigger] doc@.nodes[j]).child_count == 0,
        decreases doc.nodes.len() - i,
    {
        if doc.nodes[i].child_count > 0 {
            assert(doc@.nodes[i as int].child_count > 0);
            return true;
        }
        i += 1;
    }
    false
}

/// Lists the diagnostics on a document.
pub fn collect_warnings(doc: &Document) -> (warnings: Vec<Warning>)
    ensures
        warnings@ == document_warnings(doc@),
{
    let mut warnings: Vec<Warning> = Vec::new();
    if document_has_hierarchy(doc) {
        warnings.push(Warning::HierarchyIgnored);
    }
    let ghost head = warnings@;
    let nodes = get_submesh_nodes(doc);
    let ghost submeshes = submesh_nodes(doc@.nodes);
    let mut i: usize = 0;
    while i < nodes.len()
        invariant
            i <= nodes.len(),
            node_views(nodes@) == submeshes,
            forall|k: int| 0 <= k < nodes@.len() ==> (#[trigger] nodes@[k]).mesh is Some,
            warnings@ == head + submesh_warnings(submeshes.take(i as int)),
        decreases nodes.len() - i,
    {
        proof {
            assert(submeshes.take(i + 1).drop_last() == submeshes.take(i as int));
            assert(submeshes[i as int] == nodes@[i as int]@);
        }
        collect_mesh_warnings(&mut warnings, nodes[i].mesh.as_ref().unwrap());
        i += 1;
    }
    assert(submeshes.take(i as int) == submeshes);
    warnings
}

/// Converts a document: appends the bytes of its file and returns the
/// diagnostics on it. Nothing is written if the document cannot be
/// converted.
pub fn write_v3d(wrt: &mut Vec<u8>, document: &Document) -> (r: Result<Vec<Warning>, Error>)
    ensures
        match file_error(document@) {
            None => (r matches Ok(warnings) && warnings@ == document_warnings(document@))
                && final(wrt)@ == old(wrt)@ + v3d_file(document@),
            Some(e) => (r matches Err(x) && x@ == e) && final(wrt)@ == old(wrt)@,
        },
{
    let mut out: Vec<u8> = Vec::new();
    write_v3d_header(&mut out, document)?;
    write_v3d_sections(&mut out, document)?;
    write_v3d_end_sect(&mut out);
    wrt.append(&mut out);
    Ok(collect_warnings(document))
}

/// Encoding is a function of the contents of a document: two documents
/// with the same contents fail alike or convert to the same bytes, with
/// the same diagnostics.
pub proof fn lemma_encoding_is_deterministic(a: Document, b: Document)
    requires
        a@ == b@,
    ensures
        file_error(a@) == file_error(b@),
        v3d_file(a@) == v3d_file(b@),
        document_warnings(a@) == document_warnings(b@),
{
}


} // verus!
