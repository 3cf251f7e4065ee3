//! The scene that the encoder reads.
//!
//! A document lists nodes; a node may carry a mesh; a mesh is a list of
//! primitives. All vertex data of a primitive is expressed in the frame of
//! its node: the caller has already applied the linear part of the node's
//! transform. Real numbers are binary32 bit patterns.

use vstd::prelude::*;

verus! {

/// Three binary32 bit patterns: a point or a direction.
pub type Vector3 = [u32; 3];

/// Four binary32 bit patterns: the normal of a plane and its offset.
pub type Plane = [u32; 4];

/// Four rows of four binary32 bit patterns; the last row holds the translation.
pub type Matrix4 = [[u32; 4]; 4];

/// Three rows of three binary32 bit patterns.
pub type Matrix3 = [[u32; 3]; 3];

/// How the vertices of a primitive are assembled into shapes.
#[derive(Debug, Clone, Copy, PartialEq, Eq, Structural)]
pub enum Mode {
    Points,
    Lines,
    LineLoop,
    LineStrip,
    Triangles,
    TriangleStrip,
    TriangleFan,
}

/// How a sampler continues a texture beyond its edge.
#[derive(Debug, Clone, Copy, PartialEq, Eq, Structural)]
pub enum WrappingMode {
    ClampToEdge,
    MirroredRepeat,
    Repeat,
}

/// How the alpha channel of a material is interpreted.
#[derive(Debug, Clone, Copy, PartialEq, Eq, Structural)]
pub enum AlphaMode {
    Opaque,
    Mask,
    Blend,
}

/// The base-color texture of a material.
#[derive(Debug, Clone, PartialEq, Eq)]
pub struct Texture {
    /// The name that the image carries in the document, if it has one.
    pub image_name: Option<String>,
    /// The path by which the document refers to the image, if it is not embedded.
    pub image_uri: Option<String>,
    /// Wrapping along S.
    pub wrap_s: WrappingMode,
    /// Wrapping along T.
    pub wrap_t: WrappingMode,
}

/// The mathematical value of a [`Texture`].
pub struct TextureView {
    pub image_name: Option<Seq<char>>,
    pub image_uri: Option<Seq<char>>,
    pub wrap_s: WrappingMode,
    pub wrap_t: WrappingMode,
}

/// What the encoder reads of a material.
#[derive(Debug, Clone, PartialEq, Eq)]
pub struct Material {
    /// The place of the material in the document; the default material has none.
    pub index: Option<usize>,
    pub base_color_texture: Option<Texture>,
    pub alpha_mode: AlphaMode,
    /// Red, green and blue of the emitted light.
    pub emissive_factor: Vector3,
    pub double_sided: bool,
}

/// The mathematical value of a [`Material`].
pub struct MaterialView {
    pub index: Option<usize>,
    pub base_color_texture: Option<TextureView>,
    pub alpha_mode: AlphaMode,
    pub emissive_factor: Vector3,
    pub double_sided: bool,
}

/// A vertex position in the frame of its node.
#[derive(Debug, Clone, Copy, PartialEq, Eq)]
pub struct Position {
    pub coords: Vector3,
    /// The Euclidean distance of `coords` from the origin of the frame.
    pub distance: u32,
}

/// One drawable unit of a mesh.
#[derive(Debug, Clone, PartialEq, Eq)]
pub struct Primitive {
    pub mode: Mode,
    pub positions: Option<Vec<Position>>,
    /// Unit normals, one per vertex.
    pub normals: Option<Vec<Vector3>>,
    /// Texture coordinates, one pair per vertex.
    pub tex_coords: Vec<[u32; 2]>,
    /// Three vertex numbers per triangle.
    pub indices: Option<Vec<u32>>,
    /// The plane of each triangle, in the order of the index list.
    pub planes: Vec<Plane>,
    pub material: Material,
}

/// The mathematical value of a [`Primitive`].
pub struct PrimitiveView {
    pub mode: Mode,
    pub positions: Option<Seq<Position>>,
    pub normals: Option<Seq<Vector3>>,
    pub tex_coords: Seq<[u32; 2]>,
    pub indices: Option<Seq<u32>>,
    pub planes: Seq<Plane>,
    pub material: MaterialView,
}

/// An ordered list of primitives.
#[derive(Debug, Clone, PartialEq, Eq)]
pub struct Mesh {
    pub primitives: Vec<Primitive>,
}

/// The mathematical value of a [`Mesh`].
pub struct MeshView {
    pub primitives: Seq<PrimitiveView>,
}

/// A named entity with a transform and, possibly, a mesh.
#[derive(Debug, Clone, PartialEq, Eq)]
pub struct Node {
    pub name: Option<String>,
    pub transform: Matrix4,
    pub mesh: Option<Mesh>,
    /// How many children the node has in the document.
    pub child_count: usize,
}

/// The mathematical value of a [`Node`].
pub struct NodeView {
    pub name: Option<Seq<char>>,
    pub transform: Matrix4,
    pub mesh: Option<MeshView>,
    pub child_count: usize,
}

/// The whole scene: its nodes in the order of the document.
#[derive(Debug, Clone, PartialEq, Eq)]
pub struct Document {
    pub nodes: Vec<Node>,
}

/// The mathematical value of a [`Document`].
pub struct DocumentView {
    pub nodes: Seq<NodeView>,
}

/// The characters of an optional string.
pub open spec fn opt_chars(s: Option<String>) -> Option<Seq<char>> {
    match s {
        Some(s) => Some(s@),
        None => None,
    }
}

impl View for Texture {
    type V = TextureView;

    open spec fn view(&self) -> TextureView {
        TextureView {
            image_name: opt_chars(self.image_name),
            image_uri: opt_chars(self.image_uri),
            wrap_s: self.wrap_s,
            wrap_t: self.wrap_t,
        }
    }
}

impl View for Material {
    type V = MaterialView;

    open spec fn view(&self) -> MaterialView {
        MaterialView {
            index: self.index,
            base_color_texture: match self.base_color_texture {
                Some(t) => Some(t@),
                None => None,
            },
            alpha_mode: self.alpha_mode,
            emissive_factor: self.emissive_factor,
            double_sided: self.double_sided,
        }
    }
}

impl View for Primitive {
    type V = PrimitiveView;

    open spec fn view(&self) -> PrimitiveView {
        PrimitiveView {
            mode: self.mode,
            positions: match self.positions {
                Some(v) => Some(v@),
                None => None,
            },
            normals: match self.normals {
                Some(v) => Some(v@),
                None => None,
            },
            tex_coords: self.tex_coords@,
            indices: match self.indices {
                Some(v) => Some(v@),
                None => None,
            },
            planes: self.planes@,
            material: self.material@,
        }
    }
}

impl View for Mesh {
    type V = MeshView;

    open spec fn view(&self) -> MeshView {
        MeshView { primitives: self.primitives@.map_values(|p: Primitive| p@) }
    }
}

impl View for Node {
    type V = NodeView;

    open spec fn view(&self) -> NodeView {
        NodeView {
            name: opt_chars(self.name),
            transform: self.transform,
            mesh: match self.mesh {
                Some(m) => Some(m@),
                None => None,
            },
            child_count: self.child_count,
        }
    }
}

impl View for Document {
    type V = DocumentView;

    open spec fn view(&self) -> DocumentView {
        DocumentView { nodes: self.nodes@.map_values(|n: Node| n@) }
    }
}

impl PrimitiveView {
    /// The number of vertices: that of the positions, or none where they are missing.
    pub open spec fn vertex_count(self) -> nat {
        match self.positions {
            Some(ps) => ps.len(),
            None => 0,
        }
    }
}

} // verus!
