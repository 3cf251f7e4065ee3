//! Failures of a conversion and the diagnostics that do not stop it.

use vstd::prelude::*;
use vstd::string::StringExecFns;

verus! {

/// The two classes of failure that abort a conversion.
#[derive(Debug, Clone, Copy, PartialEq, Eq, Structural)]
pub enum ErrorKind {
    /// The scene is well formed but asks for something the format cannot hold.
    Validation,
    /// The scene breaks an assumption that the encoder does not try to repair.
    DataAssumption,
}

/// Why a conversion stopped.
#[derive(Debug, Clone, PartialEq, Eq)]
pub enum Error {
    /// A failure described only by its message.
    Custom(String),
    /// The primitive is not a triangle list.
    UnsupportedTopology,
    /// The primitive has no index list.
    NotIndexed,
    /// The primitive has more indices than a batch can hold.
    TooManyIndices { count: usize, limit: usize },
    /// The primitive has more vertices than a batch can hold.
    TooManyVertices { count: usize, limit: usize },
    /// The submesh uses more distinct textures than a submesh can hold.
    TooManyTextures { count: usize, limit: usize },
    /// A name does not fit its fixed-size field, which keeps one byte for the terminator.
    NameTooLong { name: String, max: usize },
    /// The index list does not consist of whole triangles.
    IndexCountNotMultipleOfThree { count: usize },
    /// The primitive has no vertex positions.
    MissingPositions,
    /// The primitive has no vertex normals.
    MissingNormals,
    /// An index names a vertex that the primitive does not have.
    IndexOutOfRange { index: u32, vertex_count: usize },
    /// The primitive does not carry exactly one plane per triangle.
    PlaneCountMismatch { planes: usize, triangles: usize },
}

/// The mathematical value of an [`Error`]: the same variants over sequences of characters.
pub enum ErrorView {
    Custom(Seq<char>),
    UnsupportedTopology,
    NotIndexed,
    TooManyIndices { count: usize, limit: usize },
    TooManyVertices { count: usize, limit: usize },
    TooManyTextures { count: usize, limit: usize },
    NameTooLong { name: Seq<char>, max: usize },
    IndexCountNotMultipleOfThree { count: usize },
    MissingPositions,
    MissingNormals,
    IndexOutOfRange { index: u32, vertex_count: usize },
    PlaneCountMismatch { planes: usize, triangles: usize },
}

impl View for Error {
    type V = ErrorView;

    open spec fn view(&self) -> ErrorView {
        match *self {
            Error::Custom(message) => ErrorView::Custom(message@),
            Error::UnsupportedTopology => ErrorView::UnsupportedTopology,
            Error::NotIndexed => ErrorView::NotIndexed,
            Error::TooManyIndices { count, limit } => ErrorView::TooManyIndices { count, limit },
            Error::TooManyVertices { count, limit } => ErrorView::TooManyVertices { count, limit },
            Error::TooManyTextures { count, limit } => ErrorView::TooManyTextures { count, limit },
            Error::NameTooLong { name, max } => ErrorView::NameTooLong { name: name@, max },
            Error::IndexCountNotMultipleOfThree { count } => ErrorView::IndexCountNotMultipleOfThree {
                count,
            },
            Error::MissingPositions => ErrorView::MissingPositions,
            Error::MissingNormals => ErrorView::MissingNormals,
            Error::IndexOutOfRange { index, vertex_count } => ErrorView::IndexOutOfRange {
                index,
                vertex_count,
            },
            Error::PlaneCountMismatch { planes, triangles } => ErrorView::PlaneCountMismatch {
                planes,
                triangles,
            },
        }
    }
}

impl ErrorView {
    /// The class of the failure: what breaks an assumption about the data is told apart
    /// from what the format merely cannot hold.
    pub open spec fn kind(self) -> ErrorKind {
        match self {
            ErrorView::IndexCountNotMultipleOfThree { .. }
            | ErrorView::MissingPositions
            | ErrorView::MissingNormals
            | ErrorView::IndexOutOfRange { .. }
            | ErrorView::PlaneCountMismatch { .. } => ErrorKind::DataAssumption,
            _ => ErrorKind::Validation,
        }
    }
}

impl Error {
    /// The class of the failure.
    pub fn kind(&self) -> (k: ErrorKind)
        ensures
            k == self@.kind(),
    {
        match self {
            Error::IndexCountNotMultipleOfThree { .. }
            | Error::MissingPositions
            | Error::MissingNormals
            | Error::IndexOutOfRange { .. }
            | Error::PlaneCountMismatch { .. } => ErrorKind::DataAssumption,
            _ => ErrorKind::Validation,
        }
    }
}

/// Makes a validation failure that is described by `msg` alone.
pub fn create_custom_error(msg: String) -> (e: Error)
    ensures
        e@ == ErrorView::Custom(msg@),
{
    Error::Custom(msg)
}

/// A condition that degrades the output without stopping the conversion.
#[derive(Debug, Clone, Copy, PartialEq, Eq, Structural)]
pub enum Warning {
    /// Some node has children; the hierarchy is not written.
    HierarchyIgnored,
    /// The material has no base-color texture with a name; the default texture stands in.
    MissingBaseColorTexture { material: usize },
    /// The sampler wraps differently along S and T; the mode along S is used for both.
    WrapModeMismatch,
    /// The sampler mirrors the texture, which the format cannot express; it repeats instead.
    MirroredRepeatUnsupported,
}

/// The character of a decimal digit.
pub open spec fn digit(d: nat) -> char {
    if d == 0 {
        '0'
    } else if d == 1 {
        '1'
    } else if d == 2 {
        '2'
    } else if d == 3 {
        '3'
    } else if d == 4 {
        '4'
    } else if d == 5 {
        '5'
    } else if d == 6 {
        '6'
    } else if d == 7 {
        '7'
    } else if d == 8 {
        '8'
    } else {
        '9'
    }
}

/// A number in decimal notation, without leading zeros.
pub open spec fn decimal(n: nat) -> Seq<char>
    decreases n,
{
    if n < 10 {
        seq![digit(n)]
    } else {
        decimal(n / 10).push(digit(n % 10))
    }
}

impl ErrorView {
    /// The failure in words.
    pub open spec fn message(self) -> Seq<char> {
        match self {
            ErrorView::Custom(message) => message,
            ErrorView::UnsupportedTopology => "only triangle list primitives are supported"@,
            ErrorView::NotIndexed => "not indexed geometry is not supported"@,
            ErrorView::TooManyIndices { count, limit } => "primitive has too many indices: "@
                + decimal(count as nat) + " (limit "@ + decimal(limit as nat) + ")"@,
            ErrorView::TooManyVertices { count, limit } => "primitive has too many vertices: "@
                + decimal(count as nat) + " (limit "@ + decimal(limit as nat) + ")"@,
            ErrorView::TooManyTextures { count, limit } => "found "@ + decimal(count as nat)
                + " textures in a submesh but only "@ + decimal(limit as nat) + " are allowed"@,
            ErrorView::NameTooLong { name, max } => "string value "@ + name + " is too long (max "@
                + decimal(max as nat) + ")"@,
            ErrorView::IndexCountNotMultipleOfThree { count } =>
                "number of indices is not a multiple of three: "@ + decimal(count as nat),
            ErrorView::MissingPositions => "mesh has no positions"@,
            ErrorView::MissingNormals => "mesh has no normals"@,
            ErrorView::IndexOutOfRange { index, vertex_count } => "index "@ + decimal(index as nat)
                + " is out of range for "@ + decimal(vertex_count as nat) + " vertices"@,
            ErrorView::PlaneCountMismatch { planes, triangles } => "found "@ + decimal(
                planes as nat,
            ) + " planes for "@ + decimal(triangles as nat) + " triangles"@,
        }
    }
}

impl Warning {
    /// The diagnostic in words.
    pub open spec fn text(self) -> Seq<char> {
        match self {
            Warning::HierarchyIgnored => "Node hierarchy is ignored!"@,
            Warning::MissingBaseColorTexture { material } =>
                "Cannot obtain texture name for material "@ + decimal(material as nat)
                    + " (materials without base color texture are not supported)"@,
            Warning::WrapModeMismatch =>
                "Ignoring wrapT - wrapping mode must be the same for T and S"@,
            Warning::MirroredRepeatUnsupported => "MirroredRepeat wrapping mode is not supported"@,
        }
    }

    /// Renders the diagnostic in words.
    pub fn message(&self) -> (r: String)
        ensures
            r@ == self.text(),
    {
        match self {
            Warning::HierarchyIgnored => String::from_str("Node hierarchy is ignored!"),
            Warning::MissingBaseColorTexture { material } => {
                let mut s = String::from_str("Cannot obtain texture name for material ");
                append_decimal(&mut s, *material);
                s.append(" (materials without base color texture are not supported)");
                s
            },
            Warning::WrapModeMismatch => String::from_str(
                "Ignoring wrapT - wrapping mode must be the same for T and S",
            ),
            Warning::MirroredRepeatUnsupported => String::from_str(
                "MirroredRepeat wrapping mode is not supported",
            ),
        }
    }
}

fn digit_str(d: usize) -> (r: &'static str)
    requires
        d < 10,
    ensures
        r@ == seq![digit(d as nat)],
{
    proof {
        reveal_strlit("0");
        reveal_strlit("1");
        reveal_strlit("2");
        reveal_strlit("3");
        reveal_strlit("4");
        reveal_strlit("5");
        reveal_strlit("6");
        reveal_strlit("7");
        reveal_strlit("8");
        reveal_strlit("9");
    }
    let r = if d == 0 {
        "0"
    } else if d == 1 {
        "1"
    } else if d == 2 {
        "2"
    } else if d == 3 {
        "3"
    } else if d == 4 {
        "4"
    } else if d == 5 {
        "5"
    } else if d == 6 {
        "6"
    } else if d == 7 {
        "7"
    } else if d == 8 {
        "8"
    } else {
        "9"
    };
    assert(r@ =~= seq![digit(d as nat)]);
    r
}

/// Appends a number in decimal notation.
pub fn append_decimal(s: &mut String, n: usize)
    ensures
        final(s)@ == old(s)@ + decimal(n as nat),
    decreases n,
{
    if n >= 10 {
        append_decimal(s, n / 10);
    }
    s.append(digit_str(n % 10));
    assert(s@ =~= old(s)@ + decimal(n as nat));
}

impl Error {
    /// Renders the failure in words.
    pub fn message(&self) -> (r: String)
        ensures
            r@ == self@.message(),
    {
        match self {
            Error::Custom(message) => message.clone(),
            Error::UnsupportedTopology => String::from_str(
                "only triangle list primitives are supported",
            ),
            Error::NotIndexed => String::from_str("not indexed geometry is not supported"),
            Error::TooManyIndices { count, limit } => {
                let mut s = String::from_str("primitive has too many indices: ");
                append_decimal(&mut s, *count);
                s.append(" (limit ");
                append_decimal(&mut s, *limit);
                s.append(")");
                s
            },
            Error::TooManyVertices { count, limit } => {
                let mut s = String::from_str("primitive has too many vertices: ");
                append_decimal(&mut s, *count);
                s.append(" (limit ");
                append_decimal(&mut s, *limit);
                s.append(")");
                s
            },
            Error::TooManyTextures { count, limit } => {
                let mut s = String::from_str("found ");
                append_decimal(&mut s, *count);
                s.append(" textures in a submesh but only ");
                append_decimal(&mut s, *limit);
                s.append(" are allowed");
                s
            },
            Error::NameTooLong { name, max } => {
                let mut s = String::from_str("string value ");
                s.append(name.as_str());
                s.append(" is too long (max ");
                append_decimal(&mut s, *max);
                s.append(")");
                s
            },
            Error::IndexCountNotMultipleOfThree { count } => {
                let mut s = String::from_str("number of indices is not a multiple of three: ");
                append_decimal(&mut s, *count);
                s
            },
            Error::MissingPositions => String::from_str("mesh has no positions"),
            Error::MissingNormals => String::from_str("mesh has no normals"),
            Error::IndexOutOfRange { index, vertex_count } => {
                let mut s = String::from_str("index ");
                append_decimal(&mut s, *index as usize);
                s.append(" is out of range for ");
                append_decimal(&mut s, *vertex_count);
                s.append(" vertices");
                s
            },
            Error::PlaneCountMismatch { planes, triangles } => {
                let mut s = String::from_str("found ");
                append_decimal(&mut s, *planes);
                s.append(" planes for ");
                append_decimal(&mut s, *triangles);
                s.append(" triangles");
                s
            },
        }
    }
}


} // verus!
