use vstd::prelude::*;

verus! {

/// Options for processing the mesh during loading.
///
/// With every flag `false` the result represents the input as closely as
/// possible.
#[derive(Clone, Copy, Debug, Default, PartialEq, Eq, Structural)]
pub struct LoadOptions {
    /// Merge points whose components are bit-identical, per attribute
    /// channel. Only valid together with per-attribute indices.
    pub merge_identical_points: bool,
    /// Reorder normals and texture coordinates so that their own index
    /// arrays can be dropped. Only valid together with per-attribute indices.
    pub reorder_data: bool,
    /// Build one index that drives positions, texture coordinates and
    /// normals alike.
    pub single_index: bool,
    /// Turn every face into triangles.
    pub triangulate: bool,
    /// Drop faces made of a single vertex.
    pub ignore_points: bool,
    /// Drop faces made of two vertices.
    pub ignore_lines: bool,
}

impl LoadOptions {
    /// The options do not combine a single index with a pass that needs
    /// per-attribute indices.
    pub open spec fn spec_is_valid(self) -> bool {
        !(self.single_index && (self.merge_identical_points || self.reorder_data))
    }

    /// Checks that the options do not hold mutually exclusive flags.
    pub fn is_valid(&self) -> (r: bool)
        ensures
            r == self.spec_is_valid(),
    {
        let other_flags = self.merge_identical_points || self.reorder_data;
        (self.single_index != other_flags) || (!self.single_index && !other_flags)
    }
}

/// Errors that may occur while loading OBJ and MTL data.
#[derive(Clone, Copy, Debug, PartialEq, Eq, Structural)]
pub enum LoadError {
    OpenFileFailed,
    ReadError,
    UnrecognizedCharacter,
    PositionParseError,
    NormalParseError,
    TexcoordParseError,
    FaceParseError,
    MaterialParseError,
    InvalidObjectName,
    InvalidPolygon,
    FaceVertexOutOfBounds,
    FaceTexCoordOutOfBounds,
    FaceNormalOutOfBounds,
    FaceColorOutOfBounds,
    InvalidLoadOptionConfig,
    GenericFailure,
}

/// The description of each error.
pub open spec fn message_of(e: LoadError) -> Seq<char> {
    match e {
        LoadError::OpenFileFailed => "open file failed"@,
        LoadError::ReadError => "read error"@,
        LoadError::UnrecognizedCharacter => "unrecognized character"@,
        LoadError::PositionParseError => "position parse error"@,
        LoadError::NormalParseError => "normal parse error"@,
        LoadError::TexcoordParseError => "texcoord parse error"@,
        LoadError::FaceParseError => "face parse error"@,
        LoadError::MaterialParseError => "material parse error"@,
        LoadError::InvalidObjectName => "invalid object name"@,
        LoadError::InvalidPolygon => "invalid polygon"@,
        LoadError::FaceVertexOutOfBounds => "face vertex index out of bounds"@,
        LoadError::FaceTexCoordOutOfBounds => "face texcoord index out of bounds"@,
        LoadError::FaceNormalOutOfBounds => "face normal index out of bounds"@,
        LoadError::FaceColorOutOfBounds => "face vertex color index out of bounds"@,
        LoadError::InvalidLoadOptionConfig => "mutually exclusive load options"@,
        LoadError::GenericFailure => "generic failure"@,
    }
}

impl LoadError {
    /// A short human-readable description of the error.
    pub fn message(&self) -> (r: String)
        ensures
            r@ == message_of(*self),
    {
        let msg: &str = match *self {
            LoadError::OpenFileFailed => "open file failed",
            LoadError::ReadError => "read error",
            LoadError::UnrecognizedCharacter => "unrecognized character",
            LoadError::PositionParseError => "position parse error",
            LoadError::NormalParseError => "normal parse error",
            LoadError::TexcoordParseError => "texcoord parse error",
            LoadError::FaceParseError => "face parse error",
            LoadError::MaterialParseError => "material parse error",
            LoadError::InvalidObjectName => "invalid object name",
            LoadError::InvalidPolygon => "invalid polygon",
            LoadError::FaceVertexOutOfBounds => "face vertex index out of bounds",
            LoadError::FaceTexCoordOutOfBounds => "face texcoord index out of bounds",
            LoadError::FaceNormalOutOfBounds => "face normal index out of bounds",
            LoadError::FaceColorOutOfBounds => "face vertex color index out of bounds",
            LoadError::InvalidLoadOptionConfig => "mutually exclusive load options",
            LoadError::GenericFailure => "generic failure",
        };
        msg.to_owned()
    }
}


/// Different errors have different descriptions.
pub proof fn law_messages_distinct(a: LoadError, b: LoadError)
    requires
        a != b,
    ensures
        message_of(a) != message_of(b),
{
    reveal_strlit("open file failed");
    reveal_strlit("read error");
    reveal_strlit("unrecognized character");
    reveal_strlit("position parse error");
    reveal_strlit("normal parse error");
    reveal_strlit("texcoord parse error");
    reveal_strlit("face parse error");
    reveal_strlit("material parse error");
    reveal_strlit("invalid object name");
    reveal_strlit("invalid polygon");
    reveal_strlit("face vertex index out of bounds");
    reveal_strlit("face texcoord index out of bounds");
    reveal_strlit("face normal index out of bounds");
    reveal_strlit("face vertex color index out of bounds");
    reveal_strlit("mutually exclusive load options");
    reveal_strlit("generic failure");
    if message_of(a) == message_of(b) {
        assert(message_of(a).len() == message_of(b).len());
        assert(message_of(a)[0] == message_of(b)[0]);
        assert(message_of(a)[5] == message_of(b)[5]);
        assert(message_of(a)[12] == message_of(b)[12]);
    }
}

} // verus!
