use vstd::prelude::*;

verus! {

/// Errors raised while reading the rendering data of a cloth mesh
#[derive(Debug, Clone, PartialEq, Eq)]
pub enum Error {
    /// The mesh is missing a required vertex attribute
    MissingMeshAttribute(String),
    /// The mesh vertex position attribute is not made of three floats per vertex
    UnsupportedVertexPositionAttribute,
    /// A vertex attribute holds a different number of values than there are vertices
    InvalidMeshAttribute { attribute: String, expected: usize, got: usize },
    /// The mesh has no index buffer
    MissingIndices,
}

} // verus!
