use vstd::prelude::*;

verus! {

/// The ways a construction or an access can fail.
#[derive(Debug, Clone, Copy, PartialEq, Eq, Structural)]
pub enum GeoError {
    /// An offset, validity or coordinate buffer breaks the layout invariant.
    MalformedBuffer,
    /// A row index at or past the array's length.
    OutOfRange,
    /// A leading byte that names no known WKB dialect.
    UnknownDialect,
    /// A payload that does not parse as WKB of the declared dialect.
    DecodeFailure,
    /// A geometry whose shape does not fit the array being built.
    ShapeMismatch,
    /// A mixed array row that refers to an absent sub-array.
    MissingUnionArm,
    /// A mixed array row whose type id names no geometry type.
    InvalidTypeId,
}

} // verus!
