//! The single error value that decoding and encoding report.
use vstd::prelude::*;

verus! {

/// What went wrong while decoding or encoding a resource.
#[derive(Debug, Clone, Copy, PartialEq, Eq, Structural)]
pub enum GeometryError {
    /// A read or a pointer left the buffer, or a stored value is not one the
    /// format knows; carries the byte offset of the record concerned.
    Malformed(u64),
    /// The object subtype is recognised but not supported (a speedtree mesh);
    /// carries the byte offset of the object header.
    UnsupportedFormat(u64),
    /// A value does not fit the integer range it must be quantised into.
    Quantization,
    /// The linked bone table names fewer bones than it has acceleration entries.
    Consistency,
    /// The encoded resource would not be addressable with 32-bit offsets.
    TooLarge,
}

} // verus!
