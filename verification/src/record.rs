//! The crate's own model of an alignment record: the fields of a record that
//! the metric pipeline reads, carried as plain values.

use vstd::prelude::*;

verus! {

/// One alignment operation: its kind and the number of bases it covers.
#[derive(Clone, Copy, PartialEq, Eq, Structural, Debug)]
pub enum CigarOp {
    /// Alignment match (may be a sequence match or mismatch).
    Match(u32),
    /// Sequence match.
    Equal(u32),
    /// Sequence mismatch.
    Diff(u32),
    /// Insertion to the reference.
    Insertion(u32),
    /// Deletion from the reference.
    Deletion(u32),
    /// Any other operation; it contributes nothing to the identity.
    Other(u32),
}

/// The value of an optional typed tag on a record: a tagged union, not a
/// dynamically typed value.
#[derive(Clone, Copy, PartialEq, Eq, Structural, Debug)]
pub enum TagValue {
    U8(u8),
    U16(u16),
    U32(u32),
    /// A 32-bit float, carried by its raw bit pattern. The verified code
    /// never interprets the bits numerically; consumers decode them.
    Float(u32),
    /// A tag of any other type.
    Other,
}

/// An alignment record, reduced to the fields the metric pipeline reads.
#[derive(Debug)]
pub struct AlignmentRecord {
    /// Status-flag bitmask.
    pub flags: u16,
    /// Full query sequence length.
    pub seq_len: u64,
    /// Reference coordinate where the alignment starts.
    pub reference_start: i64,
    /// Reference coordinate where the alignment ends.
    pub reference_end: i64,
    /// Ordered alignment operations.
    pub cigar: Vec<CigarOp>,
    /// Mapping-quality byte.
    pub mapq: u8,
    /// The divergence tag, if the record carries one.
    pub divergence_tag: Option<TagValue>,
    /// The edit-distance tag, if the record carries one.
    pub edit_distance_tag: Option<TagValue>,
}

impl AlignmentRecord {
    /// The reference span of the record is well-formed: the end coordinate
    /// does not precede the start, so the aligned length is non-negative.
    pub open spec fn span_valid(self) -> bool {
        self.reference_start <= self.reference_end
    }
}

} // verus!
