//! Identity calculator: percent sequence identity for one record, with a
//! fast path from a precomputed divergence tag and a fallback computed from
//! the alignment operations and the edit-distance tag.
//!
//! The crate keeps identities in exact form — tag bits or an integer
//! fraction — and leaves the conversion to a floating-point percentage to
//! the caller at the output boundary.

use crate::record::{AlignmentRecord, CigarOp, TagValue};
use vstd::arithmetic::mul::lemma_mul_inequality;
use vstd::prelude::*;

verus! {

/// A fatal error of the metric computation. Every error aborts the whole
/// run; no record is ever skipped.
#[derive(Clone, Copy, PartialEq, Eq, Structural, Debug)]
pub enum MetricsError {
    /// The fallback path was reached and the record has no edit-distance tag.
    TagMissing,
    /// A tag is present but not of the expected type.
    TagTypeMismatch,
}

/// The percent identity of one record, in exact form.
#[derive(Clone, Copy, PartialEq, Eq, Structural, Debug)]
pub enum Identity {
    /// Fast path: the record carried a divergence tag. `bits` is the raw bit
    /// pattern of the tag's 32-bit float value `d`; the identity in percent
    /// is `100 * (1 - d)`, decoded at the output boundary.
    Divergence { bits: u32 },
    /// Fallback: the gap-compressed divergence as the exact fraction
    /// `num / den` with `den > 0`; the identity in percent is
    /// `100 * (1 - num / den)`. For a record with no matches and no gaps the
    /// formula's denominator would be zero; the fraction is then defined as
    /// `1 / 1`, i.e. the identity is 0.
    GapCompressed { num: i128, den: u128 },
}

/// The number of bases an alignment operation covers.
pub open spec fn op_len(op: CigarOp) -> int {
    match op {
        CigarOp::Match(n) => n as int,
        CigarOp::Equal(n) => n as int,
        CigarOp::Diff(n) => n as int,
        CigarOp::Insertion(n) => n as int,
        CigarOp::Deletion(n) => n as int,
        CigarOp::Other(n) => n as int,
    }
}

/// Whether an operation counts toward the matched span.
pub open spec fn is_match_op(op: CigarOp) -> bool {
    op is Match || op is Equal || op is Diff
}

/// Whether an operation is a gap (an insertion or a deletion).
pub open spec fn is_gap_op(op: CigarOp) -> bool {
    op is Insertion || op is Deletion
}

/// Total length of the Match/Equal/Diff operations.
pub open spec fn matches_of(ops: Seq<CigarOp>) -> int
    decreases ops.len(),
{
    if ops.len() == 0 {
        0
    } else {
        matches_of(ops.drop_last()) + if is_match_op(ops.last()) {
            op_len(ops.last())
        } else {
            0
        }
    }
}

/// Total length of the insertion and deletion operations.
pub open spec fn gap_size_of(ops: Seq<CigarOp>) -> int
    decreases ops.len(),
{
    if ops.len() == 0 {
        0
    } else {
        gap_size_of(ops.drop_last()) + if is_gap_op(ops.last()) {
            op_len(ops.last())
        } else {
            0
        }
    }
}

/// Number of gap operations: each insertion or deletion run counts once,
/// regardless of its length.
pub open spec fn gap_count_of(ops: Seq<CigarOp>) -> int
    decreases ops.len(),
{
    if ops.len() == 0 {
        0
    } else {
        gap_count_of(ops.drop_last()) + if is_gap_op(ops.last()) {
            1int
        } else {
            0int
        }
    }
}

/// The three accumulators are non-negative and bounded by the number of
/// operations times the largest operation length.
pub proof fn lemma_stats_bounds(ops: Seq<CigarOp>)
    ensures
        0 <= matches_of(ops) <= ops.len() * 0xffff_ffff,
        0 <= gap_size_of(ops) <= ops.len() * 0xffff_ffff,
        0 <= gap_count_of(ops) <= ops.len(),
    decreases ops.len(),
{
    if ops.len() > 0 {
        lemma_stats_bounds(ops.drop_last());
    }
}

/// Totals of one scan over an alignment-operation sequence.
#[derive(Clone, Copy, PartialEq, Eq, Structural, Debug)]
pub struct CigarStats {
    /// Total length of Match/Equal/Diff operations.
    pub matches: u128,
    /// Total length of insertion and deletion operations.
    pub gap_size: u128,
    /// Number of insertion and deletion operations.
    pub gap_count: u128,
}

/// Scans the alignment operations once and totals the matched span, the gap
/// size and the gap count.
pub fn cigar_stats(ops: &Vec<CigarOp>) -> (s: CigarStats)
    ensures
        s.matches == matches_of(ops@),
        s.gap_size == gap_size_of(ops@),
        s.gap_count == gap_count_of(ops@),
{
    let mut matches: u128 = 0;
    let mut gap_size: u128 = 0;
    let mut gap_count: u128 = 0;
    let n = ops.len();
    let mut i: usize = 0;
    while i < n
        invariant
            i <= n,
            n == ops@.len(),
            matches == matches_of(ops@.take(i as int)),
            gap_size == gap_size_of(ops@.take(i as int)),
            gap_count == gap_count_of(ops@.take(i as int)),
        decreases n - i,
    {
        proof {
            lemma_stats_bounds(ops@.take(i as int));
            lemma_mul_inequality(i as int, 0xffff_ffff_ffff_ffff, 0xffff_ffff);
            assert(ops@.take(i as int + 1).drop_last() =~= ops@.take(i as int));
            assert(ops@.take(i as int + 1).last() == ops@[i as int]);
        }
        match ops[i] {
            CigarOp::Match(len) => {
                matches = matches + len as u128;
            },
            CigarOp::Equal(len) => {
                matches = matches + len as u128;
            },
            CigarOp::Diff(len) => {
                matches = matches + len as u128;
            },
            CigarOp::Insertion(len) => {
                gap_size = gap_size + len as u128;
                gap_count = gap_count + 1;
            },
            CigarOp::Deletion(len) => {
                gap_size = gap_size + len as u128;
                gap_count = gap_count + 1;
            },
            CigarOp::Other(_) => {},
        }
        i = i + 1;
    }
    proof {
        assert(ops@.take(n as int) =~= ops@);
    }
    CigarStats { matches, gap_size, gap_count }
}

/// The gap-compressed divergence fraction computed from the alignment
/// operations and the edit distance. Each gap run is penalized once rather
/// than per base: the fraction is
/// `(edit_distance - gap_size + gap_count) / (matches + gap_count)`.
/// A record with no matches and no gaps has no usable denominator; its
/// divergence is then defined as `1 / 1` (identity 0).
pub open spec fn spec_fallback(ops: Seq<CigarOp>, edit_distance: u32) -> Identity {
    let m = matches_of(ops);
    let gs = gap_size_of(ops);
    let gc = gap_count_of(ops);
    if m + gc == 0 {
        Identity::GapCompressed { num: 1, den: 1 }
    } else {
        Identity::GapCompressed {
            num: (edit_distance - gs + gc) as i128,
            den: (m + gc) as u128,
        }
    }
}

/// Computes the gap-compressed divergence fraction for the fallback path.
pub fn gap_compressed_fallback(ops: &Vec<CigarOp>, edit_distance: u32) -> (id: Identity)
    ensures
        id == spec_fallback(ops@, edit_distance),
{
    let n = ops.len();
    let stats = cigar_stats(ops);
    proof {
        lemma_stats_bounds(ops@);
        lemma_mul_inequality(n as int, 0xffff_ffff_ffff_ffff, 0xffff_ffff);
    }
    if stats.matches + stats.gap_count == 0 {
        Identity::GapCompressed { num: 1, den: 1 }
    } else {
        let num: i128 = edit_distance as i128 - stats.gap_size as i128 + stats.gap_count as i128;
        let den: u128 = stats.matches + stats.gap_count;
        Identity::GapCompressed { num, den }
    }
}

/// The divergence tag of a record: absent, present as float bits, or of an
/// unexpected type.
pub open spec fn spec_de_tag(r: AlignmentRecord) -> Result<Option<u32>, MetricsError> {
    match r.divergence_tag {
        Some(TagValue::Float(bits)) => Ok(Some(bits)),
        Some(_) => Err(MetricsError::TagTypeMismatch),
        None => Ok(None),
    }
}

/// Reads the divergence tag: `Ok(Some(bits))` when the record carries one of
/// float type, `Ok(None)` when it carries none, and an error when it carries
/// one of any other type.
pub fn get_de_tag(r: &AlignmentRecord) -> (res: Result<Option<u32>, MetricsError>)
    ensures
        res == spec_de_tag(*r),
{
    match r.divergence_tag {
        Some(TagValue::Float(bits)) => Ok(Some(bits)),
        Some(_) => Err(MetricsError::TagTypeMismatch),
        None => Ok(None),
    }
}

/// The edit-distance tag of a record, widened to 32 bits: required, of any
/// unsigned width up to 32 bits.
pub open spec fn spec_nm_tag(r: AlignmentRecord) -> Result<u32, MetricsError> {
    match r.edit_distance_tag {
        Some(TagValue::U8(v)) => Ok(v as u32),
        Some(TagValue::U16(v)) => Ok(v as u32),
        Some(TagValue::U32(v)) => Ok(v),
        Some(_) => Err(MetricsError::TagTypeMismatch),
        None => Err(MetricsError::TagMissing),
    }
}

/// Reads the required edit-distance tag, widening it to 32 bits; fails when
/// it is absent or not an unsigned integer of width 8, 16 or 32.
pub fn get_nm_tag(r: &AlignmentRecord) -> (res: Result<u32, MetricsError>)
    ensures
        res == spec_nm_tag(*r),
{
    match r.edit_distance_tag {
        Some(TagValue::U8(v)) => Ok(v as u32),
        Some(TagValue::U16(v)) => Ok(v as u32),
        Some(TagValue::U32(v)) => Ok(v),
        Some(_) => Err(MetricsError::TagTypeMismatch),
        None => Err(MetricsError::TagMissing),
    }
}

/// The identity of one record: the divergence tag when present (and of float
/// type) is authoritative and the fallback is skipped entirely; otherwise
/// the gap-compressed fraction from the operations and the edit distance.
pub open spec fn spec_identity(r: AlignmentRecord) -> Result<Identity, MetricsError> {
    match spec_de_tag(r) {
        Ok(Some(bits)) => Ok(Identity::Divergence { bits }),
        Ok(None) => match spec_nm_tag(r) {
            Ok(nm) => Ok(spec_fallback(r.cigar@, nm)),
            Err(e) => Err(e),
        },
        Err(e) => Err(e),
    }
}

/// Computes the identity of one record: the fast path from the divergence
/// tag when the record carries one, else the gap-compressed fallback.
pub fn gap_compressed_identity(r: &AlignmentRecord) -> (res: Result<Identity, MetricsError>)
    ensures
        res == spec_identity(*r),
{
    match get_de_tag(r) {
        Ok(Some(bits)) => Ok(Identity::Divergence { bits }),
        Ok(None) => match get_nm_tag(r) {
            Ok(nm) => Ok(gap_compressed_fallback(&r.cigar, nm)),
            Err(e) => Err(e),
        },
        Err(e) => Err(e),
    }
}

} // verus!
