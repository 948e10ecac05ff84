//! Record filter: decides from a record's status flags whether the record
//! contributes a row to the output columns.

use vstd::prelude::*;

verus! {

/// Status-flag bit marking a record as unmapped.
pub const FLAG_UNMAPPED: u16 = 0x4;

/// Status-flag bit marking a record as a secondary alignment.
pub const FLAG_SECONDARY: u16 = 0x100;

/// A record is kept exactly when neither the unmapped bit nor the
/// secondary-alignment bit is set in its status flags.
pub open spec fn spec_keep(flags: u16) -> bool {
    flags & (FLAG_UNMAPPED | FLAG_SECONDARY) == 0
}

/// Returns whether a record with the given status flags is kept.
pub fn keep_record(flags: u16) -> (keep: bool)
    ensures
        keep == spec_keep(flags),
{
    flags & (FLAG_UNMAPPED | FLAG_SECONDARY) == 0
}

/// A record whose unmapped bit is set is never kept.
pub proof fn lemma_unmapped_excluded(flags: u16)
    requires
        flags & FLAG_UNMAPPED != 0,
    ensures
        !spec_keep(flags),
{
    assert(flags & 0x4u16 != 0 ==> flags & (0x4u16 | 0x100u16) != 0) by (bit_vector);
}

/// A record whose secondary-alignment bit is set is never kept.
pub proof fn lemma_secondary_excluded(flags: u16)
    requires
        flags & FLAG_SECONDARY != 0,
    ensures
        !spec_keep(flags),
{
    assert(flags & 0x100u16 != 0 ==> flags & (0x4u16 | 0x100u16) != 0) by (bit_vector);
}

} // verus!
