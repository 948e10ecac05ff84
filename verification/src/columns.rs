//! Column accumulator: folds the filtered record stream into four
//! equal-length, index-aligned output columns, and the pipeline that drives
//! filter, identity calculator and accumulator over a record sequence.

use crate::filter::{keep_record, spec_keep, FLAG_SECONDARY, FLAG_UNMAPPED};
use crate::identity::{gap_compressed_identity, spec_identity, Identity, MetricsError};
use crate::record::AlignmentRecord;
use vstd::prelude::*;

verus! {

/// The metrics of one record that survived the filter.
#[derive(Clone, Copy, PartialEq, Eq, Structural, Debug)]
pub struct MetricRow {
    /// Full query sequence length.
    pub length: u64,
    /// Reference span: end coordinate minus start coordinate.
    pub aligned_length: u64,
    /// Percent identity in exact form.
    pub identity: Identity,
    /// Mapping-quality byte, copied unmodified from the record.
    pub mapq: u8,
}

/// The metric row a record yields, meaningful when its identity computation
/// succeeds.
pub open spec fn spec_row(r: AlignmentRecord) -> MetricRow {
    MetricRow {
        length: r.seq_len,
        aligned_length: (r.reference_end - r.reference_start) as u64,
        identity: spec_identity(r)->Ok_0,
        mapq: r.mapq,
    }
}

/// Computes the metric row of one record; fails exactly when its identity
/// computation fails.
pub fn metric_row(r: &AlignmentRecord) -> (res: Result<MetricRow, MetricsError>)
    requires
        r.span_valid(),
    ensures
        match res {
            Ok(row) => spec_identity(*r) is Ok && row == spec_row(*r),
            Err(e) => spec_identity(*r) == Err::<Identity, MetricsError>(e),
        },
{
    match gap_compressed_identity(r) {
        Ok(identity) => {
            let aligned: u64 = ((r.reference_end as i128) - (r.reference_start as i128)) as u64;
            Ok(
                MetricRow {
                    length: r.seq_len,
                    aligned_length: aligned,
                    identity,
                    mapq: r.mapq,
                },
            )
        },
        Err(e) => Err(e),
    }
}

/// The subsequence of a record stream that passes the filter, in stream
/// order.
pub open spec fn kept_records(rs: Seq<AlignmentRecord>) -> Seq<AlignmentRecord>
    decreases rs.len(),
{
    if rs.len() == 0 {
        Seq::empty()
    } else if spec_keep(rs.last().flags) {
        kept_records(rs.drop_last()).push(rs.last())
    } else {
        kept_records(rs.drop_last())
    }
}

/// Every kept record passes the filter.
pub proof fn lemma_kept_records_keep(rs: Seq<AlignmentRecord>)
    ensures
        forall|k: int|
            0 <= k < kept_records(rs).len() ==> spec_keep(#[trigger] kept_records(rs)[k].flags),
    decreases rs.len(),
{
    if rs.len() > 0 {
        lemma_kept_records_keep(rs.drop_last());
    }
}

/// A record whose unmapped bit is set never appears among the kept records,
/// so it never contributes a row to any output column.
pub proof fn lemma_unmapped_contributes_no_row(rs: Seq<AlignmentRecord>, r: AlignmentRecord)
    requires
        r.flags & FLAG_UNMAPPED != 0,
    ensures
        forall|k: int| 0 <= k < kept_records(rs).len() ==> #[trigger] kept_records(rs)[k] != r,
{
    lemma_kept_records_keep(rs);
    crate::filter::lemma_unmapped_excluded(r.flags);
}

/// A record whose secondary-alignment bit is set never appears among the
/// kept records, so it never contributes a row to any output column.
pub proof fn lemma_secondary_contributes_no_row(rs: Seq<AlignmentRecord>, r: AlignmentRecord)
    requires
        r.flags & FLAG_SECONDARY != 0,
    ensures
        forall|k: int| 0 <= k < kept_records(rs).len() ==> #[trigger] kept_records(rs)[k] != r,
{
    lemma_kept_records_keep(rs);
    crate::filter::lemma_secondary_excluded(r.flags);
}

/// The kept subsequence of a prefix of a stream is a prefix of the kept
/// subsequence of the whole stream.
pub proof fn lemma_kept_records_prefix(rs: Seq<AlignmentRecord>, i: int)
    requires
        0 <= i <= rs.len(),
    ensures
        kept_records(rs.take(i)).len() <= kept_records(rs).len(),
        forall|j: int|
            0 <= j < kept_records(rs.take(i)).len() ==> #[trigger] kept_records(rs)[j]
                == kept_records(rs.take(i))[j],
    decreases rs.len(),
{
    if i == rs.len() {
        assert(rs.take(i) =~= rs);
    } else {
        lemma_kept_records_prefix(rs.drop_last(), i);
        assert(rs.drop_last().take(i) =~= rs.take(i));
    }
}

/// The four output columns. At every observation point the four sequences
/// have equal length, and index `i` in every sequence refers to the same
/// source record.
#[derive(PartialEq, Eq, Debug)]
pub struct Columns {
    /// Percent identities, in exact form.
    pub identities: Vec<Identity>,
    /// Full query sequence lengths.
    pub lengths: Vec<u64>,
    /// Reference spans.
    pub aligned_lengths: Vec<u64>,
    /// Mapping-quality bytes.
    pub mapqs: Vec<u8>,
}

impl Columns {
    /// The four columns have equal length.
    pub open spec fn wf(self) -> bool {
        &&& self.identities@.len() == self.lengths@.len()
        &&& self.identities@.len() == self.aligned_lengths@.len()
        &&& self.identities@.len() == self.mapqs@.len()
    }

    /// Number of rows accumulated so far.
    pub open spec fn spec_len(self) -> nat {
        self.identities@.len()
    }

    /// The row at index `i`, read across the four columns.
    pub open spec fn row(self, i: int) -> MetricRow {
        MetricRow {
            length: self.lengths@[i],
            aligned_length: self.aligned_lengths@[i],
            identity: self.identities@[i],
            mapq: self.mapqs@[i],
        }
    }

    /// Creates the accumulator, empty.
    pub fn new() -> (c: Columns)
        ensures
            c.wf(),
            c.spec_len() == 0,
    {
        Columns { identities: Vec::new(), lengths: Vec::new(), aligned_lengths: Vec::new(), mapqs: Vec::new() }
    }

    /// Number of rows accumulated so far.
    pub fn len(&self) -> (n: usize)
        requires
            self.wf(),
        ensures
            n == self.spec_len(),
    {
        self.identities.len()
    }

    /// Appends one row to the four columns in lock-step.
    pub fn push_row(&mut self, row: MetricRow)
        requires
            old(self).wf(),
        ensures
            final(self).wf(),
            final(self).spec_len() == old(self).spec_len() + 1,
            forall|i: int|
                0 <= i < old(self).spec_len() ==> #[trigger] final(self).row(i) == old(self).row(
                    i,
                ),
            final(self).row(old(self).spec_len() as int) == row,
    {
        self.identities.push(row.identity);
        self.lengths.push(row.length);
        self.aligned_lengths.push(row.aligned_length);
        self.mapqs.push(row.mapq);
    }
}

/// Runs the pipeline over a record sequence: filters the records, computes
/// each survivor's metric row and accumulates the rows into four
/// index-aligned columns.
///
/// On success the columns hold exactly one row per kept record, in stream
/// order. On the first record whose identity computation fails the whole
/// run fails with that record's error; nothing is returned.
pub fn extract(records: &Vec<AlignmentRecord>) -> (res: Result<Columns, MetricsError>)
    requires
        forall|i: int|
            0 <= i < records@.len() && spec_keep(#[trigger] records@[i].flags)
                ==> records@[i].span_valid(),
    ensures
        match res {
            Ok(cols) => {
                &&& cols.wf()
                &&& cols.spec_len() == kept_records(records@).len()
                &&& forall|i: int|
                    0 <= i < kept_records(records@).len() ==> spec_identity(
                        #[trigger] kept_records(records@)[i],
                    ) is Ok && cols.row(i) == spec_row(kept_records(records@)[i])
            },
            Err(e) => exists|k: int|
                {
                    &&& 0 <= k < kept_records(records@).len()
                    &&& spec_identity(#[trigger] kept_records(records@)[k]) == Err::<
                        Identity,
                        MetricsError,
                    >(e)
                    &&& forall|j: int|
                        0 <= j < k ==> spec_identity(#[trigger] kept_records(records@)[j]) is Ok
                },
        },
{
    let mut cols = Columns::new();
    let n = records.len();
    let mut idx: usize = 0;
    while idx < n
        invariant
            idx <= n,
            n == records@.len(),
            cols.wf(),
            cols.spec_len() == kept_records(records@.take(idx as int)).len(),
            forall|i: int|
                0 <= i < records@.len() && spec_keep(#[trigger] records@[i].flags)
                    ==> records@[i].span_valid(),
            forall|i: int|
                0 <= i < cols.spec_len() ==> spec_identity(
                    #[trigger] kept_records(records@.take(idx as int))[i],
                ) is Ok && cols.row(i) == spec_row(kept_records(records@.take(idx as int))[i]),
        decreases n - idx,
    {
        proof {
            assert(records@.take(idx as int + 1).drop_last() =~= records@.take(idx as int));
            assert(records@.take(idx as int + 1).last() == records@[idx as int]);
        }
        let r = &records[idx];
        if keep_record(r.flags) {
            match metric_row(r) {
                Ok(row) => {
                    cols.push_row(row);
                },
                Err(e) => {
                    proof {
                        lemma_kept_records_prefix(records@, idx as int + 1);
                        let kt = kept_records(records@.take(idx as int));
                        assert(kept_records(records@)[kt.len() as int] == records@[idx as int]);
                    }
                    return Err(e);
                },
            }
        }
        idx = idx + 1;
    }
    proof {
        assert(records@.take(n as int) =~= records@);
    }
    Ok(cols)
}

} // verus!
