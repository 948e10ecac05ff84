use read_metrics::columns::{extract, metric_row, Columns, MetricRow};
use read_metrics::filter::keep_record;
use read_metrics::identity::{
    cigar_stats, gap_compressed_fallback, gap_compressed_identity, get_de_tag, get_nm_tag,
    Identity, MetricsError,
};
use read_metrics::input::check_input;
use read_metrics::record::{AlignmentRecord, CigarOp, TagValue};

fn plain_record() -> AlignmentRecord {
    AlignmentRecord {
        flags: 0,
        seq_len: 100,
        reference_start: 10,
        reference_end: 60,
        cigar: Vec::new(),
        mapq: 40,
        divergence_tag: None,
        edit_distance_tag: None,
    }
}

fn identity_percent(id: &Identity) -> f64 {
    match id {
        Identity::Divergence { bits } => {
            (100.0f32 * (1.0f32 - f32::from_bits(*bits))) as f64
        }
        Identity::GapCompressed { num, den } => {
            100.0 * (1.0 - (*num as f64) / (*den as f64))
        }
    }
}

fn fallback_cigar() -> Vec<CigarOp> {
    vec![
        CigarOp::Match(8),
        CigarOp::Insertion(2),
        CigarOp::Match(5),
        CigarOp::Deletion(1),
        CigarOp::Match(10),
    ]
}

#[test]
fn filter_keeps_plain_records() {
    assert!(keep_record(0));
    assert!(keep_record(16));
    assert!(!keep_record(0x4));
    assert!(!keep_record(0x100));
    assert!(!keep_record(0x104));
    assert!(!keep_record(0x4 | 16));
}

#[test]
fn unmapped_record_contributes_no_row() {
    let mut unmapped = plain_record();
    unmapped.flags = 0x4;
    unmapped.divergence_tag = Some(TagValue::Float(0.5f32.to_bits()));
    let cols = extract(&vec![unmapped]).unwrap();
    assert_eq!(cols.identities.len(), 0);
    assert_eq!(cols.lengths.len(), 0);
    assert_eq!(cols.aligned_lengths.len(), 0);
    assert_eq!(cols.mapqs.len(), 0);
}

#[test]
fn secondary_record_contributes_no_row() {
    let mut secondary = plain_record();
    secondary.flags = 0x100;
    secondary.divergence_tag = Some(TagValue::Float(0.5f32.to_bits()));
    let cols = extract(&vec![secondary]).unwrap();
    assert_eq!(cols.identities.len(), 0);
    assert_eq!(cols.mapqs.len(), 0);
}

#[test]
fn columns_stay_aligned_over_a_mixed_stream() {
    let mut records = Vec::new();
    let mut kept = 0usize;
    for i in 0..20u16 {
        let mut r = plain_record();
        r.flags = match i % 4 {
            0 => 0,
            1 => 0x4,
            2 => 0x100,
            _ => 16,
        };
        if r.flags & (0x4 | 0x100) == 0 {
            kept += 1;
        }
        r.seq_len = i as u64;
        r.divergence_tag = Some(TagValue::Float(0.25f32.to_bits()));
        records.push(r);
    }
    let cols = extract(&records).unwrap();
    assert_eq!(cols.identities.len(), kept);
    assert_eq!(cols.lengths.len(), kept);
    assert_eq!(cols.aligned_lengths.len(), kept);
    assert_eq!(cols.mapqs.len(), kept);
    assert_eq!(kept, 10);
}

#[test]
fn fast_path_divergence_yields_95_percent() {
    let mut r = plain_record();
    r.divergence_tag = Some(TagValue::Float(0.05f32.to_bits()));
    // CIGAR and edit distance that would give a very different fallback
    // value: the divergence tag must win regardless.
    r.cigar = vec![CigarOp::Match(1), CigarOp::Deletion(9)];
    r.edit_distance_tag = Some(TagValue::U32(10));
    let id = gap_compressed_identity(&r).unwrap();
    assert_eq!(id, Identity::Divergence { bits: 0.05f32.to_bits() });
    assert_eq!(identity_percent(&id), 95.0);
}

#[test]
fn fallback_example_yields_84_percent() {
    let ops = fallback_cigar();
    let stats = cigar_stats(&ops);
    assert_eq!(stats.matches, 23);
    assert_eq!(stats.gap_size, 3);
    assert_eq!(stats.gap_count, 2);
    let id = gap_compressed_fallback(&ops, 5);
    assert_eq!(id, Identity::GapCompressed { num: 4, den: 25 });
    assert_eq!(identity_percent(&id), 84.0);
}

#[test]
fn fallback_reached_through_the_record() {
    let mut r = plain_record();
    r.cigar = fallback_cigar();
    r.edit_distance_tag = Some(TagValue::U32(5));
    let id = gap_compressed_identity(&r).unwrap();
    assert_eq!(id, Identity::GapCompressed { num: 4, den: 25 });
}

#[test]
fn each_gap_run_counts_once_whatever_its_length() {
    let one_long_gap = vec![CigarOp::Match(10), CigarOp::Deletion(8), CigarOp::Match(10)];
    let stats = cigar_stats(&one_long_gap);
    assert_eq!(stats.gap_count, 1);
    assert_eq!(stats.gap_size, 8);
    let many_gaps = vec![
        CigarOp::Match(10),
        CigarOp::Deletion(4),
        CigarOp::Match(1),
        CigarOp::Deletion(4),
        CigarOp::Match(9),
    ];
    let stats = cigar_stats(&many_gaps);
    assert_eq!(stats.gap_count, 2);
    assert_eq!(stats.gap_size, 8);
}

#[test]
fn other_operations_contribute_nothing() {
    let ops = vec![
        CigarOp::Other(50),
        CigarOp::Equal(8),
        CigarOp::Diff(2),
        CigarOp::Other(7),
    ];
    let stats = cigar_stats(&ops);
    assert_eq!(stats.matches, 10);
    assert_eq!(stats.gap_size, 0);
    assert_eq!(stats.gap_count, 0);
}

#[test]
fn no_matches_and_no_gaps_means_identity_zero() {
    let ops: Vec<CigarOp> = vec![CigarOp::Other(12)];
    let id = gap_compressed_fallback(&ops, 3);
    assert_eq!(id, Identity::GapCompressed { num: 1, den: 1 });
    assert_eq!(identity_percent(&id), 0.0);
}

#[test]
fn edit_distance_tag_widens_from_any_width() {
    let mut r = plain_record();
    r.edit_distance_tag = Some(TagValue::U8(7));
    assert_eq!(get_nm_tag(&r), Ok(7));
    r.edit_distance_tag = Some(TagValue::U16(300));
    assert_eq!(get_nm_tag(&r), Ok(300));
    r.edit_distance_tag = Some(TagValue::U32(70000));
    assert_eq!(get_nm_tag(&r), Ok(70000));
}

#[test]
fn missing_tags_are_fatal() {
    let r = plain_record();
    assert_eq!(gap_compressed_identity(&r), Err(MetricsError::TagMissing));
    let res = extract(&vec![plain_record()]);
    assert_eq!(res, Err(MetricsError::TagMissing));
}

#[test]
fn wrong_divergence_tag_type_is_fatal() {
    let mut r = plain_record();
    r.divergence_tag = Some(TagValue::U8(5));
    assert_eq!(get_de_tag(&r), Err(MetricsError::TagTypeMismatch));
    assert_eq!(gap_compressed_identity(&r), Err(MetricsError::TagTypeMismatch));
    assert_eq!(extract(&vec![r]), Err(MetricsError::TagTypeMismatch));
}

#[test]
fn wrong_edit_distance_tag_type_is_fatal() {
    let mut r = plain_record();
    r.edit_distance_tag = Some(TagValue::Float(0.1f32.to_bits()));
    assert_eq!(get_nm_tag(&r), Err(MetricsError::TagTypeMismatch));
    r.edit_distance_tag = Some(TagValue::Other);
    assert_eq!(get_nm_tag(&r), Err(MetricsError::TagTypeMismatch));
    assert_eq!(gap_compressed_identity(&r), Err(MetricsError::TagTypeMismatch));
}

#[test]
fn error_stops_at_the_first_failing_record() {
    let mut good = plain_record();
    good.divergence_tag = Some(TagValue::Float(0.05f32.to_bits()));
    let mut bad_type = plain_record();
    bad_type.divergence_tag = Some(TagValue::U32(1));
    let no_tags = plain_record();
    let res = extract(&vec![good, bad_type, no_tags]);
    assert_eq!(res, Err(MetricsError::TagTypeMismatch));
}

#[test]
fn mapq_passes_through_unmodified_over_the_full_range() {
    let mut records = Vec::new();
    for q in 0..=255u8 {
        let mut r = plain_record();
        r.mapq = q;
        r.divergence_tag = Some(TagValue::Float(0.0f32.to_bits()));
        records.push(r);
    }
    let cols = extract(&records).unwrap();
    assert_eq!(cols.mapqs.len(), 256);
    for q in 0..=255u8 {
        assert_eq!(cols.mapqs[q as usize], q);
    }
}

#[test]
fn lengths_and_spans_are_extracted_per_record() {
    let mut r = plain_record();
    r.seq_len = 12345;
    r.reference_start = 1000;
    r.reference_end = 1500;
    r.mapq = 60;
    r.divergence_tag = Some(TagValue::Float(0.05f32.to_bits()));
    let row = metric_row(&r).unwrap();
    assert_eq!(
        row,
        MetricRow {
            length: 12345,
            aligned_length: 500,
            identity: Identity::Divergence { bits: 0.05f32.to_bits() },
            mapq: 60,
        }
    );
}

#[test]
fn rows_keep_stream_order() {
    let mut records = Vec::new();
    for i in 0..5u64 {
        let mut r = plain_record();
        r.seq_len = 100 + i;
        r.reference_start = 0;
        r.reference_end = 10 * i as i64;
        r.mapq = i as u8;
        r.divergence_tag = Some(TagValue::Float(0.05f32.to_bits()));
        records.push(r);
    }
    let cols = extract(&records).unwrap();
    for i in 0..5usize {
        assert_eq!(cols.lengths[i], 100 + i as u64);
        assert_eq!(cols.aligned_lengths[i], 10 * i as u64);
        assert_eq!(cols.mapqs[i], i as u8);
    }
}

#[test]
fn empty_stream_gives_empty_columns() {
    let cols: Columns = extract(&Vec::new()).unwrap();
    assert_eq!(cols.identities.len(), 0);
    assert_eq!(cols.lengths.len(), 0);
    assert_eq!(cols.aligned_lengths.len(), 0);
    assert_eq!(cols.mapqs.len(), 0);
    assert_eq!(cols.len(), 0);
}

#[test]
fn invalid_input_is_reported_with_the_path() {
    assert_eq!(check_input(true, "reads.bam"), Ok(()));
    assert_eq!(
        check_input(false, "reads.bam"),
        Err(String::from("Input file reads.bam is invalid"))
    );
}

#[test]
fn missing_input_file_is_rejected() {
    let res = read_metrics::input::is_file("no-such-directory/no-such-file.bam");
    assert_eq!(
        res,
        Err(String::from(
            "Input file no-such-directory/no-such-file.bam is invalid"
        ))
    );
}
