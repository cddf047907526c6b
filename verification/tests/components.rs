use metadata_filter::errors::{ErrorCodes, FilterError};
use metadata_filter::index::KeyValueIndex;
use metadata_filter::logview::{LogEntry, MaterializedLogOperation, MetadataLogReader};
use metadata_filter::signed::SignedRoaringBitmap;
use metadata_filter::values::{MetadataValue, PrimitiveOperator};
use roaring::RoaringBitmap;

fn bm(values: &[u32]) -> RoaringBitmap {
    values.iter().copied().collect()
}

fn inc(values: &[u32]) -> SignedRoaringBitmap {
    SignedRoaringBitmap::Include(bm(values))
}

fn exc(values: &[u32]) -> SignedRoaringBitmap {
    SignedRoaringBitmap::Exclude(bm(values))
}

#[test]
fn union_follows_the_sign_table() {
    assert_eq!(inc(&[1, 2]).or(&inc(&[2, 3])), inc(&[1, 2, 3]));
    assert_eq!(inc(&[1, 2]).or(&exc(&[2, 3])), exc(&[3]));
    assert_eq!(exc(&[1, 2]).or(&inc(&[2, 3])), exc(&[1]));
    assert_eq!(exc(&[1, 2]).or(&exc(&[2, 3])), exc(&[2]));
}

#[test]
fn intersection_follows_the_sign_table() {
    assert_eq!(inc(&[1, 2]).and(&inc(&[2, 3])), inc(&[2]));
    assert_eq!(inc(&[1, 2]).and(&exc(&[2, 3])), inc(&[1]));
    assert_eq!(exc(&[1, 2]).and(&inc(&[2, 3])), inc(&[3]));
    assert_eq!(exc(&[1, 2]).and(&exc(&[2, 3])), exc(&[1, 2, 3]));
}

#[test]
fn union_with_empty_and_intersection_with_full_are_identities() {
    assert_eq!(inc(&[4, 7]).or(&SignedRoaringBitmap::empty()), inc(&[4, 7]));
    assert_eq!(exc(&[4, 7]).or(&SignedRoaringBitmap::empty()), exc(&[4, 7]));
    assert_eq!(inc(&[4, 7]).and(&SignedRoaringBitmap::full()), inc(&[4, 7]));
    assert_eq!(exc(&[4, 7]).and(&SignedRoaringBitmap::full()), exc(&[4, 7]));
}

#[test]
fn intersection_with_exclusion_subtracts() {
    assert_eq!(inc(&[1, 2, 3]).and(&exc(&[2])), inc(&[1, 3]));
    assert_eq!(exc(&[1]).and(&exc(&[2])), exc(&[1, 2]));
}

#[test]
fn complement_swaps_the_sign_and_is_an_involution() {
    assert_eq!(inc(&[5]).complement(), exc(&[5]));
    assert_eq!(exc(&[5]).complement(), inc(&[5]));
    assert_eq!(inc(&[5]).complement().complement(), inc(&[5]));
}

#[test]
fn distributivity_on_samples() {
    let samples = [inc(&[1, 2]), exc(&[2, 3]), inc(&[3]), exc(&[])];
    for x in &samples {
        for y in &samples {
            for z in &samples {
                assert_eq!(x.or(y).and(z), x.and(z).or(&y.and(z)));
                assert_eq!(x.and(y).or(z), x.or(z).and(&y.or(z)));
            }
        }
    }
}

fn entry(
    offset: u32,
    operation: MaterializedLogOperation,
    metadata: Vec<(String, MetadataValue)>,
    document: Option<&str>,
) -> LogEntry {
    LogEntry {
        offset_id: offset,
        operation,
        user_id: format!("user-{}", offset),
        metadata,
        document: document.map(|d| d.to_string()),
    }
}

fn sample_log() -> Vec<LogEntry> {
    vec![
        entry(1, MaterializedLogOperation::Initial, vec![], Some("alpha")),
        entry(
            2,
            MaterializedLogOperation::AddNew,
            vec![("k".to_string(), MetadataValue::Int(7))],
            Some("bravo"),
        ),
        entry(
            3,
            MaterializedLogOperation::UpdateExisting,
            vec![("k".to_string(), MetadataValue::Int(9))],
            None,
        ),
        entry(
            4,
            MaterializedLogOperation::OverwriteExisting,
            vec![("k".to_string(), MetadataValue::Int(7))],
            Some("charlie"),
        ),
        entry(5, MaterializedLogOperation::DeleteExisting, vec![], None),
    ]
}

#[test]
fn shadowed_offsets_are_exactly_the_touched_ones() {
    let reader = MetadataLogReader::create(&sample_log());
    assert_eq!(reader.updated_offset_ids, bm(&[3, 4, 5]));
}

#[test]
fn live_records_keep_documents_and_user_ids() {
    let reader = MetadataLogReader::create(&sample_log());
    // documents of live entries only, and only where one exists
    assert_eq!(reader.documents_containing("a"), bm(&[1, 2, 4]));
    assert_eq!(reader.documents_containing("alpha"), bm(&[1]));
    assert_eq!(reader.documents_containing("delta"), bm(&[]));
    // user ids of live entries only
    assert_eq!(reader.user_offset(&"user-3".to_string()), Some(3));
    assert_eq!(reader.user_offset(&"user-5".to_string()), None);
    let ids = vec!["user-2".to_string(), "user-5".to_string(), "user-9".to_string()];
    assert_eq!(reader.search_user_ids(&ids), bm(&[2]));
}

#[test]
fn metadata_pairs_index_live_records_only() {
    let reader = MetadataLogReader::create(&sample_log());
    let k = "k".to_string();
    assert_eq!(
        reader.get(&k, &MetadataValue::Int(7), PrimitiveOperator::Equal),
        bm(&[2, 4])
    );
    assert_eq!(
        reader.get(&k, &MetadataValue::Int(9), PrimitiveOperator::Equal),
        bm(&[3])
    );
    assert_eq!(
        reader.get(&k, &MetadataValue::Int(8), PrimitiveOperator::GreaterThan),
        bm(&[3])
    );
    assert_eq!(
        reader.get(&k, &MetadataValue::Int(9), PrimitiveOperator::LessThanOrEqual),
        bm(&[2, 3, 4])
    );
    // a value of another variant never matches
    assert_eq!(
        reader.get(&k, &MetadataValue::Bool(true), PrimitiveOperator::Equal),
        bm(&[])
    );
    // an unknown key matches nothing
    assert_eq!(
        reader.get(&"other".to_string(), &MetadataValue::Int(7), PrimitiveOperator::Equal),
        bm(&[])
    );
}

/// The order-preserving key of a 64-bit float: sign bit flipped for
/// non-negative values, all bits flipped for negative ones.
fn float_key(x: f64) -> u64 {
    let bits = x.to_bits();
    if x >= 0.0 {
        bits ^ (1u64 << 63)
    } else {
        !bits
    }
}

#[test]
fn string_and_float_values_order_within_their_variant() {
    let mut index = KeyValueIndex::new();
    let k = "name".to_string();
    index.add(&k, &MetadataValue::Str("apple".to_string()), 1);
    index.add(&k, &MetadataValue::Str("banana".to_string()), 2);
    index.add(&k, &MetadataValue::Str("cherry".to_string()), 3);
    assert_eq!(
        index.get(&k, PrimitiveOperator::GreaterThan, &MetadataValue::Str("apple".to_string())),
        bm(&[2, 3])
    );
    assert_eq!(
        index.get(
            &k,
            PrimitiveOperator::LessThanOrEqual,
            &MetadataValue::Str("banana".to_string()),
        ),
        bm(&[1, 2])
    );
    assert_eq!(
        index.get(&k, PrimitiveOperator::LessThan, &MetadataValue::Str("applf".to_string())),
        bm(&[1])
    );

    let mut floats = KeyValueIndex::new();
    let f = "score".to_string();
    floats.add(&f, &MetadataValue::Float(float_key(-2.5)), 10);
    floats.add(&f, &MetadataValue::Float(float_key(0.0)), 11);
    floats.add(&f, &MetadataValue::Float(float_key(1.5)), 12);
    assert_eq!(
        floats.get(&f, PrimitiveOperator::GreaterThan, &MetadataValue::Float(float_key(-1.0))),
        bm(&[11, 12])
    );
    assert_eq!(
        floats.get(
            &f,
            PrimitiveOperator::LessThanOrEqual,
            &MetadataValue::Float(float_key(0.0)),
        ),
        bm(&[10, 11])
    );
}

#[test]
fn duplicate_offsets_accumulate_under_one_value() {
    let mut index = KeyValueIndex::new();
    let k = "tag".to_string();
    index.add(&k, &MetadataValue::Bool(true), 1);
    index.add(&k, &MetadataValue::Bool(true), 2);
    index.add(&k, &MetadataValue::Bool(false), 3);
    let hits = index.get(&k, PrimitiveOperator::Equal, &MetadataValue::Bool(true));
    assert_eq!(hits, bm(&[1, 2]));
    assert!(hits.contains(1));
    assert_eq!(
        index.get(&k, PrimitiveOperator::Equal, &MetadataValue::Bool(false)),
        bm(&[3])
    );
}

#[test]
fn error_codes_follow_the_taxonomy() {
    assert_eq!(FilterError::Index(ErrorCodes::Internal).code(), ErrorCodes::Internal);
    assert_eq!(
        FilterError::LogMaterializer(ErrorCodes::NotFound).code(),
        ErrorCodes::NotFound
    );
    assert_eq!(
        FilterError::MetadataReader(ErrorCodes::Unavailable).code(),
        ErrorCodes::Unavailable
    );
    assert_eq!(FilterError::Record(ErrorCodes::DataLoss).code(), ErrorCodes::DataLoss);
    assert_eq!(
        FilterError::RecordReader(ErrorCodes::Aborted).code(),
        ErrorCodes::Aborted
    );
    assert_eq!(
        FilterError::Regex("unclosed group".to_string()).code(),
        ErrorCodes::InvalidArgument
    );
}
