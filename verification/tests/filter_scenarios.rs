use metadata_filter::expression::{
    BooleanOperator, CompositeExpression, DocumentExpression, DocumentOperator,
    MetadataComparison, MetadataExpression, MetadataSetValue, SetOperator, Where,
};
use metadata_filter::filter::{FilterInput, FilterOperator};
use metadata_filter::index::KeyValueIndex;
use metadata_filter::logview::{LogEntry, MaterializedLogOperation};
use metadata_filter::segment::{
    FullTextIndex, MetadataSegmentReader, RecordSegmentReader, SegmentRecord,
};
use metadata_filter::signed::SignedRoaringBitmap;
use metadata_filter::values::{MetadataValue, PrimitiveOperator};

fn int_as_id(i: u32) -> String {
    format!("id_{:06}", i)
}

fn doc_text(offset: u32) -> String {
    let mut s = format!("record {}", offset);
    if offset % 3 == 0 {
        s.push_str(" <cat>");
    }
    if offset % 5 == 0 {
        s.push_str(" <dog>");
    }
    s
}

fn metadata_for(offset: u32) -> Vec<(String, MetadataValue)> {
    vec![
        ("is_even".to_string(), MetadataValue::Bool(offset % 2 == 0)),
        ("modulo_3".to_string(), MetadataValue::Int((offset % 3) as i64)),
        ("id".to_string(), MetadataValue::Int(offset as i64)),
    ]
}

/// The test data mirrors a collection of 120 records where the first 60
/// operations are compacted: the segment holds offsets 11..=50 live
/// (offsets 1..=10 were deleted before compaction), and the log deletes
/// offsets 11..=20 and adds offsets 51..=100.
fn setup_filter_input() -> FilterInput {
    let mut records = Vec::new();
    let mut documents = Vec::new();
    let mut bool_index = KeyValueIndex::new();
    let mut int_index = KeyValueIndex::new();
    for o in 11..=50u32 {
        records.push((
            o,
            SegmentRecord {
                user_id: int_as_id(o),
                document: Some(doc_text(o)),
            },
        ));
        documents.push((o, doc_text(o)));
        for (k, v) in metadata_for(o) {
            match v {
                MetadataValue::Bool(_) => bool_index.add(&k, &v, o),
                MetadataValue::Int(_) => int_index.add(&k, &v, o),
                _ => {}
            }
        }
    }
    let mut logs = Vec::new();
    for o in 11..=20u32 {
        logs.push(LogEntry {
            offset_id: o,
            operation: MaterializedLogOperation::DeleteExisting,
            user_id: int_as_id(o),
            metadata: Vec::new(),
            document: None,
        });
    }
    for o in 51..=100u32 {
        logs.push(LogEntry {
            offset_id: o,
            operation: MaterializedLogOperation::AddNew,
            user_id: int_as_id(o),
            metadata: metadata_for(o),
            document: Some(doc_text(o)),
        });
    }
    FilterInput {
        logs,
        metadata_segment: MetadataSegmentReader {
            bool_index: Some(bool_index),
            int_index: Some(int_index),
            float_index: None,
            string_index: None,
            full_text_index: Some(FullTextIndex { documents }),
        },
        record_segment: Some(RecordSegmentReader { records }),
    }
}

#[test]
fn test_trivial_filter() {
    let filter_input = setup_filter_input();

    let filter_operator = FilterOperator {
        query_ids: None,
        where_clause: None,
    };

    let filter_output = filter_operator
        .run(&filter_input)
        .expect("FilterOperator should not fail");

    assert_eq!(filter_output.log_offset_ids, SignedRoaringBitmap::full());
    assert_eq!(
        filter_output.compact_offset_ids,
        SignedRoaringBitmap::Exclude((11..=20).collect())
    );
}

#[test]
fn test_simple_user_allowed_ids() {
    let filter_input = setup_filter_input();

    let filter_operator = FilterOperator {
        query_ids: Some((0..30).map(int_as_id).collect()),
        where_clause: None,
    };

    let filter_output = filter_operator
        .run(&filter_input)
        .expect("FilterOperator should not fail");

    assert_eq!(filter_output.log_offset_ids, SignedRoaringBitmap::empty());
    assert_eq!(
        filter_output.compact_offset_ids,
        SignedRoaringBitmap::Include((21..30).collect())
    );
}

#[test]
fn test_simple_eq() {
    let filter_input = setup_filter_input();

    let where_clause = Where::Metadata(MetadataExpression {
        key: "is_even".to_string(),
        comparison: MetadataComparison::Primitive(
            PrimitiveOperator::Equal,
            MetadataValue::Bool(true),
        ),
    });

    let filter_operator = FilterOperator {
        query_ids: None,
        where_clause: Some(where_clause),
    };

    let filter_output = filter_operator
        .run(&filter_input)
        .expect("FilterOperator should not fail");

    assert_eq!(
        filter_output.log_offset_ids,
        SignedRoaringBitmap::Include((51..=100).filter(|offset| offset % 2 == 0).collect())
    );
    assert_eq!(
        filter_output.compact_offset_ids,
        SignedRoaringBitmap::Include((21..=50).filter(|offset| offset % 2 == 0).collect())
    );
}

#[test]
fn test_simple_ne() {
    let filter_input = setup_filter_input();

    let where_clause = Where::Metadata(MetadataExpression {
        key: "modulo_3".to_string(),
        comparison: MetadataComparison::Primitive(
            PrimitiveOperator::NotEqual,
            MetadataValue::Int(0),
        ),
    });

    let filter_operator = FilterOperator {
        query_ids: None,
        where_clause: Some(where_clause),
    };

    let filter_output = filter_operator
        .run(&filter_input)
        .expect("FilterOperator should not fail");

    assert_eq!(
        filter_output.log_offset_ids,
        SignedRoaringBitmap::Exclude((51..=100).filter(|offset| offset % 3 == 0).collect())
    );
    assert_eq!(
        filter_output.compact_offset_ids,
        SignedRoaringBitmap::Exclude(
            (21..=50)
                .filter(|offset| offset % 3 == 0)
                .chain(11..=20)
                .collect()
        )
    );
}

#[test]
fn test_simple_in() {
    let filter_input = setup_filter_input();

    let where_clause = Where::Metadata(MetadataExpression {
        key: "is_even".to_string(),
        comparison: MetadataComparison::ValueSet(
            SetOperator::In,
            MetadataSetValue::Bool(vec![false, true]),
        ),
    });

    let filter_operator = FilterOperator {
        query_ids: None,
        where_clause: Some(where_clause),
    };

    let filter_output = filter_operator
        .run(&filter_input)
        .expect("FilterOperator should not fail");

    assert_eq!(
        filter_output.log_offset_ids,
        SignedRoaringBitmap::Include((51..=100).collect())
    );
    assert_eq!(
        filter_output.compact_offset_ids,
        SignedRoaringBitmap::Include((21..=50).collect())
    );
}

#[test]
fn test_simple_nin() {
    let filter_input = setup_filter_input();

    let where_clause = Where::Metadata(MetadataExpression {
        key: "modulo_3".to_string(),
        comparison: MetadataComparison::ValueSet(
            SetOperator::NotIn,
            MetadataSetValue::Int(vec![1, 2]),
        ),
    });

    let filter_operator = FilterOperator {
        query_ids: None,
        where_clause: Some(where_clause),
    };

    let filter_output = filter_operator
        .run(&filter_input)
        .expect("FilterOperator should not fail");

    assert_eq!(
        filter_output.log_offset_ids,
        SignedRoaringBitmap::Exclude((51..=100).filter(|offset| offset % 3 != 0).collect())
    );
    assert_eq!(
        filter_output.compact_offset_ids,
        SignedRoaringBitmap::Exclude(
            (21..=50)
                .filter(|offset| offset % 3 != 0)
                .chain(11..=20)
                .collect()
        )
    );
}

#[test]
fn test_simple_gt() {
    let filter_input = setup_filter_input();

    let where_clause = Where::Metadata(MetadataExpression {
        key: "id".to_string(),
        comparison: MetadataComparison::Primitive(
            PrimitiveOperator::GreaterThan,
            MetadataValue::Int(36),
        ),
    });

    let filter_operator = FilterOperator {
        query_ids: None,
        where_clause: Some(where_clause),
    };

    let filter_output = filter_operator
        .run(&filter_input)
        .expect("FilterOperator should not fail");

    assert_eq!(
        filter_output.log_offset_ids,
        SignedRoaringBitmap::Include((51..=100).collect())
    );
    assert_eq!(
        filter_output.compact_offset_ids,
        SignedRoaringBitmap::Include((37..=50).collect())
    );
}

#[test]
fn test_simple_contains() {
    let filter_input = setup_filter_input();

    let where_clause = Where::Document(DocumentExpression {
        operator: DocumentOperator::Contains,
        pattern: "<cat>".to_string(),
    });

    let filter_operator = FilterOperator {
        query_ids: None,
        where_clause: Some(where_clause),
    };

    let filter_output = filter_operator
        .run(&filter_input)
        .expect("FilterOperator should not fail");

    assert_eq!(
        filter_output.log_offset_ids,
        SignedRoaringBitmap::Include((51..=100).filter(|offset| offset % 3 == 0).collect())
    );
    assert_eq!(
        filter_output.compact_offset_ids,
        SignedRoaringBitmap::Include((21..=50).filter(|offset| offset % 3 == 0).collect())
    );
}

#[test]
fn test_simple_not_contains() {
    let filter_input = setup_filter_input();

    let where_clause = Where::Document(DocumentExpression {
        operator: DocumentOperator::NotContains,
        pattern: "<dog>".to_string(),
    });

    let filter_operator = FilterOperator {
        query_ids: None,
        where_clause: Some(where_clause),
    };

    let filter_output = filter_operator
        .run(&filter_input)
        .expect("FilterOperator should not fail");

    assert_eq!(
        filter_output.log_offset_ids,
        SignedRoaringBitmap::Exclude((51..=100).filter(|offset| offset % 5 == 0).collect())
    );
    assert_eq!(
        filter_output.compact_offset_ids,
        SignedRoaringBitmap::Exclude(
            (21..=50)
                .filter(|offset| offset % 5 == 0)
                .chain(11..=20)
                .collect()
        )
    );
}

#[test]
fn test_simple_and() {
    let filter_input = setup_filter_input();

    let where_sub_clause_1 = Where::Metadata(MetadataExpression {
        key: "id".to_string(),
        comparison: MetadataComparison::Primitive(
            PrimitiveOperator::GreaterThan,
            MetadataValue::Int(36),
        ),
    });

    let where_sub_clause_2 = Where::Metadata(MetadataExpression {
        key: "is_even".to_string(),
        comparison: MetadataComparison::Primitive(
            PrimitiveOperator::Equal,
            MetadataValue::Bool(false),
        ),
    });

    let where_clause = Where::Composite(CompositeExpression {
        operator: BooleanOperator::And,
        children: vec![where_sub_clause_1, where_sub_clause_2],
    });

    let filter_operator = FilterOperator {
        query_ids: None,
        where_clause: Some(where_clause),
    };

    let filter_output = filter_operator
        .run(&filter_input)
        .expect("FilterOperator should not fail");

    assert_eq!(
        filter_output.log_offset_ids,
        SignedRoaringBitmap::Include((51..=100).filter(|offset| offset % 2 == 1).collect())
    );
    assert_eq!(
        filter_output.compact_offset_ids,
        SignedRoaringBitmap::Include((37..=50).filter(|offset| offset % 2 == 1).collect())
    );
}

#[test]
fn test_simple_or() {
    let filter_input = setup_filter_input();

    let where_sub_clause_1 = Where::Metadata(MetadataExpression {
        key: "modulo_3".to_string(),
        comparison: MetadataComparison::Primitive(
            PrimitiveOperator::Equal,
            MetadataValue::Int(0),
        ),
    });

    let where_sub_clause_2 = Where::Metadata(MetadataExpression {
        key: "modulo_3".to_string(),
        comparison: MetadataComparison::Primitive(
            PrimitiveOperator::Equal,
            MetadataValue::Int(2),
        ),
    });

    let where_clause = Where::Composite(CompositeExpression {
        operator: BooleanOperator::Or,
        children: vec![where_sub_clause_1, where_sub_clause_2],
    });

    let filter_operator = FilterOperator {
        query_ids: None,
        where_clause: Some(where_clause),
    };

    let filter_output = filter_operator
        .run(&filter_input)
        .expect("FilterOperator should not fail");

    assert_eq!(
        filter_output.log_offset_ids,
        SignedRoaringBitmap::Include((51..=100).filter(|offset| offset % 3 != 1).collect())
    );
    assert_eq!(
        filter_output.compact_offset_ids,
        SignedRoaringBitmap::Include((21..=50).filter(|offset| offset % 3 != 1).collect())
    );
}

#[test]
fn test_complex_filter() {
    let filter_input = setup_filter_input();

    let where_sub_clause_1 = Where::Document(DocumentExpression {
        operator: DocumentOperator::NotContains,
        pattern: "<dog>".to_string(),
    });

    let where_sub_clause_2 = Where::Metadata(MetadataExpression {
        key: "id".to_string(),
        comparison: MetadataComparison::Primitive(
            PrimitiveOperator::LessThan,
            MetadataValue::Int(72),
        ),
    });

    let where_sub_clause_3 = Where::Metadata(MetadataExpression {
        key: "modulo_3".to_string(),
        comparison: MetadataComparison::ValueSet(
            SetOperator::NotIn,
            MetadataSetValue::Int(vec![0, 1]),
        ),
    });

    let where_clause = Where::Composite(CompositeExpression {
        operator: BooleanOperator::And,
        children: vec![
            where_sub_clause_1,
            Where::Composite(CompositeExpression {
                operator: BooleanOperator::Or,
                children: vec![where_sub_clause_2, where_sub_clause_3],
            }),
        ],
    });

    let filter_operator = FilterOperator {
        query_ids: Some((0..96).map(int_as_id).collect()),
        where_clause: Some(where_clause),
    };

    let filter_output = filter_operator
        .run(&filter_input)
        .expect("FilterOperator should not fail");

    assert_eq!(
        filter_output.log_offset_ids,
        SignedRoaringBitmap::Include(
            (51..96)
                .filter(|offset| offset % 5 != 0 && (offset < &72 || offset % 3 == 2))
                .collect()
        )
    );
    assert_eq!(
        filter_output.compact_offset_ids,
        SignedRoaringBitmap::Include((21..=50).filter(|offset| offset % 5 != 0).collect())
    );
}

#[test]
fn test_simple_regex() {
    let filter_input = setup_filter_input();

    let where_clause = Where::Document(DocumentExpression {
        operator: DocumentOperator::Regex,
        pattern: "<c.t>".to_string(),
    });

    let filter_operator = FilterOperator {
        query_ids: None,
        where_clause: Some(where_clause),
    };

    let filter_output = filter_operator
        .run(&filter_input)
        .expect("FilterOperator should not fail");

    assert_eq!(
        filter_output.log_offset_ids,
        SignedRoaringBitmap::Include((51..=100).filter(|offset| offset % 3 == 0).collect())
    );
    assert_eq!(
        filter_output.compact_offset_ids,
        SignedRoaringBitmap::Include((21..=50).filter(|offset| offset % 3 == 0).collect())
    );
}

#[test]
fn test_not_regex_with_word_boundary() {
    let filter_input = setup_filter_input();

    // a word boundary forces the verification scan over all records
    let where_clause = Where::Document(DocumentExpression {
        operator: DocumentOperator::NotRegex,
        pattern: r"\bdog\b".to_string(),
    });

    let filter_operator = FilterOperator {
        query_ids: None,
        where_clause: Some(where_clause),
    };

    let filter_output = filter_operator
        .run(&filter_input)
        .expect("FilterOperator should not fail");

    assert_eq!(
        filter_output.log_offset_ids,
        SignedRoaringBitmap::Exclude((51..=100).filter(|offset| offset % 5 == 0).collect())
    );
    assert_eq!(
        filter_output.compact_offset_ids,
        SignedRoaringBitmap::Exclude(
            (21..=50)
                .filter(|offset| offset % 5 == 0)
                .chain(11..=20)
                .collect()
        )
    );
}

#[test]
fn test_regex_selective_lookup() {
    let filter_input = setup_filter_input();

    // two candidates out of forty records: fewer than a tenth, so the
    // segment side verifies them by point lookups
    let where_clause = Where::Document(DocumentExpression {
        operator: DocumentOperator::Regex,
        pattern: r"record 2[12]\b".to_string(),
    });

    let filter_operator = FilterOperator {
        query_ids: None,
        where_clause: Some(where_clause),
    };

    let filter_output = filter_operator
        .run(&filter_input)
        .expect("FilterOperator should not fail");

    assert_eq!(
        filter_output.log_offset_ids,
        SignedRoaringBitmap::Include(roaring::RoaringBitmap::new())
    );
    assert_eq!(
        filter_output.compact_offset_ids,
        SignedRoaringBitmap::Include([21u32, 22].into_iter().collect())
    );
}

#[test]
fn test_empty_composites_are_fold_identities() {
    let filter_input = setup_filter_input();

    // an empty conjunction is the universe
    let all = FilterOperator {
        query_ids: None,
        where_clause: Some(Where::Composite(CompositeExpression {
            operator: BooleanOperator::And,
            children: vec![],
        })),
    };
    let out = all
        .run(&filter_input)
        .expect("FilterOperator should not fail");
    assert_eq!(out.log_offset_ids, SignedRoaringBitmap::full());
    assert_eq!(
        out.compact_offset_ids,
        SignedRoaringBitmap::Exclude((11..=20).collect())
    );

    // an empty disjunction is the empty set
    let none = FilterOperator {
        query_ids: None,
        where_clause: Some(Where::Composite(CompositeExpression {
            operator: BooleanOperator::Or,
            children: vec![],
        })),
    };
    let out = none
        .run(&filter_input)
        .expect("FilterOperator should not fail");
    assert_eq!(out.log_offset_ids, SignedRoaringBitmap::empty());
    assert_eq!(out.compact_offset_ids, SignedRoaringBitmap::empty());
}

#[test]
fn test_empty_membership_lists() {
    let filter_input = setup_filter_input();

    // membership in no values matches nothing
    let in_empty = FilterOperator {
        query_ids: None,
        where_clause: Some(Where::Metadata(MetadataExpression {
            key: "modulo_3".to_string(),
            comparison: MetadataComparison::ValueSet(SetOperator::In, MetadataSetValue::Int(vec![])),
        })),
    };
    let out = in_empty
        .run(&filter_input)
        .expect("FilterOperator should not fail");
    assert_eq!(out.log_offset_ids, SignedRoaringBitmap::empty());
    assert_eq!(out.compact_offset_ids, SignedRoaringBitmap::empty());

    // exclusion of no values matches everything
    let not_in_empty = FilterOperator {
        query_ids: None,
        where_clause: Some(Where::Metadata(MetadataExpression {
            key: "modulo_3".to_string(),
            comparison: MetadataComparison::ValueSet(
                SetOperator::NotIn,
                MetadataSetValue::Int(vec![]),
            ),
        })),
    };
    let out = not_in_empty
        .run(&filter_input)
        .expect("FilterOperator should not fail");
    assert_eq!(out.log_offset_ids, SignedRoaringBitmap::full());
    assert_eq!(
        out.compact_offset_ids,
        SignedRoaringBitmap::Exclude((11..=20).collect())
    );
}

#[test]
fn test_invalid_regex_is_rejected() {
    let filter_input = setup_filter_input();

    let where_clause = Where::Document(DocumentExpression {
        operator: DocumentOperator::Regex,
        pattern: "(<cat".to_string(),
    });

    let filter_operator = FilterOperator {
        query_ids: None,
        where_clause: Some(where_clause),
    };

    let err = filter_operator
        .run(&filter_input)
        .expect_err("an unparsable pattern must fail the run");
    assert!(matches!(err, metadata_filter::errors::FilterError::Regex(_)));
    assert_eq!(
        err.code(),
        metadata_filter::errors::ErrorCodes::InvalidArgument
    );
}

#[test]
fn test_filter_without_record_segment() {
    let mut filter_input = setup_filter_input();
    filter_input.record_segment = None;

    let filter_operator = FilterOperator {
        query_ids: Some((0..30).map(int_as_id).collect()),
        where_clause: None,
    };

    let filter_output = filter_operator
        .run(&filter_input)
        .expect("FilterOperator should not fail");

    // without a record reader the whitelist cannot be resolved on the
    // committed side, so only the shadow mask applies there
    assert_eq!(filter_output.log_offset_ids, SignedRoaringBitmap::empty());
    assert_eq!(
        filter_output.compact_offset_ids,
        SignedRoaringBitmap::Exclude((11..=20).collect())
    );
}
