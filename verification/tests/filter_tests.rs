//! The filter compiler: per-operator behaviour, composition, and the
//! integer-fragment evaluator.

use tyl_qdrant_adapter::filter::build_complex_filter;
use tyl_qdrant_adapter::filter::build_filter;
use tyl_qdrant_adapter::filter::build_not_equals_condition;
use tyl_qdrant_adapter::filter::build_range_filter;
use tyl_qdrant_adapter::filter::condition_matches;
use tyl_qdrant_adapter::filter::filter_matches;
use tyl_qdrant_adapter::filter::ConditionKind;
use tyl_qdrant_adapter::filter::MatchValue;
use tyl_qdrant_adapter::filter::NumValue;
use tyl_qdrant_adapter::json::fields_get;
use tyl_qdrant_adapter::json::json_value_eq;
use tyl_qdrant_adapter::FloatVal;
use tyl_qdrant_adapter::JsonValue;
use tyl_qdrant_adapter::VectorError;

fn float_val(x: f64) -> JsonValue {
    JsonValue::Float(FloatVal { bits: x.to_bits(), trunc: x as i64 })
}

fn obj(fields: Vec<(&str, JsonValue)>) -> JsonValue {
    JsonValue::Object(fields.into_iter().map(|(k, v)| (k.to_string(), v)).collect())
}

#[test]
fn test_advanced_filter_syntax_validation() {
    // Range filter
    let range_filter = obj(vec![
        ("$gte", float_val(10.0)),
        ("$lte", float_val(100.0)),
        ("$gt", float_val(5.0)),
        ("$lt", float_val(200.0)),
    ]);

    assert!(matches!(range_filter, JsonValue::Object(_)));
    if let JsonValue::Object(fields) = &range_filter {
        assert!(fields_get(fields, "$gte").is_some());
        assert!(json_value_eq(fields_get(fields, "$gte").unwrap(), &float_val(10.0)));
    }

    // IN filter
    let in_filter = obj(vec![
        (
            "$in",
            JsonValue::Array(vec![
                JsonValue::Str("value1".to_string()),
                JsonValue::Str("value2".to_string()),
                JsonValue::Str("value3".to_string()),
            ]),
        ),
    ]);

    assert!(matches!(in_filter, JsonValue::Object(_)));
    if let JsonValue::Object(fields) = &in_filter {
        assert!(fields_get(fields, "$in").is_some());
        assert!(matches!(fields_get(fields, "$in").unwrap(), JsonValue::Array(_)));
    }

    // EXISTS filter
    let exists_filter = obj(vec![("$exists", JsonValue::Bool(true))]);

    assert!(matches!(exists_filter, JsonValue::Object(_)));
    if let JsonValue::Object(fields) = &exists_filter {
        assert!(fields_get(fields, "$exists").is_some());
        assert!(json_value_eq(fields_get(fields, "$exists").unwrap(), &JsonValue::Bool(true)));
    }
}

#[test]
fn test_single_equality_filter_compiles_to_one_must_leaf() {
    let filters = vec![("status".to_string(), JsonValue::Str("active".to_string()))];
    let compiled = build_filter(&filters).unwrap().unwrap();
    assert_eq!(compiled.must.len(), 1);
    assert!(compiled.should.is_empty());
    assert!(compiled.must_not.is_empty());
    assert_eq!(compiled.must[0].key, "status");
    match &compiled.must[0].kind {
        ConditionKind::Match(MatchValue::Keyword(s)) => assert_eq!(s, "active"),
        other => panic!("expected a keyword match leaf, got {:?}", other),
    }
}

#[test]
fn test_range_filter_merges_inclusive_bounds() {
    let filters = vec![(
        "price".to_string(),
        obj(vec![("$gte", JsonValue::Int(120)), ("$lte", JsonValue::Int(180))]),
    )];
    let compiled = build_filter(&filters).unwrap().unwrap();
    assert_eq!(compiled.must.len(), 1);
    match &compiled.must[0].kind {
        ConditionKind::Range(r) => {
            assert!(matches!(r.gte, Some(NumValue::Int(120))));
            assert!(matches!(r.lte, Some(NumValue::Int(180))));
            assert!(r.gt.is_none());
            assert!(r.lt.is_none());
        }
        other => panic!("expected a range leaf, got {:?}", other),
    }
}

#[test]
fn test_range_leaf_includes_both_boundaries() {
    let filters = vec![(
        "price".to_string(),
        obj(vec![("$gte", JsonValue::Int(120)), ("$lte", JsonValue::Int(180))]),
    )];
    let compiled = build_filter(&filters).unwrap().unwrap();
    let leaf = &compiled.must[0];

    let record = |price: i64| vec![("price".to_string(), JsonValue::Int(price))];
    assert_eq!(condition_matches(leaf, &record(119)), Some(false));
    assert_eq!(condition_matches(leaf, &record(120)), Some(true));
    assert_eq!(condition_matches(leaf, &record(150)), Some(true));
    assert_eq!(condition_matches(leaf, &record(180)), Some(true));
    assert_eq!(condition_matches(leaf, &record(181)), Some(false));
}

#[test]
fn test_exists_filter_partitions_records() {
    let present = vec![(
        "category".to_string(),
        obj(vec![("$exists", JsonValue::Bool(true))]),
    )];
    let absent = vec![(
        "category".to_string(),
        obj(vec![("$exists", JsonValue::Bool(false))]),
    )];
    let present_leaf = &build_filter(&present).unwrap().unwrap().must[0];
    let absent_leaf = &build_filter(&absent).unwrap().unwrap().must[0];

    let with_field = vec![("category".to_string(), JsonValue::Str("electronics".to_string()))];
    let without_field: Vec<(String, JsonValue)> = Vec::new();
    let with_null = vec![("category".to_string(), JsonValue::Null)];

    // Each record lands in exactly one partition.
    assert_eq!(condition_matches(present_leaf, &with_field), Some(true));
    assert_eq!(condition_matches(absent_leaf, &with_field), Some(false));
    assert_eq!(condition_matches(present_leaf, &without_field), Some(false));
    assert_eq!(condition_matches(absent_leaf, &without_field), Some(true));
    assert_eq!(condition_matches(present_leaf, &with_null), Some(false));
    assert_eq!(condition_matches(absent_leaf, &with_null), Some(true));
}

#[test]
fn test_ne_filter_yields_not_implemented_error() {
    let filters = vec![(
        "status".to_string(),
        obj(vec![("$ne", JsonValue::Str("archived".to_string()))]),
    )];
    match build_filter(&filters) {
        Err(VectorError::NotImplemented { feature }) => assert_eq!(feature, "$ne"),
        other => panic!("expected a not-implemented error, got {:?}", other),
    }
}

#[test]
fn test_build_not_equals_condition_always_fails() {
    let operand = vec![("$ne".to_string(), JsonValue::Int(3))];
    match build_not_equals_condition("field", &operand) {
        Err(VectorError::NotImplemented { feature }) => assert_eq!(feature, "$ne"),
        other => panic!("expected a not-implemented error, got {:?}", other),
    }
}

#[test]
fn test_in_filter_seeds_from_first_element() {
    let filters = vec![(
        "category".to_string(),
        obj(vec![(
            "$in",
            JsonValue::Array(vec![
                JsonValue::Str("electronics".to_string()),
                JsonValue::Str("books".to_string()),
            ]),
        )]),
    )];
    let compiled = build_filter(&filters).unwrap().unwrap();
    match &compiled.must[0].kind {
        ConditionKind::Match(MatchValue::Keyword(s)) => assert_eq!(s, "electronics"),
        other => panic!("expected a keyword match leaf, got {:?}", other),
    }
}

#[test]
fn test_float_equality_matches_on_truncated_integer() {
    let filters = vec![("count".to_string(), float_val(42.7))];
    let compiled = build_filter(&filters).unwrap().unwrap();
    match &compiled.must[0].kind {
        ConditionKind::Match(MatchValue::Integer(i)) => assert_eq!(*i, 42),
        other => panic!("expected an integer match leaf, got {:?}", other),
    }
}

#[test]
fn test_unrecognized_shapes_are_skipped() {
    let filters = vec![
        ("junk".to_string(), JsonValue::Array(vec![JsonValue::Int(1)])),
        ("other".to_string(), obj(vec![("$unknown", JsonValue::Int(1))])),
    ];
    let compiled = build_filter(&filters).unwrap();
    assert!(compiled.is_none());
}

#[test]
fn test_build_complex_filter_composes_three_groups() {
    let must = vec![("status".to_string(), JsonValue::Str("active".to_string()))];
    let should = vec![
        ("tier".to_string(), JsonValue::Int(1)),
        ("tier".to_string(), JsonValue::Int(2)),
    ];
    let must_not = vec![("hidden".to_string(), JsonValue::Bool(true))];
    let compiled = build_complex_filter(must, should, must_not).unwrap();
    assert_eq!(compiled.must.len(), 1);
    assert_eq!(compiled.should.len(), 2);
    assert_eq!(compiled.must_not.len(), 1);
    assert!(compiled.min_should.is_none());
}

#[test]
fn test_build_complex_filter_empty_lists_yield_no_filter() {
    assert!(build_complex_filter(Vec::new(), Vec::new(), Vec::new()).is_none());
}

#[test]
fn test_build_range_filter_uses_strict_bounds() {
    let compiled = build_range_filter(
        "price",
        Some(NumValue::Int(10)),
        Some(NumValue::Int(20)),
    )
    .unwrap();
    assert_eq!(compiled.must.len(), 1);
    match &compiled.must[0].kind {
        ConditionKind::Range(r) => {
            assert!(matches!(r.gt, Some(NumValue::Int(10))));
            assert!(matches!(r.lt, Some(NumValue::Int(20))));
            assert!(r.gte.is_none());
            assert!(r.lte.is_none());
        }
        other => panic!("expected a range leaf, got {:?}", other),
    }
    assert!(build_range_filter("price", None, None).is_none());
}

#[test]
fn test_filter_matches_combines_groups() {
    let must = vec![("status".to_string(), JsonValue::Str("active".to_string()))];
    let should = vec![
        ("tier".to_string(), JsonValue::Int(1)),
        ("tier".to_string(), JsonValue::Int(2)),
    ];
    let must_not = vec![("hidden".to_string(), JsonValue::Bool(true))];
    let compiled = build_complex_filter(must, should, must_not).unwrap();

    let good = vec![
        ("status".to_string(), JsonValue::Str("active".to_string())),
        ("tier".to_string(), JsonValue::Int(2)),
        ("hidden".to_string(), JsonValue::Bool(false)),
    ];
    assert_eq!(filter_matches(&compiled, &good), Some(true));

    // A MUST-NOT hit excludes the record.
    let hidden = vec![
        ("status".to_string(), JsonValue::Str("active".to_string())),
        ("tier".to_string(), JsonValue::Int(2)),
        ("hidden".to_string(), JsonValue::Bool(true)),
    ];
    assert_eq!(filter_matches(&compiled, &hidden), Some(false));

    // No SHOULD leaf holding excludes the record.
    let no_tier = vec![
        ("status".to_string(), JsonValue::Str("active".to_string())),
        ("tier".to_string(), JsonValue::Int(9)),
        ("hidden".to_string(), JsonValue::Bool(false)),
    ];
    assert_eq!(filter_matches(&compiled, &no_tier), Some(false));

    // A failing MUST leaf excludes the record.
    let inactive = vec![
        ("status".to_string(), JsonValue::Str("archived".to_string())),
        ("tier".to_string(), JsonValue::Int(1)),
    ];
    assert_eq!(filter_matches(&compiled, &inactive), Some(false));
}

#[test]
fn test_exists_with_non_boolean_operand_is_skipped() {
    // A malformed presence operator contributes no condition rather
    // than silently defaulting to presence.
    let filters = vec![(
        "category".to_string(),
        obj(vec![("$exists", JsonValue::Int(1))]),
    )];
    let compiled = build_filter(&filters).unwrap();
    assert!(compiled.is_none());
}

#[test]
fn test_complex_filter_accepts_float_pairs() {
    // A float-valued pair compiles to a truncated-integer match, as in
    // the flat field-map path.
    let must = vec![("price".to_string(), float_val(99.9))];
    let compiled = build_complex_filter(must, Vec::new(), Vec::new()).unwrap();
    assert_eq!(compiled.must.len(), 1);
    match &compiled.must[0].kind {
        ConditionKind::Match(MatchValue::Integer(i)) => assert_eq!(*i, 99),
        other => panic!("expected an integer match leaf, got {:?}", other),
    }
}

#[test]
fn test_batch_size_error_carries_both_numbers() {
    match tyl_qdrant_adapter::qdrant_errors::batch_size_exceeded(1000, 100) {
        VectorError::Validation { field, message } => {
            assert_eq!(field, "batch_size");
            assert_eq!(message, "Size 1000 exceeds maximum 100");
        }
        other => panic!("expected a validation error, got {:?}", other),
    }
}

