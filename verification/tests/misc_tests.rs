//! Tests of input classification, timestamp parsing, errors and the result
//! unpacker.

use scdm::errors::SCDMError;
use scdm::input::{default_metric, default_period, index_name_to_type, is_json, is_ndjson};
use scdm::merr;
use scdm::model::IndexType;
use scdm::timeparse::{parse_i64_str, parse_timestamp_str};
use scdm::unpack::{split_tag_filter, unpack_rows, RawRow};

#[test]
fn file_kind_by_extension() {
    assert!(is_ndjson("results/run.ndjson"));
    assert!(!is_ndjson("results/run.json"));
    assert!(!is_ndjson("x"));
    assert!(!is_ndjson(""));
    assert!(is_json("one.json"));
    assert!(!is_json("one.ndjson.bak"));
    assert!(!is_json("son"));
}

#[test]
fn index_names_map_to_record_kinds() {
    assert_eq!(index_name_to_type("cdmv8dev-run@2024.01"), Some(IndexType::Run));
    assert_eq!(index_name_to_type("cdmv8dev-metric_data@x"), Some(IndexType::MetricData));
    assert_eq!(index_name_to_type("cdmv8dev-metric_desc"), Some(IndexType::MetricDesc));
    assert_eq!(index_name_to_type("cdmv8dev-iteration"), Some(IndexType::Iteration));
    assert_eq!(index_name_to_type("cdmv8dev-param"), Some(IndexType::Param));
    assert_eq!(index_name_to_type("cdmv8dev-period"), Some(IndexType::Period));
    assert_eq!(index_name_to_type("cdmv8dev-sample"), Some(IndexType::Sample));
    assert_eq!(index_name_to_type("cdmv8dev-tag"), Some(IndexType::Tag));
    // unknown kinds and names without the marker are rejected
    assert_eq!(index_name_to_type("cdmv8dev-bogus@x"), None);
    assert_eq!(index_name_to_type("no-marker-here"), None);
}

#[test]
fn defaults_for_missing_iteration_fields() {
    assert_eq!(default_metric(), "metric");
    assert_eq!(default_period(), "period");
}

#[test]
fn timestamps_parse_as_rfc3339_or_epoch_millis() {
    // through chrono's parser
    assert_eq!(parse_timestamp_str("2020-01-01T00:00:00Z"), Ok(1_577_836_800_000));
    assert_eq!(parse_timestamp_str("1970-01-01T00:00:00.5Z"), Ok(500));
    // as a decimal count of epoch milliseconds
    assert_eq!(parse_timestamp_str("123"), Ok(123));
    assert_eq!(parse_timestamp_str("-1000"), Ok(-1000));
    // neither form
    match parse_timestamp_str("not a time") {
        Err(SCDMError::FailedTimestampParse(m)) => assert_eq!(m, "not a time"),
        other => panic!("unexpected {:?}", other),
    }
    // a count chrono cannot represent as an instant
    assert!(parse_timestamp_str("9223372036854775807").is_err());
}

#[test]
fn decimal_parser_matches_grammar() {
    assert_eq!(parse_i64_str("0"), Some(0));
    assert_eq!(parse_i64_str("+42"), Some(42));
    assert_eq!(parse_i64_str("-42"), Some(-42));
    assert_eq!(parse_i64_str("9223372036854775807"), Some(i64::MAX));
    assert_eq!(parse_i64_str("-9223372036854775808"), Some(i64::MIN));
    assert_eq!(parse_i64_str("9223372036854775808"), None);
    assert_eq!(parse_i64_str(""), None);
    assert_eq!(parse_i64_str("-"), None);
    assert_eq!(parse_i64_str("12a"), None);
    assert_eq!(parse_i64_str(" 12"), None);
}

#[test]
fn table_init_error_wraps_store_message() {
    match merr("connection refused".to_string()) {
        SCDMError::FailedTableInit(m) => assert_eq!(m, "connection refused"),
        other => panic!("unexpected {:?}", other),
    }
}

#[test]
fn tag_filter_splits_name_and_value() {
    assert_eq!(split_tag_filter(&None), (None, None));
    assert_eq!(
        split_tag_filter(&Some("env=prod".to_string())),
        (Some("env".to_string()), Some("prod".to_string()))
    );
    assert_eq!(
        split_tag_filter(&Some("env".to_string())),
        (Some("env".to_string()), None)
    );
}

#[test]
fn unpacker_defaults_absent_cells() {
    let rows = vec![RawRow {
        columns: vec![
            "run_uuid".to_string(),
            "iteration_uuid".to_string(),
            "metric_type".to_string(),
            "host_v".to_string(),
            "window_begin".to_string(),
            "window_finish".to_string(),
            "avg".to_string(),
        ],
        run_uuid: None,
        iteration_uuid: Some("5a".to_string()),
        metric_type: None,
        breakout_values: vec!["a".to_string()],
        begin: None,
        finish: Some("2020".to_string()),
        value: None,
    }];
    let (header, cells) = unpack_rows(&rows);
    assert_eq!(header.len(), 7);
    assert_eq!(header[3], "host_v");
    assert_eq!(cells.len(), 1);
    assert_eq!(
        cells[0],
        vec![
            "00000000-0000-0000-0000-000000000000".to_string(),
            "5a".to_string(),
            "null".to_string(),
            "a".to_string(),
            "1970-01-01 00:00:00 UTC".to_string(),
            "2020".to_string(),
            "0".to_string(),
        ]
    );
}

#[test]
fn unpacker_on_empty_result() {
    let (header, cells) = unpack_rows(&Vec::new());
    assert!(header.is_empty());
    assert!(cells.is_empty());
}
