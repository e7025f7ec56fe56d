//! Tests of statement building: decimal placeholders, per-kind INSERT
//! statements, chunking and the rendered attribute-map texts.

use scdm::ingest::{run_to_body_jsons, IterationNode, RunNode, SampleNode, TagNode};
use scdm::model::{
    BodyJson, CDMSpecJson, MetricDescFKJson, Name, NameVal, ParamSpecJson, RunFKJson,
};
use scdm::names::{push_names_json, push_names_list};
use scdm::statement::{u64_to_dec, SqlParam};
use scdm::writer::{insert_names, insert_tags, CHUNK_ROWS};

#[test]
fn decimal_rendering_is_exact() {
    assert_eq!(u64_to_dec(0), "0");
    assert_eq!(u64_to_dec(7), "7");
    assert_eq!(u64_to_dec(10), "10");
    assert_eq!(u64_to_dec(65535), "65535");
    assert_eq!(u64_to_dec(u64::MAX), "18446744073709551615");
}

#[test]
fn tag_insert_statement_text_and_binds() {
    let tags = vec![
        scdm::model::TagJson {
            cdm: CDMSpecJson { ver: "v8dev".to_string() },
            tag: scdm::model::TagSpecJson { name: "topology".to_string(), val: "bare".to_string() },
            run: RunFKJson { run_uuid: 7 },
        },
        scdm::model::TagJson {
            cdm: CDMSpecJson { ver: "v8dev".to_string() },
            tag: scdm::model::TagSpecJson { name: "arch".to_string(), val: "x86".to_string() },
            run: RunFKJson { run_uuid: 7 },
        },
    ];
    let st = insert_tags(&tags).unwrap();
    assert_eq!(
        st.sql,
        "INSERT INTO tag (run_uuid, name, val) VALUES ($1, $2, $3), ($4, $5, $6)"
    );
    assert_eq!(
        st.params,
        vec![
            SqlParam::Uuid(7),
            SqlParam::Str("topology".to_string()),
            SqlParam::Str("bare".to_string()),
            SqlParam::Uuid(7),
            SqlParam::Str("arch".to_string()),
            SqlParam::Str("x86".to_string()),
        ]
    );
    assert_eq!(st.rows, 2);
}

#[test]
fn empty_kind_builds_no_statement() {
    assert!(insert_tags(&Vec::new()).is_none());
    assert_eq!(insert_names(&Vec::new()).len(), 0);
}

#[test]
fn oversized_batches_split_into_chunks() {
    let mut names: Vec<Name> = Vec::new();
    for i in 0..(CHUNK_ROWS + 1) {
        names.push(Name {
            metric_desc_uuid: 0x99,
            name: format!("k{}", i),
            val: "v".to_string(),
        });
    }
    let stmts = insert_names(&names);
    assert_eq!(stmts.len(), 2);
    assert_eq!(stmts[0].rows, CHUNK_ROWS);
    assert_eq!(stmts[1].rows, 1);
    assert_eq!(stmts[0].params.len(), CHUNK_ROWS * 3);
    assert_eq!(stmts[1].params.len(), 3);
    assert!(stmts[1].sql.ends_with("VALUES ($1, $2, $3)"));
    match &stmts[1].params[1] {
        SqlParam::Str(s) => assert_eq!(s, &format!("k{}", CHUNK_ROWS)),
        other => panic!("unexpected bind {:?}", other),
    }
}

#[test]
fn run_insert_carries_all_columns() {
    let tree = RunNode {
        run_uuid: 0xabc,
        begin: 5,
        finish: 6,
        benchmark: "b".to_string(),
        email: "e".to_string(),
        name: "n".to_string(),
        description: Some("d".to_string()),
        source: "s".to_string(),
        tags: vec![TagNode { name: "t".to_string(), val: "v".to_string() }],
        iterations: vec![IterationNode {
            iteration_uuid: 1,
            num: 0,
            status: "pass".to_string(),
            path: None,
            primary_metric: "m".to_string(),
            primary_period: "p".to_string(),
            params: vec![ParamSpecJson { arg: "bs".to_string(), val: "4k".to_string() }],
            samples: vec![SampleNode {
                sample_uuid: 2,
                num: 0,
                status: "pass".to_string(),
                path: None,
                periods: vec![],
            }],
        }],
    };
    let records = run_to_body_jsons(&CDMSpecJson { ver: "v8dev".to_string() }, tree);
    // the tree also yields the iteration's argument as a param record
    assert!(records.iter().any(|r| matches!(r, BodyJson::Param(_))));
    let (plan, _rs, _globals) = scdm::ingest::insert_records(records);
    let run_stmt = &plan[0];
    assert_eq!(
        run_stmt.sql,
        "INSERT INTO run (run_uuid, begin, finish, benchmark, email, name, description, source) VALUES ($1, $2, $3, $4, $5, $6, $7, $8)"
    );
    assert_eq!(run_stmt.params[0], SqlParam::Uuid(0xabc));
    assert_eq!(run_stmt.params[1], SqlParam::Ts(5));
    assert_eq!(run_stmt.params[2], SqlParam::Ts(6));
    assert_eq!(run_stmt.params[6], SqlParam::OptStr(Some("d".to_string())));
    // param rows bind iteration, argument, value
    let param_stmt = plan.iter().find(|st| st.sql.starts_with("INSERT INTO param ")).unwrap();
    assert_eq!(
        param_stmt.params,
        vec![
            SqlParam::Uuid(1),
            SqlParam::Str("bs".to_string()),
            SqlParam::Str("4k".to_string()),
        ]
    );
}

#[test]
fn metric_data_binds_value_bits_and_duration() {
    let d = scdm::model::MetricDataJson {
        cdm: CDMSpecJson { ver: "v8dev".to_string() },
        metric_data: scdm::model::MetricDataSpecJson {
            begin: 10,
            end: 20,
            duration: 10,
            value: 2.5f64.to_bits(),
        },
        metric_desc: MetricDescFKJson { metric_desc_uuid: 3 },
        run: RunFKJson { run_uuid: 4 },
    };
    let stmts = scdm::writer::insert_metric_datas(&vec![d]);
    assert_eq!(stmts.len(), 1);
    assert_eq!(
        stmts[0].sql,
        "INSERT INTO metric_data (metric_desc_uuid, value, begin, finish, duration) VALUES ($1, $2, $3, $4, $5)"
    );
    assert_eq!(stmts[0].params[1], SqlParam::F64Bits(2.5f64.to_bits()));
    assert_eq!(stmts[0].params[4], SqlParam::I64(10));
}

#[test]
fn names_column_renders_flat_json() {
    let entries = vec![
        NameVal { name: "host".to_string(), val: Some("a".to_string()) },
        NameVal { name: "threads".to_string(), val: None },
    ];
    assert_eq!(push_names_json(&entries), "{\"host\":\"a\",\"threads\":null}");
    assert_eq!(push_names_json(&Vec::new()), "{}");
    // quotes, backslashes and control characters are escaped
    let tricky = vec![NameVal {
        name: "qu\"ote".to_string(),
        val: Some("back\\slash\nnew".to_string()),
    }];
    assert_eq!(
        push_names_json(&tricky),
        "{\"qu\\\"ote\":\"back\\\\slash\\nnew\"}"
    );
}

#[test]
fn names_list_column_joins_keys() {
    assert_eq!(
        push_names_list(&vec!["host".to_string(), "env".to_string()]),
        "host,env"
    );
    assert_eq!(push_names_list(&Vec::new()), "");
}
