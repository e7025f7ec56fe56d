//! Tests of the ingestion pipeline: tree flattening, bucketing, placeholder
//! synthesis and the insert plan.

use scdm::ingest::{
    bucket_records, build_insert_plan, extract_names, insert_records, run_to_body_jsons,
    IterationNode, MetricNode, PeriodNode, Point, RunNode, SampleNode, TagNode,
};
use scdm::model::{BodyJson, CDMSpecJson, NameVal};
use scdm::statement::SqlParam;
use scdm::synth::synthesize_globals;
use scdm::txn::{writer_start, writer_step, BatchWriter, WriteAction, WriteEvent};

fn cdm() -> CDMSpecJson {
    CDMSpecJson { ver: "v8dev".to_string() }
}

fn one_run_tree() -> RunNode {
    RunNode {
        run_uuid: 0x11,
        begin: 0,
        finish: 10_000,
        benchmark: "fio".to_string(),
        email: "user@example.com".to_string(),
        name: "run-one".to_string(),
        description: None,
        source: "test".to_string(),
        tags: vec![TagNode { name: "topology".to_string(), val: "bare".to_string() }],
        iterations: vec![IterationNode {
            iteration_uuid: 0x22,
            num: 1,
            status: "pass".to_string(),
            path: None,
            primary_metric: "iops".to_string(),
            primary_period: "measurement".to_string(),
            params: vec![],
            samples: vec![SampleNode {
                sample_uuid: 0x33,
                num: 1,
                status: "pass".to_string(),
                path: None,
                periods: vec![PeriodNode {
                    period_uuid: 0x44,
                    begin: 0,
                    finish: 10_000,
                    name: "measurement".to_string(),
                    metrics: vec![MetricNode {
                        metric_desc_uuid: 0x55,
                        class: "throughput".to_string(),
                        metric_type: "iops".to_string(),
                        source: "fio".to_string(),
                        names: vec![NameVal {
                            name: "host".to_string(),
                            val: Some("a".to_string()),
                        }],
                        names_list: vec!["host".to_string()],
                        data: vec![
                            Point { begin: 1000, finish: 2000, value: 10f64.to_bits() },
                            Point { begin: 3000, finish: 4000, value: 20f64.to_bits() },
                        ],
                    }],
                }],
            }],
        }],
    }
}

#[test]
fn tree_flattening_order_and_durations() {
    let records = run_to_body_jsons(&cdm(), one_run_tree());
    // run, tag, iteration, sample, period, metric_desc, two data points
    assert_eq!(records.len(), 8);
    assert!(matches!(records[0], BodyJson::Run(_)));
    assert!(matches!(records[1], BodyJson::Tag(_)));
    assert!(matches!(records[2], BodyJson::Iteration(_)));
    assert!(matches!(records[3], BodyJson::Sample(_)));
    assert!(matches!(records[4], BodyJson::Period(_)));
    assert!(matches!(records[5], BodyJson::MetricDesc(_)));
    match (&records[6], &records[7]) {
        (BodyJson::MetricData(a), BodyJson::MetricData(b)) => {
            assert_eq!(a.metric_data.duration, a.metric_data.end - a.metric_data.begin);
            assert_eq!(a.metric_data.duration, 1000);
            assert_eq!(b.metric_data.duration, 1000);
            assert_eq!(a.metric_desc.metric_desc_uuid, 0x55);
        },
        _ => panic!("expected two data points at the tail"),
    }
}

#[test]
fn tree_flattening_propagates_parents() {
    let records = run_to_body_jsons(&cdm(), one_run_tree());
    match &records[2] {
        BodyJson::Iteration(it) => assert_eq!(it.run.run_uuid, 0x11),
        _ => panic!("expected the iteration"),
    }
    match &records[3] {
        BodyJson::Sample(s) => assert_eq!(s.iteration.iteration_uuid, 0x22),
        _ => panic!("expected the sample"),
    }
    match &records[4] {
        BodyJson::Period(p) => assert_eq!(p.sample.sample_uuid, 0x33),
        _ => panic!("expected the period"),
    }
    match &records[5] {
        BodyJson::MetricDesc(md) => {
            assert_eq!(md.period.as_ref().unwrap().period_uuid, 0x44);
            assert_eq!(md.run.run_uuid, 0x11);
        },
        _ => panic!("expected the descriptor"),
    }
}

#[test]
fn bucketing_keeps_kind_order() {
    let records = run_to_body_jsons(&cdm(), one_run_tree());
    let rs = bucket_records(records);
    assert_eq!(rs.runs.len(), 1);
    assert_eq!(rs.tags.len(), 1);
    assert_eq!(rs.iterations.len(), 1);
    assert_eq!(rs.samples.len(), 1);
    assert_eq!(rs.periods.len(), 1);
    assert_eq!(rs.metric_descs.len(), 1);
    assert_eq!(rs.names.len(), 0);
    assert_eq!(rs.metric_datas.len(), 2);
}

#[test]
fn extracted_names_drop_non_string_values() {
    let records = run_to_body_jsons(&cdm(), one_run_tree());
    let rs = bucket_records(records);
    let mut md = rs.metric_descs.into_iter().next().unwrap();
    md.metric_desc.names.push(NameVal { name: "threads".to_string(), val: None });
    let names = extract_names(&md);
    assert_eq!(names.len(), 1);
    assert_eq!(names[0].metric_desc_uuid, 0x55);
    assert_eq!(names[0].name, "host");
    assert_eq!(names[0].val, "a");
}

#[test]
fn synthesized_chain_links_levels_and_sentinels() {
    let records = run_to_body_jsons(&cdm(), one_run_tree());
    let rs = bucket_records(records);
    let globals = synthesize_globals(&rs.runs);
    assert_eq!(globals.len(), 1);
    let (run_uuid, g) = &globals[0];
    assert_eq!(*run_uuid, 0x11);
    assert_eq!(g.iteration.run.run_uuid, 0x11);
    assert_eq!(g.sample.iteration.iteration_uuid, g.iteration.iteration.iteration_uuid);
    assert_eq!(g.period.sample.sample_uuid, g.sample.sample.sample_uuid);
    assert_eq!(
        g.metric_desc.period.as_ref().unwrap().period_uuid,
        g.period.period.period_uuid
    );
    assert_eq!(
        g.metric_data.metric_desc.metric_desc_uuid,
        g.metric_desc.metric_desc.metric_desc_uuid
    );
    assert_eq!(g.iteration.iteration.status, "pass");
    assert_eq!(g.iteration.iteration.primary_metric, "global");
    assert_eq!(g.metric_desc.metric_desc.class, "count");
    assert_eq!(g.metric_desc.metric_desc.metric_type, "global");
    assert_eq!(g.period.period.name, "global");
    assert_eq!(g.metric_data.metric_data.duration, 0);
    // the synthesized identifiers come from version-4 UUIDs
    assert_eq!((g.iteration.iteration.iteration_uuid >> 76) & 0xf, 4);
    assert_eq!((g.sample.sample.sample_uuid >> 76) & 0xf, 4);
    assert_eq!((g.period.period.period_uuid >> 76) & 0xf, 4);
    assert_eq!((g.metric_desc.metric_desc.metric_desc_uuid >> 76) & 0xf, 4);
}

#[test]
fn insert_plan_is_fk_ordered_and_complete() {
    let records = run_to_body_jsons(&cdm(), one_run_tree());
    let (plan, rs, globals) = insert_records(records);
    // every child row's parent is present, placeholders included
    assert_eq!(rs.iterations.len(), 2);
    assert_eq!(rs.samples.len(), 2);
    assert_eq!(rs.periods.len(), 2);
    assert_eq!(rs.metric_descs.len(), 2);
    assert_eq!(rs.metric_datas.len(), 3);
    assert_eq!(rs.names.len(), 1);
    assert_eq!(globals.len(), 1);
    // one statement per non-empty kind: run, tag, iteration, sample, period,
    // metric_desc, name, metric_data (no params in this tree)
    assert_eq!(plan.len(), 8);
    assert!(plan[0].sql.starts_with("INSERT INTO run "));
    assert!(plan[1].sql.starts_with("INSERT INTO tag "));
    assert!(plan[2].sql.starts_with("INSERT INTO iteration "));
    assert!(plan[3].sql.starts_with("INSERT INTO sample "));
    assert!(plan[4].sql.starts_with("INSERT INTO period "));
    assert!(plan[5].sql.starts_with("INSERT INTO metric_desc "));
    assert!(plan[6].sql.starts_with("INSERT INTO name "));
    assert!(plan[7].sql.starts_with("INSERT INTO metric_data "));
    let total_rows: usize = plan.iter().map(|st| st.rows).sum();
    assert_eq!(total_rows, 1 + 1 + 2 + 2 + 2 + 2 + 1 + 3);
}

#[test]
fn missing_period_reference_resolves_to_placeholder() {
    let records = run_to_body_jsons(&cdm(), one_run_tree());
    let (plan, rs, globals) = insert_records(records);
    let placeholder_period = globals[0].1.period.period.period_uuid;
    // the placeholder descriptor is the second metric_desc row; its period
    // bind is the placeholder period
    let md_stmt = &plan[5];
    assert_eq!(md_stmt.rows, 2);
    match &md_stmt.params[1] {
        SqlParam::OptUuid(Some(p)) => assert_eq!(*p, 0x44),
        other => panic!("unexpected period bind {:?}", other),
    }
    match &md_stmt.params[8] {
        SqlParam::OptUuid(Some(p)) => assert_eq!(*p, placeholder_period),
        other => panic!("unexpected placeholder period bind {:?}", other),
    }
    assert_eq!(rs.metric_descs[1].period.as_ref().unwrap().period_uuid, placeholder_period);
}

#[test]
fn empty_batch_builds_no_statements() {
    let (plan, _, globals) = insert_records(Vec::new());
    assert_eq!(plan.len(), 0);
    assert_eq!(globals.len(), 0);
}

#[test]
fn batch_writer_commits_only_after_every_statement() {
    let (st, a) = writer_start(2);
    assert_eq!(a, WriteAction::Execute(0));
    let (st, a) = writer_step(st, WriteEvent::Done(3));
    assert_eq!(a, WriteAction::Execute(1));
    let (st, a) = writer_step(st, WriteEvent::Done(4));
    assert_eq!(a, WriteAction::Commit);
    assert!(st.committed);
    assert!(!st.aborted);
    assert_eq!(st.rows, 7);
}

#[test]
fn batch_writer_aborts_on_first_failure() {
    let (st, a) = writer_start(3);
    assert_eq!(a, WriteAction::Execute(0));
    let (st, a) = writer_step(st, WriteEvent::Done(5));
    assert_eq!(a, WriteAction::Execute(1));
    let (st, a) = writer_step(st, WriteEvent::Failed("duplicate key".to_string()));
    assert_eq!(a, WriteAction::Abort);
    assert!(st.aborted);
    assert!(!st.committed);
    assert!(st.finished);
}

#[test]
fn empty_plan_commits_immediately() {
    let (st, a): (BatchWriter, WriteAction) = writer_start(0);
    assert_eq!(a, WriteAction::Commit);
    assert!(st.committed);
    assert_eq!(st.rows, 0);
}

#[test]
fn plan_rebuild_from_parts_matches_insert_records() {
    let records = run_to_body_jsons(&cdm(), one_run_tree());
    let (plan, rs, globals) = insert_records(records);
    let again = build_insert_plan(&rs, &globals);
    assert_eq!(plan, again);
}
