//! Tests of the metric query builder, the window partition and the
//! weighted-average duration correction.

use scdm::metricq::{query_metric_statement, split_breakout_token, Aggregator, MetricArgs};
use scdm::statement::SqlParam;
use scdm::window::{adjusted_duration, compute_windows, overlaps};

fn base_args() -> MetricArgs {
    MetricArgs {
        run_uuid: None,
        iteration_uuid: None,
        metric_desc_uuid: None,
        period_uuid: None,
        metric_type: None,
        ref_period: Some(0x44),
        begin: None,
        finish: None,
        resolution: 1,
        value_eq: None,
        value_lt: None,
        value_gt: None,
        name: None,
        aggregator: Aggregator::Passthrough,
    }
}

#[test]
fn breakout_token_splits_at_first_equals() {
    assert_eq!(split_breakout_token("host"), ("host".to_string(), None));
    assert_eq!(split_breakout_token("env=prod"), ("env".to_string(), Some("prod".to_string())));
    // the value is the text between the first and second separator
    assert_eq!(split_breakout_token("a=b=c"), ("a".to_string(), Some("b".to_string())));
    assert_eq!(split_breakout_token(""), ("".to_string(), None));
    assert_eq!(split_breakout_token("=v"), ("".to_string(), Some("v".to_string())));
}

#[test]
fn breakout_chaining_restricts_both_dimensions() {
    let mut args = base_args();
    args.name = Some(vec!["host".to_string(), "env=prod".to_string()]);
    args.aggregator = Aggregator::Avg;
    let st = query_metric_statement(&args).unwrap();
    // the first three binds are the anchor name, the chained name, its value
    assert_eq!(st.params[0], SqlParam::Str("host".to_string()));
    assert_eq!(st.params[1], SqlParam::Str("env".to_string()));
    assert_eq!(st.params[2], SqlParam::Str("prod".to_string()));
    // the anchor restricts name.name = $1 with any value; the chained
    // subquery restricts name.name = $2 and name.val = $3; they join on the
    // same descriptor
    assert!(st.sql.contains("name.name = $1) as \"host\""));
    assert!(st.sql.contains("name.name = $2 AND name.val = $3) as \"env\""));
    assert!(st.sql.contains(
        " ON \"host\".metric_desc_uuid = \"env\".metric_desc_uuid"
    ));
    assert!(st.sql.contains(
        " ON metric_desc.metric_desc_uuid = \"host\".metric_desc_uuid"
    ));
}

#[test]
fn reference_period_query_shape() {
    let mut args = base_args();
    args.name = Some(vec!["host".to_string()]);
    args.aggregator = Aggregator::Avg;
    args.resolution = 1;
    let st = query_metric_statement(&args).unwrap();
    assert!(st.sql.starts_with(
        "SELECT run.run_uuid as run_uuid, iteration.iteration_uuid as iteration_uuid, metric_desc.metric_type as metric_type, \"host\".name_value as \"host_v\", woi.window_begin, woi.window_finish, AVG(metric_data.value) as avg FROM metric_data"
    ));
    assert!(st.sql.contains("generate_series(period.begin, period.finish, (period.finish - period.begin)/1)"));
    assert!(st.sql.contains("WHERE period_uuid = $2"));
    assert!(st.sql.contains("LIMIT 1) woi"));
    assert!(st.sql.contains(" WHERE TRUE AND ((metric_data.begin > woi.window_begin"));
    assert!(st.sql.ends_with(
        " GROUP BY run.run_uuid, iteration.iteration_uuid, metric_desc.metric_type, woi.window_begin, woi.window_finish, \"host\".name_value ORDER BY \"host\".name_value, woi.window_begin, woi.window_finish"
    ));
    assert_eq!(
        st.params,
        vec![SqlParam::Str("host".to_string()), SqlParam::Uuid(0x44)]
    );
}

#[test]
fn explicit_range_binds_and_overlap() {
    let mut args = base_args();
    args.ref_period = None;
    args.begin = Some(100);
    args.finish = Some(500);
    args.resolution = 4;
    let st = query_metric_statement(&args).unwrap();
    // without breakout tokens the anchor dimension is `base`
    assert!(st.sql.contains("name.name = $1) as \"base\""));
    // the window generator binds finish, begin, begin, finish, finish, begin
    assert_eq!(st.params[0], SqlParam::Str("base".to_string()));
    assert_eq!(
        &st.params[1..7],
        &[
            SqlParam::Ts(500),
            SqlParam::Ts(100),
            SqlParam::Ts(100),
            SqlParam::Ts(500),
            SqlParam::Ts(500),
            SqlParam::Ts(100),
        ]
    );
    // the overlap restriction binds begin, finish three times
    assert_eq!(
        &st.params[7..13],
        &[
            SqlParam::Ts(100),
            SqlParam::Ts(500),
            SqlParam::Ts(100),
            SqlParam::Ts(500),
            SqlParam::Ts(100),
            SqlParam::Ts(500),
        ]
    );
    // passthrough aggregation emits no grouping
    assert!(!st.sql.contains("GROUP BY"));
}

#[test]
fn scalar_filters_bind_in_fixed_order() {
    let mut args = base_args();
    args.run_uuid = Some(1);
    args.iteration_uuid = Some(2);
    args.metric_desc_uuid = Some(3);
    args.period_uuid = Some(4);
    args.metric_type = Some("iops".to_string());
    args.value_eq = Some(1.5f64.to_bits());
    args.value_lt = Some(9f64.to_bits());
    args.value_gt = Some(0f64.to_bits());
    let st = query_metric_statement(&args).unwrap();
    assert!(st.sql.contains(" AND run.run_uuid = $3"));
    assert!(st.sql.contains(" AND iteration.iteration_uuid = $4"));
    assert!(st.sql.contains(" AND metric_data.metric_desc_uuid = $5"));
    assert!(st.sql.contains(" AND metric_desc.period_uuid = $6"));
    assert!(st.sql.contains(" AND metric_desc.metric_type = $7"));
    assert!(st.sql.contains(" AND metric_data.value = $8"));
    assert!(st.sql.contains(" AND metric_data.value < $9"));
    assert!(st.sql.contains(" AND metric_data.value > $10"));
    assert_eq!(st.params[2], SqlParam::Uuid(1));
    assert_eq!(st.params[9], SqlParam::F64Bits(0f64.to_bits()));
}

#[test]
fn weighted_average_prorates_partial_overlap() {
    let mut args = base_args();
    args.name = Some(vec!["host".to_string()]);
    args.aggregator = Aggregator::WeightedAvg;
    let st = query_metric_statement(&args).unwrap();
    assert!(st.sql.contains("SUM(metric_data.value * (metric_data.duration - GREATEST(0,"));
    assert!(st.sql.contains(") / SUM((metric_data.duration - GREATEST(0,"));
    assert!(st.sql.contains(") as weighted_avg"));
}

#[test]
fn conflicting_time_selectors_are_rejected() {
    let mut args = base_args();
    args.begin = Some(1);
    args.finish = Some(2);
    match query_metric_statement(&args) {
        Err(scdm::errors::QueryError::MetricError(_)) => {}
        other => panic!("expected a metric query-build error, got {:?}", other),
    }
    let mut args = base_args();
    args.ref_period = None;
    args.begin = Some(1);
    assert!(query_metric_statement(&args).is_err());
    let mut args = base_args();
    args.ref_period = None;
    assert!(query_metric_statement(&args).is_err());
}

#[test]
fn window_partition_covers_reference_interval() {
    let ws = compute_windows(0, 100, 4);
    assert_eq!(ws, vec![(0, 25), (25, 50), (50, 75), (75, 100)]);
    // contiguous, equal width, spanning exactly the interval
    for i in 0..3 {
        assert_eq!(ws[i].1, ws[i + 1].0);
        assert_eq!(ws[i].1 - ws[i].0, 25);
    }
    assert_eq!(ws[0].0, 0);
    assert_eq!(ws[3].1, 100);
}

#[test]
fn overlap_uses_strict_bounds() {
    // begins strictly inside
    assert!(overlaps(5, 15, 0, 10));
    // ends strictly inside
    assert!(overlaps(-5, 5, 0, 10));
    // strictly spans
    assert!(overlaps(-5, 15, 0, 10));
    // boundary-exact equality does not count
    assert!(!overlaps(0, 10, 0, 10));
    assert!(!overlaps(10, 20, 0, 10));
    assert!(!overlaps(-10, 0, 0, 10));
}

#[test]
fn adjusted_duration_keeps_full_inside_points() {
    // a point fully inside contributes its full duration
    assert_eq!(adjusted_duration(1000, 1000, 2000, 0, 10_000), 1000);
    // a point overlapping only the trailing edge contributes the overlap
    assert_eq!(adjusted_duration(1000, 500, 1500, 0, 1000), 500);
    // a point overlapping only the leading edge contributes the overlap
    assert_eq!(adjusted_duration(1000, -500, 500, 0, 1000), 500);
}

#[test]
fn one_run_one_metric_average_scenario() {
    // one run, one iteration, one sample, one period, one descriptor named
    // host=a, two points of duration 1000 ms inside the period
    let records = scdm::ingest::run_to_body_jsons(
        &scdm::model::CDMSpecJson { ver: "v8dev".to_string() },
        scenario_tree(),
    );
    let (_plan, rs, _globals) = scdm::ingest::insert_records(records);
    assert_eq!(rs.names.len(), 1);
    assert_eq!(rs.names[0].name, "host");
    assert_eq!(rs.names[0].val, "a");
    // both points lie inside the reference window and keep their durations
    let period = (0i64, 10_000i64);
    let ws = compute_windows(period.0, period.1, 1);
    assert_eq!(ws, vec![(0, 10_000)]);
    let mut sum = 0f64;
    let mut n = 0usize;
    for d in &rs.metric_datas {
        if d.metric_desc.metric_desc_uuid == 0x55 {
            assert!(overlaps(d.metric_data.begin, d.metric_data.end, ws[0].0, ws[0].1));
            assert_eq!(
                adjusted_duration(
                    d.metric_data.duration,
                    d.metric_data.begin,
                    d.metric_data.end,
                    ws[0].0,
                    ws[0].1,
                ),
                d.metric_data.duration
            );
            sum += f64::from_bits(d.metric_data.value);
            n += 1;
        }
    }
    assert_eq!(n, 2);
    assert_eq!(sum / n as f64, 15.0);
    // the query the surface would run: breakout host, averaged, over the
    // reference period
    let mut args = base_args();
    args.name = Some(vec!["host".to_string()]);
    args.aggregator = Aggregator::Avg;
    let st = query_metric_statement(&args).unwrap();
    assert!(st.sql.contains("AVG(metric_data.value) as avg"));
    assert_eq!(
        st.params,
        vec![SqlParam::Str("host".to_string()), SqlParam::Uuid(0x44)]
    );
}

fn scenario_tree() -> scdm::ingest::RunNode {
    scdm::ingest::RunNode {
        run_uuid: 0x11,
        begin: 0,
        finish: 10_000,
        benchmark: "fio".to_string(),
        email: "user@example.com".to_string(),
        name: "run-one".to_string(),
        description: None,
        source: "test".to_string(),
        tags: vec![],
        iterations: vec![scdm::ingest::IterationNode {
            iteration_uuid: 0x22,
            num: 1,
            status: "pass".to_string(),
            path: None,
            primary_metric: "iops".to_string(),
            primary_period: "measurement".to_string(),
            params: vec![],
            samples: vec![scdm::ingest::SampleNode {
                sample_uuid: 0x33,
                num: 1,
                status: "pass".to_string(),
                path: None,
                periods: vec![scdm::ingest::PeriodNode {
                    period_uuid: 0x44,
                    begin: 0,
                    finish: 10_000,
                    name: "measurement".to_string(),
                    metrics: vec![scdm::ingest::MetricNode {
                        metric_desc_uuid: 0x55,
                        class: "throughput".to_string(),
                        metric_type: "iops".to_string(),
                        source: "fio".to_string(),
                        names: vec![scdm::model::NameVal {
                            name: "host".to_string(),
                            val: Some("a".to_string()),
                        }],
                        names_list: vec!["host".to_string()],
                        data: vec![
                            scdm::ingest::Point {
                                begin: 1000,
                                finish: 2000,
                                value: 10f64.to_bits(),
                            },
                            scdm::ingest::Point {
                                begin: 3000,
                                finish: 4000,
                                value: 20f64.to_bits(),
                            },
                        ],
                    }],
                }],
            }],
        }],
    }
}
