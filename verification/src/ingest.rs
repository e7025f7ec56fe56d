//! The ingestion pipeline: flattening a nested result tree into records,
//! bucketing a record stream by kind, deriving `Name` rows, and composing
//! the full foreign-key-ordered insert plan.

use vstd::prelude::*;

use crate::statement::Statement;
use crate::synth::{global_resource_wf, synthesize_globals, GlobalResource};
use crate::writer::{
    insert_iterations, insert_metric_datas, insert_metric_descs, insert_names, insert_params,
    insert_periods, insert_runs, insert_samples, insert_tags, iteration_stmt_ok,
    metric_data_stmt_ok, metric_desc_stmt_ok, name_stmt_ok, num_chunks, param_stmt_ok,
    period_stmt_ok, run_stmt_ok, sample_stmt_ok, tag_stmt_ok,
};
use crate::model::{
    BodyJson, CDMSpecJson, IterationFKJson, IterationJson, IterationSpecJson, MetricDataJson,
    MetricDataSpecJson, MetricDescFKJson, MetricDescJson, MetricDescSpecJson, Name, NameVal,
    ParamJson, ParamSpecJson, PeriodFKJson, PeriodJson, PeriodSpecJson, RunFKJson, RunJson,
    RunSpecJson, SampleFKJson, SampleJson, SampleSpecJson, TagJson, TagSpecJson,
};

verus! {

/// A run with its whole subtree, as one nested input document carries it.
#[derive(Debug, PartialEq)]
pub struct RunNode {
    pub run_uuid: u128,
    pub begin: i64,
    pub finish: i64,
    pub benchmark: String,
    pub email: String,
    pub name: String,
    pub description: Option<String>,
    pub source: String,
    pub tags: Vec<TagNode>,
    pub iterations: Vec<IterationNode>,
}

/// One tag of a nested run document.
#[derive(Debug, PartialEq)]
pub struct TagNode {
    pub name: String,
    pub val: String,
}

/// One iteration of a nested run document.
#[derive(Debug, PartialEq)]
pub struct IterationNode {
    pub iteration_uuid: u128,
    pub num: i64,
    pub status: String,
    pub path: Option<String>,
    pub primary_metric: String,
    pub primary_period: String,
    pub params: Vec<ParamSpecJson>,
    pub samples: Vec<SampleNode>,
}

/// One sample of a nested iteration.
#[derive(Debug, PartialEq)]
pub struct SampleNode {
    pub sample_uuid: u128,
    pub num: i64,
    pub status: String,
    pub path: Option<String>,
    pub periods: Vec<PeriodNode>,
}

/// One measurement period of a nested sample.
#[derive(Debug, PartialEq)]
pub struct PeriodNode {
    pub period_uuid: u128,
    pub begin: i64,
    pub finish: i64,
    pub name: String,
    pub metrics: Vec<MetricNode>,
}

/// One metric of a nested period: its descriptor and its data points.
/// `names_list` carries the attribute keys as the reader listed them.
#[derive(Debug, PartialEq)]
pub struct MetricNode {
    pub metric_desc_uuid: u128,
    pub class: String,
    pub metric_type: String,
    pub source: String,
    pub names: Vec<NameVal>,
    pub names_list: Vec<String>,
    pub data: Vec<Point>,
}

/// One raw time-series point of a nested metric.  `value` is the bit
/// pattern of the 64-bit floating-point measurement.
#[derive(Clone, Copy, Debug, PartialEq)]
pub struct Point {
    pub begin: i64,
    pub finish: i64,
    pub value: u64,
}

/// Whether a point's extent fits a 64-bit millisecond duration.
pub open spec fn point_duration_fits(p: Point) -> bool {
    i64::MIN <= p.finish - p.begin <= i64::MAX
}

/// Whether every point of a metric has a representable duration.
pub open spec fn metric_durations_fit(m: MetricNode) -> bool {
    forall|i: int| 0 <= i < m.data@.len() ==> point_duration_fits(#[trigger] m.data@[i])
}

/// Whether every point under a period has a representable duration.
pub open spec fn period_durations_fit(p: PeriodNode) -> bool {
    forall|i: int| 0 <= i < p.metrics@.len() ==> metric_durations_fit(#[trigger] p.metrics@[i])
}

/// Whether every point under a sample has a representable duration.
pub open spec fn sample_durations_fit(s: SampleNode) -> bool {
    forall|i: int| 0 <= i < s.periods@.len() ==> period_durations_fit(#[trigger] s.periods@[i])
}

/// Whether every point under an iteration has a representable duration.
pub open spec fn iteration_durations_fit(it: IterationNode) -> bool {
    forall|i: int| 0 <= i < it.samples@.len() ==> sample_durations_fit(#[trigger] it.samples@[i])
}

/// Whether every point of the tree has a representable duration.
pub open spec fn run_node_durations_fit(r: RunNode) -> bool {
    forall|i: int|
        0 <= i < r.iterations@.len() ==> iteration_durations_fit(#[trigger] r.iterations@[i])
}

/// The record of one data point of metric `mu` under run `ru`: its duration
/// is computed from its interval.  `cdm` is the version marker every record
/// of the batch carries.
pub open spec fn point_record(cdm: CDMSpecJson, ru: u128, mu: u128, p: Point) -> BodyJson {
    BodyJson::MetricData(
        MetricDataJson {
            cdm: cdm,
            metric_data: MetricDataSpecJson {
                begin: p.begin,
                end: p.finish,
                duration: (p.finish - p.begin) as i64,
                value: p.value,
            },
            metric_desc: MetricDescFKJson { metric_desc_uuid: mu },
            run: RunFKJson { run_uuid: ru },
        },
    )
}

/// The records of one metric: its descriptor, then its data points.
pub open spec fn metric_records(
    cdm: CDMSpecJson,
    ru: u128,
    iu: u128,
    su: u128,
    pu: u128,
    m: MetricNode,
) -> Seq<BodyJson> {
    seq![
        BodyJson::MetricDesc(
            MetricDescJson {
                cdm: cdm,
                metric_desc: MetricDescSpecJson {
                    metric_desc_uuid: m.metric_desc_uuid,
                    class: m.class,
                    names: m.names,
                    names_list: m.names_list,
                    source: m.source,
                    metric_type: m.metric_type,
                },
                iteration: Option::Some(IterationFKJson { iteration_uuid: iu }),
                period: Option::Some(PeriodFKJson { period_uuid: pu }),
                run: RunFKJson { run_uuid: ru },
                sample: Option::Some(SampleFKJson { sample_uuid: su }),
            },
        ),
    ] + m.data@.map_values(|p: Point| point_record(cdm, ru, m.metric_desc_uuid, p))
}

/// The records of a list of metrics, in order.
pub open spec fn metrics_records(
    cdm: CDMSpecJson,
    ru: u128,
    iu: u128,
    su: u128,
    pu: u128,
    ms: Seq<MetricNode>,
) -> Seq<BodyJson>
    decreases ms.len(),
{
    if ms.len() == 0 {
        Seq::empty()
    } else {
        metric_records(cdm, ru, iu, su, pu, ms[0]) + metrics_records(
            cdm,
            ru,
            iu,
            su,
            pu,
            ms.skip(1),
        )
    }
}

/// The records of one period: the period itself, then its metrics.
pub open spec fn period_records(cdm: CDMSpecJson, ru: u128, iu: u128, su: u128, p: PeriodNode)
    -> Seq<BodyJson> {
    seq![
        BodyJson::Period(
            PeriodJson {
                cdm: cdm,
                period: PeriodSpecJson {
                    period_uuid: p.period_uuid,
                    begin: p.begin,
                    end: p.finish,
                    name: p.name,
                },
                iteration: IterationFKJson { iteration_uuid: iu },
                run: RunFKJson { run_uuid: ru },
                sample: SampleFKJson { sample_uuid: su },
            },
        ),
    ] + metrics_records(cdm, ru, iu, su, p.period_uuid, p.metrics@)
}

/// The records of a list of periods, in order.
pub open spec fn periods_records(
    cdm: CDMSpecJson,
    ru: u128,
    iu: u128,
    su: u128,
    ps: Seq<PeriodNode>,
) -> Seq<BodyJson>
    decreases ps.len(),
{
    if ps.len() == 0 {
        Seq::empty()
    } else {
        period_records(cdm, ru, iu, su, ps[0]) + periods_records(cdm, ru, iu, su, ps.skip(1))
    }
}

/// The records of one sample: the sample itself, then its periods.
pub open spec fn sample_records(cdm: CDMSpecJson, ru: u128, iu: u128, s: SampleNode) -> Seq<
    BodyJson,
> {
    seq![
        BodyJson::Sample(
            SampleJson {
                cdm: cdm,
                sample: SampleSpecJson {
                    sample_uuid: s.sample_uuid,
                    path: s.path,
                    status: s.status,
                    num: s.num,
                },
                iteration: IterationFKJson { iteration_uuid: iu },
                run: RunFKJson { run_uuid: ru },
            },
        ),
    ] + periods_records(cdm, ru, iu, s.sample_uuid, s.periods@)
}

/// The records of a list of samples, in order.
pub open spec fn samples_records(cdm: CDMSpecJson, ru: u128, iu: u128, ss: Seq<SampleNode>) -> Seq<
    BodyJson,
>
    decreases ss.len(),
{
    if ss.len() == 0 {
        Seq::empty()
    } else {
        sample_records(cdm, ru, iu, ss[0]) + samples_records(cdm, ru, iu, ss.skip(1))
    }
}

/// The record of one benchmark argument of iteration `iu`.
pub open spec fn param_record(cdm: CDMSpecJson, ru: u128, iu: u128, p: ParamSpecJson) -> BodyJson {
    BodyJson::Param(
        ParamJson {
            cdm: cdm,
            param: p,
            iteration: IterationFKJson { iteration_uuid: iu },
            run: RunFKJson { run_uuid: ru },
        },
    )
}

/// The records of one iteration: the iteration itself, its arguments, then
/// its samples.
pub open spec fn iteration_records(cdm: CDMSpecJson, ru: u128, it: IterationNode) -> Seq<
    BodyJson,
> {
    seq![
        BodyJson::Iteration(
            IterationJson {
                cdm: cdm,
                iteration: IterationSpecJson {
                    iteration_uuid: it.iteration_uuid,
                    num: it.num,
                    primary_metric: it.primary_metric,
                    primary_period: it.primary_period,
                    status: it.status,
                    path: it.path,
                },
                run: RunFKJson { run_uuid: ru },
            },
        ),
    ] + it.params@.map_values(|p: ParamSpecJson| param_record(cdm, ru, it.iteration_uuid, p))
        + samples_records(cdm, ru, it.iteration_uuid, it.samples@)
}

/// The records of a list of iterations, in order.
pub open spec fn iterations_records(cdm: CDMSpecJson, ru: u128, its: Seq<IterationNode>) -> Seq<
    BodyJson,
>
    decreases its.len(),
{
    if its.len() == 0 {
        Seq::empty()
    } else {
        iteration_records(cdm, ru, its[0]) + iterations_records(cdm, ru, its.skip(1))
    }
}

/// The record of one tag of run `ru`.
pub open spec fn tag_record(cdm: CDMSpecJson, ru: u128, t: TagNode) -> BodyJson {
    BodyJson::Tag(
        TagJson {
            cdm: cdm,
            tag: TagSpecJson { name: t.name, val: t.val },
            run: RunFKJson { run_uuid: ru },
        },
    )
}

/// The flattening of one nested run document: the run, its tags, then each
/// iteration's subtree, parent identifiers propagated down at each level.
pub open spec fn run_records(cdm: CDMSpecJson, r: RunNode) -> Seq<BodyJson> {
    seq![
        BodyJson::Run(
            RunJson {
                cdm: cdm,
                run: RunSpecJson {
                    run_uuid: r.run_uuid,
                    begin: r.begin,
                    end: r.finish,
                    benchmark: r.benchmark,
                    email: r.email,
                    name: r.name,
                    description: r.description,
                    source: r.source,
                },
            },
        ),
    ] + r.tags@.map_values(|t: TagNode| tag_record(cdm, r.run_uuid, t)) + iterations_records(
        cdm,
        r.run_uuid,
        r.iterations@,
    )
}


fn clone_cdm(x: &CDMSpecJson) -> (r: CDMSpecJson)
    ensures
        r == x,
{
    CDMSpecJson { ver: x.ver.clone() }
}

fn push_point_records(
    bodies: &mut Vec<BodyJson>,
    cdm: &CDMSpecJson,
    ru: u128,
    mu: u128,
    data: &Vec<Point>,
)
    requires
        forall|i: int| 0 <= i < data@.len() ==> point_duration_fits(#[trigger] data@[i]),
    ensures
        final(bodies)@ == old(bodies)@ + data@.map_values(
            |p: Point| point_record(*cdm, ru, mu, p),
        ),
{
    let mut i: usize = 0;
    proof {
        assert(bodies@ =~= old(bodies)@ + data@.take(0).map_values(
            |p: Point| point_record(*cdm, ru, mu, p),
        ));
    }
    while i < data.len()
        invariant
            0 <= i <= data@.len(),
            forall|k: int| 0 <= k < data@.len() ==> point_duration_fits(#[trigger] data@[k]),
            bodies@ == old(bodies)@ + data@.take(i as int).map_values(
                |p: Point| point_record(*cdm, ru, mu, p),
            ),
        decreases data@.len() - i,
    {
        let p = data[i];
        let duration: i64 = p.finish - p.begin;
        bodies.push(
            BodyJson::MetricData(
                MetricDataJson {
                    cdm: clone_cdm(cdm),
                    metric_data: MetricDataSpecJson {
                        begin: p.begin,
                        end: p.finish,
                        duration,
                        value: p.value,
                    },
                    metric_desc: MetricDescFKJson { metric_desc_uuid: mu },
                    run: RunFKJson { run_uuid: ru },
                },
            ),
        );
        i = i + 1;
        proof {
            let f = |q: Point| point_record(*cdm, ru, mu, q);
            assert(data@.take(i as int).drop_last() =~= data@.take(i - 1));
            assert(data@.take(i as int).map_values(f).drop_last() =~= data@.take(i - 1).map_values(
                f,
            ));
            assert(data@.take(i as int).map_values(f).last() == f(data@[i - 1]));
            assert(bodies@ =~= old(bodies)@ + data@.take(i as int).map_values(f));
        }
    }
    proof {
        assert(data@.take(data@.len() as int) =~= data@);
    }
}

fn push_metric_records(
    bodies: &mut Vec<BodyJson>,
    cdm: &CDMSpecJson,
    ru: u128,
    iu: u128,
    su: u128,
    pu: u128,
    m: MetricNode,
)
    requires
        metric_durations_fit(m),
    ensures
        final(bodies)@ == old(bodies)@ + metric_records(*cdm, ru, iu, su, pu, m),
{
    let MetricNode { metric_desc_uuid, class, metric_type, source, names, names_list, data } = m;
    bodies.push(
        BodyJson::MetricDesc(
            MetricDescJson {
                cdm: clone_cdm(cdm),
                metric_desc: MetricDescSpecJson {
                    metric_desc_uuid,
                    class,
                    names,
                    names_list,
                    source,
                    metric_type,
                },
                iteration: Option::Some(IterationFKJson { iteration_uuid: iu }),
                period: Option::Some(PeriodFKJson { period_uuid: pu }),
                run: RunFKJson { run_uuid: ru },
                sample: Option::Some(SampleFKJson { sample_uuid: su }),
            },
        ),
    );
    push_point_records(bodies, cdm, ru, metric_desc_uuid, &data);
    proof {
        assert(bodies@ =~= old(bodies)@ + metric_records(*cdm, ru, iu, su, pu, m));
    }
}

fn push_metrics_records(
    bodies: &mut Vec<BodyJson>,
    cdm: &CDMSpecJson,
    ru: u128,
    iu: u128,
    su: u128,
    pu: u128,
    ms: Vec<MetricNode>,
)
    requires
        forall|i: int| 0 <= i < ms@.len() ==> metric_durations_fit(#[trigger] ms@[i]),
    ensures
        final(bodies)@ == old(bodies)@ + metrics_records(*cdm, ru, iu, su, pu, ms@),
{
    let ghost full = ms@;
    let mut rest = ms;
    while rest.len() > 0
        invariant
            forall|i: int| 0 <= i < rest@.len() ==> metric_durations_fit(#[trigger] rest@[i]),
            bodies@ + metrics_records(*cdm, ru, iu, su, pu, rest@) == old(bodies)@
                + metrics_records(*cdm, ru, iu, su, pu, full),
        decreases rest@.len(),
    {
        let ghost rest0 = rest@;
        let m = rest.remove(0);
        proof {
            assert(rest0[0] == m);
            assert(rest0.skip(1) =~= rest@);
            assert(metrics_records(*cdm, ru, iu, su, pu, rest0) == metric_records(
                *cdm,
                ru,
                iu,
                su,
                pu,
                m,
            ) + metrics_records(*cdm, ru, iu, su, pu, rest@));
        }
        push_metric_records(bodies, cdm, ru, iu, su, pu, m);
        proof {
            assert(bodies@ + metrics_records(*cdm, ru, iu, su, pu, rest@) =~= old(bodies)@
                + metrics_records(*cdm, ru, iu, su, pu, full));
        }
    }
    proof {
        assert(metrics_records(*cdm, ru, iu, su, pu, rest@) =~= Seq::<BodyJson>::empty());
        assert(bodies@ =~= old(bodies)@ + metrics_records(*cdm, ru, iu, su, pu, full));
    }
}

fn push_period_records(
    bodies: &mut Vec<BodyJson>,
    cdm: &CDMSpecJson,
    ru: u128,
    iu: u128,
    su: u128,
    p: PeriodNode,
)
    requires
        period_durations_fit(p),
    ensures
        final(bodies)@ == old(bodies)@ + period_records(*cdm, ru, iu, su, p),
{
    let PeriodNode { period_uuid, begin, finish, name, metrics } = p;
    bodies.push(
        BodyJson::Period(
            PeriodJson {
                cdm: clone_cdm(cdm),
                period: PeriodSpecJson { period_uuid, begin, end: finish, name },
                iteration: IterationFKJson { iteration_uuid: iu },
                run: RunFKJson { run_uuid: ru },
                sample: SampleFKJson { sample_uuid: su },
            },
        ),
    );
    push_metrics_records(bodies, cdm, ru, iu, su, period_uuid, metrics);
    proof {
        assert(bodies@ =~= old(bodies)@ + period_records(*cdm, ru, iu, su, p));
    }
}

fn push_periods_records(
    bodies: &mut Vec<BodyJson>,
    cdm: &CDMSpecJson,
    ru: u128,
    iu: u128,
    su: u128,
    ps: Vec<PeriodNode>,
)
    requires
        forall|i: int| 0 <= i < ps@.len() ==> period_durations_fit(#[trigger] ps@[i]),
    ensures
        final(bodies)@ == old(bodies)@ + periods_records(*cdm, ru, iu, su, ps@),
{
    let ghost full = ps@;
    let mut rest = ps;
    while rest.len() > 0
        invariant
            forall|i: int| 0 <= i < rest@.len() ==> period_durations_fit(#[trigger] rest@[i]),
            bodies@ + periods_records(*cdm, ru, iu, su, rest@) == old(bodies)@ + periods_records(
                *cdm,
                ru,
                iu,
                su,
                full,
            ),
        decreases rest@.len(),
    {
        let ghost rest0 = rest@;
        let p = rest.remove(0);
        proof {
            assert(rest0[0] == p);
            assert(rest0.skip(1) =~= rest@);
            assert(periods_records(*cdm, ru, iu, su, rest0) == period_records(*cdm, ru, iu, su, p)
                + periods_records(*cdm, ru, iu, su, rest@));
        }
        push_period_records(bodies, cdm, ru, iu, su, p);
        proof {
            assert(bodies@ + periods_records(*cdm, ru, iu, su, rest@) =~= old(bodies)@
                + periods_records(*cdm, ru, iu, su, full));
        }
    }
    proof {
        assert(periods_records(*cdm, ru, iu, su, rest@) =~= Seq::<BodyJson>::empty());
        assert(bodies@ =~= old(bodies)@ + periods_records(*cdm, ru, iu, su, full));
    }
}

fn push_sample_records(
    bodies: &mut Vec<BodyJson>,
    cdm: &CDMSpecJson,
    ru: u128,
    iu: u128,
    s: SampleNode,
)
    requires
        sample_durations_fit(s),
    ensures
        final(bodies)@ == old(bodies)@ + sample_records(*cdm, ru, iu, s),
{
    let SampleNode { sample_uuid, num, status, path, periods } = s;
    bodies.push(
        BodyJson::Sample(
            SampleJson {
                cdm: clone_cdm(cdm),
                sample: SampleSpecJson { sample_uuid, path, status, num },
                iteration: IterationFKJson { iteration_uuid: iu },
                run: RunFKJson { run_uuid: ru },
            },
        ),
    );
    push_periods_records(bodies, cdm, ru, iu, sample_uuid, periods);
    proof {
        assert(bodies@ =~= old(bodies)@ + sample_records(*cdm, ru, iu, s));
    }
}

fn push_samples_records(
    bodies: &mut Vec<BodyJson>,
    cdm: &CDMSpecJson,
    ru: u128,
    iu: u128,
    ss: Vec<SampleNode>,
)
    requires
        forall|i: int| 0 <= i < ss@.len() ==> sample_durations_fit(#[trigger] ss@[i]),
    ensures
        final(bodies)@ == old(bodies)@ + samples_records(*cdm, ru, iu, ss@),
{
    let ghost full = ss@;
    let mut rest = ss;
    while rest.len() > 0
        invariant
            forall|i: int| 0 <= i < rest@.len() ==> sample_durations_fit(#[trigger] rest@[i]),
            bodies@ + samples_records(*cdm, ru, iu, rest@) == old(bodies)@ + samples_records(
                *cdm,
                ru,
                iu,
                full,
            ),
        decreases rest@.len(),
    {
        let ghost rest0 = rest@;
        let smp = rest.remove(0);
        proof {
            assert(rest0[0] == smp);
            assert(rest0.skip(1) =~= rest@);
            assert(samples_records(*cdm, ru, iu, rest0) == sample_records(*cdm, ru, iu, smp)
                + samples_records(*cdm, ru, iu, rest@));
        }
        push_sample_records(bodies, cdm, ru, iu, smp);
        proof {
            assert(bodies@ + samples_records(*cdm, ru, iu, rest@) =~= old(bodies)@
                + samples_records(*cdm, ru, iu, full));
        }
    }
    proof {
        assert(samples_records(*cdm, ru, iu, rest@) =~= Seq::<BodyJson>::empty());
        assert(bodies@ =~= old(bodies)@ + samples_records(*cdm, ru, iu, full));
    }
}

fn push_param_records(
    bodies: &mut Vec<BodyJson>,
    cdm: &CDMSpecJson,
    ru: u128,
    iu: u128,
    params: Vec<ParamSpecJson>,
)
    ensures
        final(bodies)@ == old(bodies)@ + params@.map_values(
            |p: ParamSpecJson| param_record(*cdm, ru, iu, p),
        ),
{
    let ghost full = params@;
    let mut rest = params;
    let ghost f = |p: ParamSpecJson| param_record(*cdm, ru, iu, p);
    proof {
        assert(bodies@ =~= old(bodies)@ + full.take(0).map_values(f));
    }
    let ghost mut i: int = 0;
    while rest.len() > 0
        invariant
            0 <= i <= full.len(),
            rest@ =~= full.skip(i as int),
            f == (|p: ParamSpecJson| param_record(*cdm, ru, iu, p)),
            bodies@ == old(bodies)@ + full.take(i as int).map_values(f),
        decreases rest@.len(),
    {
        let ghost rest0 = rest@;
        let p = rest.remove(0);
        proof {
            assert(rest0[0] == p);
            assert(full[i as int] == p);
            assert(rest0.skip(1) =~= rest@);
            assert(rest@ =~= full.skip(i + 1));
        }
        proof {
            i = i + 1;
        }
        bodies.push(
            BodyJson::Param(
                ParamJson {
                    cdm: clone_cdm(cdm),
                    param: p,
                    iteration: IterationFKJson { iteration_uuid: iu },
                    run: RunFKJson { run_uuid: ru },
                },
            ),
        );
        proof {
            assert(full.take(i as int).drop_last() =~= full.take(i - 1));
            assert(full.take(i as int).map_values(f).drop_last() =~= full.take(i - 1).map_values(
                f,
            ));
            assert(full.take(i as int).map_values(f).last() == f(full[i - 1]));
            assert(bodies@ =~= old(bodies)@ + full.take(i as int).map_values(f));
        }
    }
    proof {
        assert(i == full.len());
        assert(full.take(i as int) =~= full);
    }
}

fn push_iteration_records(bodies: &mut Vec<BodyJson>, cdm: &CDMSpecJson, ru: u128,
    it: IterationNode)
    requires
        iteration_durations_fit(it),
    ensures
        final(bodies)@ == old(bodies)@ + iteration_records(*cdm, ru, it),
{
    let IterationNode {
        iteration_uuid,
        num,
        status,
        path,
        primary_metric,
        primary_period,
        params,
        samples,
    } = it;
    bodies.push(
        BodyJson::Iteration(
            IterationJson {
                cdm: clone_cdm(cdm),
                iteration: IterationSpecJson {
                    iteration_uuid,
                    num,
                    primary_metric,
                    primary_period,
                    status,
                    path,
                },
                run: RunFKJson { run_uuid: ru },
            },
        ),
    );
    push_param_records(bodies, cdm, ru, iteration_uuid, params);
    push_samples_records(bodies, cdm, ru, iteration_uuid, samples);
    proof {
        assert(bodies@ =~= old(bodies)@ + iteration_records(*cdm, ru, it));
    }
}

fn push_tag_records(bodies: &mut Vec<BodyJson>, cdm: &CDMSpecJson, ru: u128, tags: Vec<TagNode>)
    ensures
        final(bodies)@ == old(bodies)@ + tags@.map_values(|t: TagNode| tag_record(*cdm, ru, t)),
{
    let ghost full = tags@;
    let mut rest = tags;
    let ghost f = |t: TagNode| tag_record(*cdm, ru, t);
    proof {
        assert(bodies@ =~= old(bodies)@ + full.take(0).map_values(f));
    }
    let ghost mut i: int = 0;
    while rest.len() > 0
        invariant
            0 <= i <= full.len(),
            rest@ =~= full.skip(i as int),
            f == (|t: TagNode| tag_record(*cdm, ru, t)),
            bodies@ == old(bodies)@ + full.take(i as int).map_values(f),
        decreases rest@.len(),
    {
        let ghost rest0 = rest@;
        let t = rest.remove(0);
        proof {
            assert(rest0[0] == t);
            assert(full[i as int] == t);
            assert(rest0.skip(1) =~= rest@);
            assert(rest@ =~= full.skip(i + 1));
        }
        proof {
            i = i + 1;
        }
        bodies.push(
            BodyJson::Tag(
                TagJson {
                    cdm: clone_cdm(cdm),
                    tag: TagSpecJson { name: t.name, val: t.val },
                    run: RunFKJson { run_uuid: ru },
                },
            ),
        );
        proof {
            assert(full.take(i as int).drop_last() =~= full.take(i - 1));
            assert(full.take(i as int).map_values(f).drop_last() =~= full.take(i - 1).map_values(
                f,
            ));
            assert(full.take(i as int).map_values(f).last() == f(full[i - 1]));
            assert(bodies@ =~= old(bodies)@ + full.take(i as int).map_values(f));
        }
    }
    proof {
        assert(i == full.len());
        assert(full.take(i as int) =~= full);
    }
}

fn push_iterations_records(
    bodies: &mut Vec<BodyJson>,
    cdm: &CDMSpecJson,
    ru: u128,
    its: Vec<IterationNode>,
)
    requires
        forall|i: int| 0 <= i < its@.len() ==> iteration_durations_fit(#[trigger] its@[i]),
    ensures
        final(bodies)@ == old(bodies)@ + iterations_records(*cdm, ru, its@),
{
    let ghost full = its@;
    let mut rest = its;
    while rest.len() > 0
        invariant
            forall|i: int| 0 <= i < rest@.len() ==> iteration_durations_fit(#[trigger] rest@[i]),
            bodies@ + iterations_records(*cdm, ru, rest@) == old(bodies)@ + iterations_records(
                *cdm,
                ru,
                full,
            ),
        decreases rest@.len(),
    {
        let ghost rest0 = rest@;
        let it = rest.remove(0);
        proof {
            assert(rest0[0] == it);
            assert(rest0.skip(1) =~= rest@);
            assert(iterations_records(*cdm, ru, rest0) == iteration_records(*cdm, ru, it)
                + iterations_records(*cdm, ru, rest@));
        }
        push_iteration_records(bodies, cdm, ru, it);
        proof {
            assert(bodies@ + iterations_records(*cdm, ru, rest@) =~= old(bodies)@
                + iterations_records(*cdm, ru, full));
        }
    }
    proof {
        assert(iterations_records(*cdm, ru, rest@) =~= Seq::<BodyJson>::empty());
        assert(bodies@ =~= old(bodies)@ + iterations_records(*cdm, ru, full));
    }
}

/// Flattens one nested run document into its records: the run, its tags,
/// then each iteration's arguments and samples, each sample's periods, each
/// period's metric descriptors and data points, with parent identifiers
/// propagated down and every point's duration computed from its interval.
pub fn run_to_body_jsons(cdm: &CDMSpecJson, run_node: RunNode) -> (r: Vec<BodyJson>)
    requires
        run_node_durations_fit(run_node),
    ensures
        r@ == run_records(*cdm, run_node),
{
    let mut bodies: Vec<BodyJson> = Vec::new();
    let RunNode {
        run_uuid,
        begin,
        finish,
        benchmark,
        email,
        name,
        description,
        source,
        tags,
        iterations,
    } = run_node;
    bodies.push(
        BodyJson::Run(
            RunJson {
                cdm: clone_cdm(cdm),
                run: RunSpecJson {
                    run_uuid,
                    begin,
                    end: finish,
                    benchmark,
                    email,
                    name,
                    description,
                    source,
                },
            },
        ),
    );
    push_tag_records(&mut bodies, cdm, run_uuid, tags);
    push_iterations_records(&mut bodies, cdm, run_uuid, iterations);
    proof {
        assert(bodies@ =~= run_records(*cdm, run_node));
    }
    bodies
}


/// The `Run` records of a stream, in order.
pub open spec fn runs_of(s: Seq<BodyJson>) -> Seq<RunJson>
    decreases s.len(),
{
    if s.len() == 0 {
        Seq::empty()
    } else {
        runs_of(s.drop_last()) + (match s.last() {
            BodyJson::Run(x) => seq![x],
            _ => Seq::empty(),
        })
    }
}


/// The `Tag` records of a stream, in order.
pub open spec fn tags_of(s: Seq<BodyJson>) -> Seq<TagJson>
    decreases s.len(),
{
    if s.len() == 0 {
        Seq::empty()
    } else {
        tags_of(s.drop_last()) + (match s.last() {
            BodyJson::Tag(x) => seq![x],
            _ => Seq::empty(),
        })
    }
}


/// The `Iteration` records of a stream, in order.
pub open spec fn iterations_of(s: Seq<BodyJson>) -> Seq<IterationJson>
    decreases s.len(),
{
    if s.len() == 0 {
        Seq::empty()
    } else {
        iterations_of(s.drop_last()) + (match s.last() {
            BodyJson::Iteration(x) => seq![x],
            _ => Seq::empty(),
        })
    }
}


/// The `Param` records of a stream, in order.
pub open spec fn params_of(s: Seq<BodyJson>) -> Seq<ParamJson>
    decreases s.len(),
{
    if s.len() == 0 {
        Seq::empty()
    } else {
        params_of(s.drop_last()) + (match s.last() {
            BodyJson::Param(x) => seq![x],
            _ => Seq::empty(),
        })
    }
}


/// The `Sample` records of a stream, in order.
pub open spec fn samples_of(s: Seq<BodyJson>) -> Seq<SampleJson>
    decreases s.len(),
{
    if s.len() == 0 {
        Seq::empty()
    } else {
        samples_of(s.drop_last()) + (match s.last() {
            BodyJson::Sample(x) => seq![x],
            _ => Seq::empty(),
        })
    }
}


/// The `Period` records of a stream, in order.
pub open spec fn periods_of(s: Seq<BodyJson>) -> Seq<PeriodJson>
    decreases s.len(),
{
    if s.len() == 0 {
        Seq::empty()
    } else {
        periods_of(s.drop_last()) + (match s.last() {
            BodyJson::Period(x) => seq![x],
            _ => Seq::empty(),
        })
    }
}


/// The `MetricDesc` records of a stream, in order.
pub open spec fn metric_descs_of(s: Seq<BodyJson>) -> Seq<MetricDescJson>
    decreases s.len(),
{
    if s.len() == 0 {
        Seq::empty()
    } else {
        metric_descs_of(s.drop_last()) + (match s.last() {
            BodyJson::MetricDesc(x) => seq![x],
            _ => Seq::empty(),
        })
    }
}


/// The `Name` records of a stream, in order.
pub open spec fn names_of(s: Seq<BodyJson>) -> Seq<Name>
    decreases s.len(),
{
    if s.len() == 0 {
        Seq::empty()
    } else {
        names_of(s.drop_last()) + (match s.last() {
            BodyJson::Name(x) => seq![x],
            _ => Seq::empty(),
        })
    }
}


/// The `MetricData` records of a stream, in order.
pub open spec fn metric_datas_of(s: Seq<BodyJson>) -> Seq<MetricDataJson>
    decreases s.len(),
{
    if s.len() == 0 {
        Seq::empty()
    } else {
        metric_datas_of(s.drop_last()) + (match s.last() {
            BodyJson::MetricData(x) => seq![x],
            _ => Seq::empty(),
        })
    }
}


proof fn lemma_add_empty<T>(s: Seq<T>)
    ensures
        s + Seq::<T>::empty() == s,
{
    assert(s + Seq::<T>::empty() =~= s);
}

/// One logical ingestion's records, grouped by kind in insert order.
#[derive(Debug, PartialEq)]
pub struct RecordSet {
    pub runs: Vec<RunJson>,
    pub tags: Vec<TagJson>,
    pub iterations: Vec<IterationJson>,
    pub params: Vec<ParamJson>,
    pub samples: Vec<SampleJson>,
    pub periods: Vec<PeriodJson>,
    pub metric_descs: Vec<MetricDescJson>,
    pub names: Vec<Name>,
    pub metric_datas: Vec<MetricDataJson>,
}

/// Whether the buckets of `rs` are exactly the per-kind projections of `s`.
pub open spec fn bucketed(s: Seq<BodyJson>, rs: RecordSet) -> bool {
    &&& rs.runs@ == runs_of(s)
    &&& rs.tags@ == tags_of(s)
    &&& rs.iterations@ == iterations_of(s)
    &&& rs.params@ == params_of(s)
    &&& rs.samples@ == samples_of(s)
    &&& rs.periods@ == periods_of(s)
    &&& rs.metric_descs@ == metric_descs_of(s)
    &&& rs.names@ == names_of(s)
    &&& rs.metric_datas@ == metric_datas_of(s)
}

/// Groups a record stream by kind, keeping each kind's order.
pub fn bucket_records(records: Vec<BodyJson>) -> (rs: RecordSet)
    ensures
        bucketed(records@, rs),
{
    let ghost full = records@;
    let mut rest = records;
    let mut rs = RecordSet {
        runs: Vec::new(),
        tags: Vec::new(),
        iterations: Vec::new(),
        params: Vec::new(),
        samples: Vec::new(),
        periods: Vec::new(),
        metric_descs: Vec::new(),
        names: Vec::new(),
        metric_datas: Vec::new(),
    };
    let ghost mut i: int = 0;
    proof {
        assert(full.take(0) =~= Seq::<BodyJson>::empty());
    }
    while rest.len() > 0
        invariant
            0 <= i <= full.len(),
            rest@ =~= full.skip(i as int),
            bucketed(full.take(i as int), rs),
        decreases rest@.len(),
    {
        let ghost rest0 = rest@;
        let rec = rest.remove(0);
        proof {
            assert(rest0[0] == rec);
            assert(full[i as int] == rec);
            assert(rest0.skip(1) =~= rest@);
            assert(rest@ =~= full.skip(i + 1));
            assert(full.take(i + 1).drop_last() =~= full.take(i as int));
            assert(full.take(i + 1).last() == rec);
            lemma_add_empty(runs_of(full.take(i as int)));
            lemma_add_empty(tags_of(full.take(i as int)));
            lemma_add_empty(iterations_of(full.take(i as int)));
            lemma_add_empty(params_of(full.take(i as int)));
            lemma_add_empty(samples_of(full.take(i as int)));
            lemma_add_empty(periods_of(full.take(i as int)));
            lemma_add_empty(metric_descs_of(full.take(i as int)));
            lemma_add_empty(names_of(full.take(i as int)));
            lemma_add_empty(metric_datas_of(full.take(i as int)));
        }
        match rec {
            BodyJson::Run(x) => {
                rs.runs.push(x);
                proof {
                    assert(rs.runs@ =~= runs_of(full.take(i + 1)));
                }
            },
            BodyJson::Tag(x) => {
                rs.tags.push(x);
                proof {
                    assert(rs.tags@ =~= tags_of(full.take(i + 1)));
                }
            },
            BodyJson::Iteration(x) => {
                rs.iterations.push(x);
                proof {
                    assert(rs.iterations@ =~= iterations_of(full.take(i + 1)));
                }
            },
            BodyJson::Param(x) => {
                rs.params.push(x);
                proof {
                    assert(rs.params@ =~= params_of(full.take(i + 1)));
                }
            },
            BodyJson::Sample(x) => {
                rs.samples.push(x);
                proof {
                    assert(rs.samples@ =~= samples_of(full.take(i + 1)));
                }
            },
            BodyJson::Period(x) => {
                rs.periods.push(x);
                proof {
                    assert(rs.periods@ =~= periods_of(full.take(i + 1)));
                }
            },
            BodyJson::MetricDesc(x) => {
                rs.metric_descs.push(x);
                proof {
                    assert(rs.metric_descs@ =~= metric_descs_of(full.take(i + 1)));
                }
            },
            BodyJson::Name(x) => {
                rs.names.push(x);
                proof {
                    assert(rs.names@ =~= names_of(full.take(i + 1)));
                }
            },
            BodyJson::MetricData(x) => {
                rs.metric_datas.push(x);
                proof {
                    assert(rs.metric_datas@ =~= metric_datas_of(full.take(i + 1)));
                }
            },
        }
        proof {
            i = i + 1;
        }
    }
    proof {
        assert(full.take(i as int) =~= full);
    }
    rs
}

/// The `Name` rows extracted from one attribute map: one row per
/// string-valued entry, in entry order; other entries are dropped.
pub open spec fn extracted_names(u: u128, entries: Seq<NameVal>) -> Seq<Name>
    decreases entries.len(),
{
    if entries.len() == 0 {
        Seq::empty()
    } else {
        extracted_names(u, entries.drop_last()) + (match entries.last().val {
            Option::Some(v) => seq![Name { metric_desc_uuid: u, name: entries.last().name, val: v }],
            Option::None => Seq::empty(),
        })
    }
}

/// The `Name` rows of a list of metric descriptors, in order.
pub open spec fn all_extracted_names(mds: Seq<MetricDescJson>) -> Seq<Name>
    decreases mds.len(),
{
    if mds.len() == 0 {
        Seq::empty()
    } else {
        all_extracted_names(mds.drop_last()) + extracted_names(
            mds.last().metric_desc.metric_desc_uuid,
            mds.last().metric_desc.names@,
        )
    }
}

/// Decomposes one metric descriptor's attribute map into `Name` rows.
pub fn extract_names(metric_desc: &MetricDescJson) -> (r: Vec<Name>)
    ensures
        r@ == extracted_names(
            metric_desc.metric_desc.metric_desc_uuid,
            metric_desc.metric_desc.names@,
        ),
{
    let u = metric_desc.metric_desc.metric_desc_uuid;
    let entries = &metric_desc.metric_desc.names;
    let mut r: Vec<Name> = Vec::new();
    let mut i: usize = 0;
    proof {
        assert(entries@.take(0) =~= Seq::<NameVal>::empty());
    }
    while i < entries.len()
        invariant
            0 <= i <= entries@.len(),
            u == metric_desc.metric_desc.metric_desc_uuid,
            entries == &metric_desc.metric_desc.names,
            r@ == extracted_names(u, entries@.take(i as int)),
        decreases entries@.len() - i,
    {
        match &entries[i].val {
            Option::Some(v) => {
                r.push(Name { metric_desc_uuid: u, name: entries[i].name.clone(), val: v.clone() });
            },
            Option::None => {},
        }
        i = i + 1;
        proof {
            assert(entries@.take(i as int).drop_last() =~= entries@.take(i - 1));
            assert(entries@.take(i as int).last() == entries@[i - 1]);
            lemma_add_empty(extracted_names(u, entries@.take(i - 1)));
            assert(r@ =~= extracted_names(u, entries@.take(i as int)));
        }
    }
    proof {
        assert(entries@.take(entries@.len() as int) =~= entries@);
    }
    r
}

/// Decomposes every metric descriptor's attribute map into `Name` rows.
pub fn extract_all_names(mds: &Vec<MetricDescJson>) -> (r: Vec<Name>)
    ensures
        r@ == all_extracted_names(mds@),
{
    let mut r: Vec<Name> = Vec::new();
    let mut i: usize = 0;
    proof {
        assert(mds@.take(0) =~= Seq::<MetricDescJson>::empty());
    }
    while i < mds.len()
        invariant
            0 <= i <= mds@.len(),
            r@ == all_extracted_names(mds@.take(i as int)),
        decreases mds@.len() - i,
    {
        let mut more = extract_names(&mds[i]);
        r.append(&mut more);
        i = i + 1;
        proof {
            assert(mds@.take(i as int).drop_last() =~= mds@.take(i - 1));
            assert(mds@.take(i as int).last() == mds@[i - 1]);
            assert(r@ =~= all_extracted_names(mds@.take(i as int)));
        }
    }
    proof {
        assert(mds@.take(mds@.len() as int) =~= mds@);
    }
    r
}


/// Whether two optional texts agree by content.
pub open spec fn opt_str_like(a: Option<String>, b: Option<String>) -> bool {
    match (a, b) {
        (Option::None, Option::None) => true,
        (Option::Some(x), Option::Some(y)) => x@ == y@,
        _ => false,
    }
}

/// Whether two iteration records agree by content.
pub open spec fn iteration_like(a: IterationJson, b: IterationJson) -> bool {
    &&& a.cdm.ver@ == b.cdm.ver@
    &&& a.iteration.iteration_uuid == b.iteration.iteration_uuid
    &&& a.iteration.num == b.iteration.num
    &&& a.iteration.primary_metric@ == b.iteration.primary_metric@
    &&& a.iteration.primary_period@ == b.iteration.primary_period@
    &&& a.iteration.status@ == b.iteration.status@
    &&& opt_str_like(a.iteration.path, b.iteration.path)
    &&& a.run == b.run
}

/// Whether two sample records agree by content.
pub open spec fn sample_like(a: SampleJson, b: SampleJson) -> bool {
    &&& a.cdm.ver@ == b.cdm.ver@
    &&& a.sample.sample_uuid == b.sample.sample_uuid
    &&& opt_str_like(a.sample.path, b.sample.path)
    &&& a.sample.status@ == b.sample.status@
    &&& a.sample.num == b.sample.num
    &&& a.iteration == b.iteration
    &&& a.run == b.run
}

/// Whether two period records agree by content.
pub open spec fn period_like(a: PeriodJson, b: PeriodJson) -> bool {
    &&& a.cdm.ver@ == b.cdm.ver@
    &&& a.period.period_uuid == b.period.period_uuid
    &&& a.period.begin == b.period.begin
    &&& a.period.end == b.period.end
    &&& a.period.name@ == b.period.name@
    &&& a.iteration == b.iteration
    &&& a.run == b.run
    &&& a.sample == b.sample
}

/// Whether two metric-descriptor records agree by content.
pub open spec fn metric_desc_like(a: MetricDescJson, b: MetricDescJson) -> bool {
    &&& a.cdm.ver@ == b.cdm.ver@
    &&& a.metric_desc.metric_desc_uuid == b.metric_desc.metric_desc_uuid
    &&& a.metric_desc.class@ == b.metric_desc.class@
    &&& a.metric_desc.names@ == b.metric_desc.names@
    &&& a.metric_desc.names_list@ == b.metric_desc.names_list@
    &&& a.metric_desc.source@ == b.metric_desc.source@
    &&& a.metric_desc.metric_type@ == b.metric_desc.metric_type@
    &&& a.iteration == b.iteration
    &&& a.period == b.period
    &&& a.run == b.run
    &&& a.sample == b.sample
}

/// Whether two data-point records agree by content.
pub open spec fn metric_data_like(a: MetricDataJson, b: MetricDataJson) -> bool {
    &&& a.cdm.ver@ == b.cdm.ver@
    &&& a.metric_data == b.metric_data
    &&& a.metric_desc == b.metric_desc
    &&& a.run == b.run
}

/// Whether `rs` is the effective record set of the stream `s`: the per-kind
/// projections of `s`, the `Name` rows derived from its metric descriptors,
/// and one synthesized placeholder chain per run appended to the dependent
/// kinds.
pub open spec fn effective_set_of(
    s: Seq<BodyJson>,
    globals: Seq<(u128, GlobalResource)>,
    rs: RecordSet,
) -> bool {
    let n_it = iterations_of(s).len() as int;
    let n_sam = samples_of(s).len() as int;
    let n_per = periods_of(s).len() as int;
    let n_md = metric_descs_of(s).len() as int;
    let n_dat = metric_datas_of(s).len() as int;
    &&& globals.len() == runs_of(s).len()
    &&& forall|i: int|
        0 <= i < globals.len() ==> (#[trigger] globals[i]).0 == runs_of(s)[i].run.run_uuid
            && global_resource_wf(globals[i].0, globals[i].1)
    &&& rs.runs@ == runs_of(s)
    &&& rs.tags@ == tags_of(s)
    &&& rs.params@ == params_of(s)
    &&& rs.names@ == names_of(s) + all_extracted_names(metric_descs_of(s))
    &&& rs.iterations@.len() == n_it + globals.len()
    &&& rs.iterations@.take(n_it) == iterations_of(s)
    &&& forall|i: int|
        0 <= i < globals.len() ==> iteration_like(
            #[trigger] rs.iterations@[n_it + i],
            globals[i].1.iteration,
        )
    &&& rs.samples@.len() == n_sam + globals.len()
    &&& rs.samples@.take(n_sam) == samples_of(s)
    &&& forall|i: int|
        0 <= i < globals.len() ==> sample_like(
            #[trigger] rs.samples@[n_sam + i],
            globals[i].1.sample,
        )
    &&& rs.periods@.len() == n_per + globals.len()
    &&& rs.periods@.take(n_per) == periods_of(s)
    &&& forall|i: int|
        0 <= i < globals.len() ==> period_like(
            #[trigger] rs.periods@[n_per + i],
            globals[i].1.period,
        )
    &&& rs.metric_descs@.len() == n_md + globals.len()
    &&& rs.metric_descs@.take(n_md) == metric_descs_of(s)
    &&& forall|i: int|
        0 <= i < globals.len() ==> metric_desc_like(
            #[trigger] rs.metric_descs@[n_md + i],
            globals[i].1.metric_desc,
        )
    &&& rs.metric_datas@.len() == n_dat + globals.len()
    &&& rs.metric_datas@.take(n_dat) == metric_datas_of(s)
    &&& forall|i: int|
        0 <= i < globals.len() ==> metric_data_like(
            #[trigger] rs.metric_datas@[n_dat + i],
            globals[i].1.metric_data,
        )
}

/// One where a list contributes one statement when it is non-empty.
pub open spec fn seg(n: int) -> int {
    if n == 0 {
        0
    } else {
        1
    }
}

/// Whether `plan` is exactly the insert plan of `rs`: one bulk INSERT per
/// non-empty kind, in foreign-key order (run, tag, iteration, param, sample,
/// period, metric_desc, name, metric_data), the three high-volume kinds
/// split into chunks.
pub open spec fn plan_matches(
    rs: RecordSet,
    globals: Seq<(u128, GlobalResource)>,
    plan: Seq<Statement>,
) -> bool {
    let b1 = seg(rs.runs@.len() as int);
    let b2 = b1 + seg(rs.tags@.len() as int);
    let b3 = b2 + seg(rs.iterations@.len() as int);
    let b4 = b3 + seg(rs.params@.len() as int);
    let b5 = b4 + seg(rs.samples@.len() as int);
    let b6 = b5 + seg(rs.periods@.len() as int);
    let n_md = num_chunks(rs.metric_descs@.len() as nat) as int;
    let b7 = b6 + n_md;
    let n_nm = num_chunks(rs.names@.len() as nat) as int;
    let b8 = b7 + n_nm;
    let n_dat = num_chunks(rs.metric_datas@.len() as nat) as int;
    &&& plan.len() == b8 + n_dat
    &&& rs.runs@.len() > 0 ==> run_stmt_ok(rs.runs@, plan[0])
    &&& rs.tags@.len() > 0 ==> tag_stmt_ok(rs.tags@, plan[b1])
    &&& rs.iterations@.len() > 0 ==> iteration_stmt_ok(rs.iterations@, plan[b2])
    &&& rs.params@.len() > 0 ==> param_stmt_ok(rs.params@, plan[b3])
    &&& rs.samples@.len() > 0 ==> sample_stmt_ok(rs.samples@, plan[b4])
    &&& rs.periods@.len() > 0 ==> period_stmt_ok(rs.periods@, plan[b5])
    &&& forall|i: int|
        0 <= i < n_md ==> metric_desc_stmt_ok(rs.metric_descs@, globals, i, #[trigger] plan[b6 + i])
    &&& forall|i: int|
        0 <= i < n_nm ==> name_stmt_ok(rs.names@, i, #[trigger] plan[b7 + i])
    &&& forall|i: int|
        0 <= i < n_dat ==> metric_data_stmt_ok(rs.metric_datas@, i, #[trigger] plan[b8 + i])
}

/// Appends each run's synthesized placeholder chain to the dependent kinds.
fn append_globals(rs: &mut RecordSet, globals: &Vec<(u128, GlobalResource)>)
    requires
        forall|i: int|
            0 <= i < globals@.len() ==> global_resource_wf(
                (#[trigger] globals@[i]).0,
                globals@[i].1,
            ),
    ensures
        final(rs).runs == old(rs).runs,
        final(rs).tags == old(rs).tags,
        final(rs).params == old(rs).params,
        final(rs).names == old(rs).names,
        final(rs).iterations@.len() == old(rs).iterations@.len() + globals@.len(),
        final(rs).iterations@.take(old(rs).iterations@.len() as int) == old(rs).iterations@,
        forall|i: int|
            0 <= i < globals@.len() ==> iteration_like(
                #[trigger] final(rs).iterations@[old(rs).iterations@.len() + i],
                globals@[i].1.iteration,
            ),
        final(rs).samples@.len() == old(rs).samples@.len() + globals@.len(),
        final(rs).samples@.take(old(rs).samples@.len() as int) == old(rs).samples@,
        forall|i: int|
            0 <= i < globals@.len() ==> sample_like(
                #[trigger] final(rs).samples@[old(rs).samples@.len() + i],
                globals@[i].1.sample,
            ),
        final(rs).periods@.len() == old(rs).periods@.len() + globals@.len(),
        final(rs).periods@.take(old(rs).periods@.len() as int) == old(rs).periods@,
        forall|i: int|
            0 <= i < globals@.len() ==> period_like(
                #[trigger] final(rs).periods@[old(rs).periods@.len() + i],
                globals@[i].1.period,
            ),
        final(rs).metric_descs@.len() == old(rs).metric_descs@.len() + globals@.len(),
        final(rs).metric_descs@.take(old(rs).metric_descs@.len() as int) == old(rs).metric_descs@,
        forall|i: int|
            0 <= i < globals@.len() ==> metric_desc_like(
                #[trigger] final(rs).metric_descs@[old(rs).metric_descs@.len() + i],
                globals@[i].1.metric_desc,
            ),
        final(rs).metric_datas@.len() == old(rs).metric_datas@.len() + globals@.len(),
        final(rs).metric_datas@.take(old(rs).metric_datas@.len() as int) == old(
            rs,
        ).metric_datas@,
        forall|i: int|
            0 <= i < globals@.len() ==> metric_data_like(
                #[trigger] final(rs).metric_datas@[old(rs).metric_datas@.len() + i],
                globals@[i].1.metric_data,
            ),
{
    let ghost n_it = rs.iterations@.len() as int;
    let ghost n_sam = rs.samples@.len() as int;
    let ghost n_per = rs.periods@.len() as int;
    let ghost n_md = rs.metric_descs@.len() as int;
    let ghost n_dat = rs.metric_datas@.len() as int;
    let mut gi: usize = 0;
    while gi < globals.len()
        invariant
            0 <= gi <= globals@.len(),
            forall|i: int|
                0 <= i < globals@.len() ==> global_resource_wf(
                    (#[trigger] globals@[i]).0,
                    globals@[i].1,
                ),
            rs.runs == old(rs).runs,
            rs.tags == old(rs).tags,
            rs.params == old(rs).params,
            rs.names == old(rs).names,
            n_it == old(rs).iterations@.len(),
            n_sam == old(rs).samples@.len(),
            n_per == old(rs).periods@.len(),
            n_md == old(rs).metric_descs@.len(),
            n_dat == old(rs).metric_datas@.len(),
            rs.iterations@.len() == n_it + gi,
            rs.iterations@.take(n_it) == old(rs).iterations@,
            forall|i: int|
                0 <= i < gi ==> iteration_like(
                    #[trigger] rs.iterations@[n_it + i],
                    globals@[i].1.iteration,
                ),
            rs.samples@.len() == n_sam + gi,
            rs.samples@.take(n_sam) == old(rs).samples@,
            forall|i: int|
                0 <= i < gi ==> sample_like(
                    #[trigger] rs.samples@[n_sam + i],
                    globals@[i].1.sample,
                ),
            rs.periods@.len() == n_per + gi,
            rs.periods@.take(n_per) == old(rs).periods@,
            forall|i: int|
                0 <= i < gi ==> period_like(
                    #[trigger] rs.periods@[n_per + i],
                    globals@[i].1.period,
                ),
            rs.metric_descs@.len() == n_md + gi,
            rs.metric_descs@.take(n_md) == old(rs).metric_descs@,
            forall|i: int|
                0 <= i < gi ==> metric_desc_like(
                    #[trigger] rs.metric_descs@[n_md + i],
                    globals@[i].1.metric_desc,
                ),
            rs.metric_datas@.len() == n_dat + gi,
            rs.metric_datas@.take(n_dat) == old(rs).metric_datas@,
            forall|i: int|
                0 <= i < gi ==> metric_data_like(
                    #[trigger] rs.metric_datas@[n_dat + i],
                    globals@[i].1.metric_data,
                ),
        decreases globals@.len() - gi,
    {
        let run_uuid = globals[gi].0;
        let iu = globals[gi].1.iteration.iteration.iteration_uuid;
        let su = globals[gi].1.sample.sample.sample_uuid;
        let pu = globals[gi].1.period.period.period_uuid;
        let mu = globals[gi].1.metric_desc.metric_desc.metric_desc_uuid;
        rs.iterations.push(IterationJson::global(run_uuid, iu));
        rs.samples.push(SampleJson::global(iu, su));
        rs.periods.push(PeriodJson::global(su, pu));
        rs.metric_descs.push(MetricDescJson::global(pu, mu));
        rs.metric_datas.push(MetricDataJson::global(mu));
        gi = gi + 1;
        proof {
            assert(rs.iterations@.take(n_it) =~= old(rs).iterations@);
            assert(rs.samples@.take(n_sam) =~= old(rs).samples@);
            assert(rs.periods@.take(n_per) =~= old(rs).periods@);
            assert(rs.metric_descs@.take(n_md) =~= old(rs).metric_descs@);
            assert(rs.metric_datas@.take(n_dat) =~= old(rs).metric_datas@);
        }
    }
}

/// Builds the insert plan of an effective record set: one bulk INSERT per
/// non-empty kind, in foreign-key order, the high-volume kinds chunked.
pub fn build_insert_plan(rs: &RecordSet, globals: &Vec<(u128, GlobalResource)>) -> (plan: Vec<
    Statement,
>)
    requires
        rs.runs@.len() * 8 + 1 <= u64::MAX,
        rs.tags@.len() * 3 + 1 <= u64::MAX,
        rs.iterations@.len() * 7 + 1 <= u64::MAX,
        rs.params@.len() * 3 + 1 <= u64::MAX,
        rs.samples@.len() * 5 + 1 <= u64::MAX,
        rs.periods@.len() * 5 + 1 <= u64::MAX,
    ensures
        plan_matches(*rs, globals@, plan@),
{
    let mut plan: Vec<Statement> = Vec::new();
    match insert_runs(&rs.runs) {
        Option::Some(st) => plan.push(st),
        Option::None => {},
    }
    match insert_tags(&rs.tags) {
        Option::Some(st) => plan.push(st),
        Option::None => {},
    }
    match insert_iterations(&rs.iterations) {
        Option::Some(st) => plan.push(st),
        Option::None => {},
    }
    match insert_params(&rs.params) {
        Option::Some(st) => plan.push(st),
        Option::None => {},
    }
    match insert_samples(&rs.samples) {
        Option::Some(st) => plan.push(st),
        Option::None => {},
    }
    match insert_periods(&rs.periods) {
        Option::Some(st) => plan.push(st),
        Option::None => {},
    }
    let mut md_stmts = insert_metric_descs(&globals, &rs.metric_descs);
    plan.append(&mut md_stmts);
    let mut name_stmts = insert_names(&rs.names);
    plan.append(&mut name_stmts);
    let mut data_stmts = insert_metric_datas(&rs.metric_datas);
    plan.append(&mut data_stmts);
    proof {
        assert(plan_matches(*rs, globals@, plan@));
    }
    plan
}

/// Normalizes one ingestion's records into the effective record set (with
/// derived `Name` rows and one placeholder chain per run) and its insert
/// plan: the statements to execute, in order, within one transaction.
pub fn insert_records(records: Vec<BodyJson>) -> (r: (
    Vec<Statement>,
    RecordSet,
    Vec<(u128, GlobalResource)>,
))
    requires
        records@.len() <= 0x1000_0000_0000,
    ensures
        effective_set_of(records@, r.2@, r.1),
        plan_matches(r.1, r.2@, r.0@),
{
    let ghost s = records@;
    proof {
        lemma_bucket_lens(s);
    }
    let mut rs = bucket_records(records);
    let mut extracted = extract_all_names(&rs.metric_descs);
    rs.names.append(&mut extracted);
    let globals = synthesize_globals(&rs.runs);
    append_globals(&mut rs, &globals);
    let plan = build_insert_plan(&rs, &globals);
    (plan, rs, globals)
}

/// Each bucket of a stream is no longer than the stream.
pub proof fn lemma_bucket_lens(s: Seq<BodyJson>)
    ensures
        runs_of(s).len() <= s.len(),
        tags_of(s).len() <= s.len(),
        iterations_of(s).len() <= s.len(),
        params_of(s).len() <= s.len(),
        samples_of(s).len() <= s.len(),
        periods_of(s).len() <= s.len(),
        metric_descs_of(s).len() <= s.len(),
        names_of(s).len() <= s.len(),
        metric_datas_of(s).len() <= s.len(),
    decreases s.len(),
{
    if s.len() > 0 {
        lemma_bucket_lens(s.drop_last());
    }
}

} // verus!
