//! Foreign-key completeness and duration consistency of an ingestion.
//!
//! The laws proved here: a flattened result tree references no missing
//! parent, the effective record set of any closed record stream has a parent
//! row for every child row — the synthesized placeholder chains included —
//! and every data point written by the pipeline carries `finish - begin`
//! milliseconds as its duration, whether parsed from a tree or synthesized.

use vstd::prelude::*;

use crate::ingest::{
    iteration_like, metric_data_like, metric_desc_like, period_like, sample_like,
    all_extracted_names, effective_set_of, extracted_names, iteration_records, iterations_records,
    metric_datas_of, metric_descs_of, metric_records, metrics_records, names_of, param_record,
    period_records, periods_records, point_record, run_records, runs_of, sample_records,
    samples_records, tag_record, tags_of, iterations_of, params_of, periods_of, samples_of,
    metric_durations_fit, period_durations_fit, sample_durations_fit, iteration_durations_fit,
    run_node_durations_fit, point_duration_fits, IterationNode, MetricNode, PeriodNode, RecordSet,
    RunNode, SampleNode,
};
use crate::model::{metric_data_duration_ok, BodyJson, CDMSpecJson};
use crate::synth::{global_resource_wf, GlobalResource};

verus! {

/// Whether `ctx` holds a run record with this UUID.
pub open spec fn has_run(ctx: Seq<BodyJson>, u: u128) -> bool {
    exists|j: int|
        0 <= j < ctx.len() && ((#[trigger] ctx[j]) matches BodyJson::Run(r) && r.run.run_uuid == u)
}

/// Whether `ctx` holds an iteration record with this UUID.
pub open spec fn has_iteration(ctx: Seq<BodyJson>, u: u128) -> bool {
    exists|j: int|
        0 <= j < ctx.len() && ((#[trigger] ctx[j]) matches BodyJson::Iteration(r) && r.iteration.iteration_uuid == u)
}

/// Whether `ctx` holds a sample record with this UUID.
pub open spec fn has_sample(ctx: Seq<BodyJson>, u: u128) -> bool {
    exists|j: int|
        0 <= j < ctx.len() && ((#[trigger] ctx[j]) matches BodyJson::Sample(r) && r.sample.sample_uuid == u)
}

/// Whether `ctx` holds a period record with this UUID.
pub open spec fn has_period(ctx: Seq<BodyJson>, u: u128) -> bool {
    exists|j: int|
        0 <= j < ctx.len() && ((#[trigger] ctx[j]) matches BodyJson::Period(r) && r.period.period_uuid == u)
}

/// Whether `ctx` holds a metric-descriptor record with this UUID.
pub open spec fn has_metric_desc(ctx: Seq<BodyJson>, u: u128) -> bool {
    exists|j: int|
        0 <= j < ctx.len() && ((#[trigger] ctx[j]) matches BodyJson::MetricDesc(r) && r.metric_desc.metric_desc_uuid == u)
}

/// Whether `rec`'s parent reference resolves within `ctx`.
pub open spec fn parent_ok(rec: BodyJson, ctx: Seq<BodyJson>) -> bool {
    match rec {
        BodyJson::Run(_) => true,
        BodyJson::Tag(t) => has_run(ctx, t.run.run_uuid),
        BodyJson::Iteration(it) => has_run(ctx, it.run.run_uuid),
        BodyJson::Param(p) => has_iteration(ctx, p.iteration.iteration_uuid),
        BodyJson::Sample(sm) => has_iteration(ctx, sm.iteration.iteration_uuid),
        BodyJson::Period(pe) => has_sample(ctx, pe.sample.sample_uuid),
        BodyJson::MetricDesc(md) => match md.period {
            Option::Some(p) => has_period(ctx, p.period_uuid),
            Option::None => true,
        },
        BodyJson::Name(n) => has_metric_desc(ctx, n.metric_desc_uuid),
        BodyJson::MetricData(d) => has_metric_desc(ctx, d.metric_desc.metric_desc_uuid),
    }
}

/// Whether every record of the stream finds its parent within the stream.
pub open spec fn records_fk_complete(s: Seq<BodyJson>) -> bool {
    forall|i: int| 0 <= i < s.len() ==> parent_ok(#[trigger] s[i], s)
}

/// Whether every element of `a` occurs in `b`.
pub open spec fn all_in(a: Seq<BodyJson>, b: Seq<BodyJson>) -> bool {
    forall|i: int| 0 <= i < a.len() ==> b.contains(#[trigger] a[i])
}

/// A parent found in `ctx` is found in any stream that contains `ctx`.
proof fn lemma_parent_ok_mono(rec: BodyJson, ctx: Seq<BodyJson>, ctx2: Seq<BodyJson>)
    requires
        parent_ok(rec, ctx),
        all_in(ctx, ctx2),
    ensures
        parent_ok(rec, ctx2),
{
    match rec {
        BodyJson::Tag(t) => {
            let j = choose|j: int|
                0 <= j < ctx.len() && ((#[trigger] ctx[j]) matches BodyJson::Run(r) && r.run.run_uuid == t.run.run_uuid);
            assert(ctx2.contains(ctx[j]));
        },
        BodyJson::Iteration(it) => {
            let j = choose|j: int|
                0 <= j < ctx.len() && ((#[trigger] ctx[j]) matches BodyJson::Run(r) && r.run.run_uuid == it.run.run_uuid);
            assert(ctx2.contains(ctx[j]));
        },
        BodyJson::Param(p) => {
            let j = choose|j: int|
                0 <= j < ctx.len() && ((#[trigger] ctx[j]) matches BodyJson::Iteration(r) && r.iteration.iteration_uuid == p.iteration.iteration_uuid);
            assert(ctx2.contains(ctx[j]));
        },
        BodyJson::Sample(sm) => {
            let j = choose|j: int|
                0 <= j < ctx.len() && ((#[trigger] ctx[j]) matches BodyJson::Iteration(r) && r.iteration.iteration_uuid == sm.iteration.iteration_uuid);
            assert(ctx2.contains(ctx[j]));
        },
        BodyJson::Period(pe) => {
            let j = choose|j: int|
                0 <= j < ctx.len() && ((#[trigger] ctx[j]) matches BodyJson::Sample(r) && r.sample.sample_uuid == pe.sample.sample_uuid);
            assert(ctx2.contains(ctx[j]));
        },
        BodyJson::MetricDesc(md) => {
            match md.period {
                Option::Some(p) => {
                    let j = choose|j: int|
                        0 <= j < ctx.len() && ((#[trigger] ctx[j]) matches BodyJson::Period(r) && r.period.period_uuid == p.period_uuid);
                    assert(ctx2.contains(ctx[j]));
                },
                Option::None => {},
            }
        },
        BodyJson::Name(n) => {
            let j = choose|j: int|
                0 <= j < ctx.len() && ((#[trigger] ctx[j]) matches BodyJson::MetricDesc(r) && r.metric_desc.metric_desc_uuid == n.metric_desc_uuid);
            assert(ctx2.contains(ctx[j]));
        },
        BodyJson::MetricData(d) => {
            let j = choose|j: int|
                0 <= j < ctx.len() && ((#[trigger] ctx[j]) matches BodyJson::MetricDesc(r) && r.metric_desc.metric_desc_uuid == d.metric_desc.metric_desc_uuid);
            assert(ctx2.contains(ctx[j]));
        },
        BodyJson::Run(_) => {},
    }
}

/// A record of `ctx` witnesses the corresponding `has_*` fact.
proof fn lemma_contains_witness(ctx: Seq<BodyJson>, rec: BodyJson)
    requires
        ctx.contains(rec),
    ensures
        rec matches BodyJson::Run(r) ==> has_run(ctx, r.run.run_uuid),
        rec matches BodyJson::Iteration(r) ==> has_iteration(ctx, r.iteration.iteration_uuid),
        rec matches BodyJson::Sample(r) ==> has_sample(ctx, r.sample.sample_uuid),
        rec matches BodyJson::Period(r) ==> has_period(ctx, r.period.period_uuid),
        rec matches BodyJson::MetricDesc(r) ==> has_metric_desc(
            ctx,
            r.metric_desc.metric_desc_uuid,
        ),
{
    let j = choose|j: int| 0 <= j < ctx.len() && ctx[j] == rec;
    assert(0 <= j < ctx.len());
}

proof fn lemma_metric_fk(
    cdm: CDMSpecJson,
    ru: u128,
    iu: u128,
    su: u128,
    pu: u128,
    m: MetricNode,
    ctx: Seq<BodyJson>,
)
    requires
        has_period(ctx, pu),
        all_in(metric_records(cdm, ru, iu, su, pu, m), ctx),
    ensures
        forall|i: int|
            0 <= i < metric_records(cdm, ru, iu, su, pu, m).len() ==> parent_ok(
                #[trigger] metric_records(cdm, ru, iu, su, pu, m)[i],
                ctx,
            ),
{
    let recs = metric_records(cdm, ru, iu, su, pu, m);
    assert(ctx.contains(recs[0]));
    lemma_contains_witness(ctx, recs[0]);
    assert forall|i: int| 0 <= i < recs.len() implies parent_ok(#[trigger] recs[i], ctx) by {
        if i > 0 {
            let f = |p: crate::ingest::Point| point_record(cdm, ru, m.metric_desc_uuid, p);
            assert(recs[i] == m.data@.map_values(f)[i - 1]);
            assert(recs[i] == f(m.data@[i - 1]));
        }
    }
}

proof fn lemma_metrics_fk(
    cdm: CDMSpecJson,
    ru: u128,
    iu: u128,
    su: u128,
    pu: u128,
    ms: Seq<MetricNode>,
    ctx: Seq<BodyJson>,
)
    requires
        has_period(ctx, pu),
        all_in(metrics_records(cdm, ru, iu, su, pu, ms), ctx),
    ensures
        forall|i: int|
            0 <= i < metrics_records(cdm, ru, iu, su, pu, ms).len() ==> parent_ok(
                #[trigger] metrics_records(cdm, ru, iu, su, pu, ms)[i],
                ctx,
            ),
    decreases ms.len(),
{
    if ms.len() > 0 {
        let head = metric_records(cdm, ru, iu, su, pu, ms[0]);
        let tail = metrics_records(cdm, ru, iu, su, pu, ms.skip(1));
        assert(all_in(head, ctx)) by {
            assert forall|i: int| 0 <= i < head.len() implies ctx.contains(#[trigger] head[i]) by {
                assert(head[i] == metrics_records(cdm, ru, iu, su, pu, ms)[i]);
            }
        }
        assert(all_in(tail, ctx)) by {
            assert forall|i: int| 0 <= i < tail.len() implies ctx.contains(#[trigger] tail[i]) by {
                assert(tail[i] == metrics_records(cdm, ru, iu, su, pu, ms)[head.len() + i]);
            }
        }
        lemma_metric_fk(cdm, ru, iu, su, pu, ms[0], ctx);
        lemma_metrics_fk(cdm, ru, iu, su, pu, ms.skip(1), ctx);
        assert forall|i: int|
            0 <= i < metrics_records(cdm, ru, iu, su, pu, ms).len() implies parent_ok(
            #[trigger] metrics_records(cdm, ru, iu, su, pu, ms)[i],
            ctx,
        ) by {
            if i < head.len() {
                assert(metrics_records(cdm, ru, iu, su, pu, ms)[i] == head[i]);
            } else {
                assert(metrics_records(cdm, ru, iu, su, pu, ms)[i] == tail[i - head.len()]);
            }
        }
    }
}

proof fn lemma_period_fk(
    cdm: CDMSpecJson,
    ru: u128,
    iu: u128,
    su: u128,
    p: PeriodNode,
    ctx: Seq<BodyJson>,
)
    requires
        has_sample(ctx, su),
        all_in(period_records(cdm, ru, iu, su, p), ctx),
    ensures
        forall|i: int|
            0 <= i < period_records(cdm, ru, iu, su, p).len() ==> parent_ok(
                #[trigger] period_records(cdm, ru, iu, su, p)[i],
                ctx,
            ),
{
    let recs = period_records(cdm, ru, iu, su, p);
    assert(ctx.contains(recs[0]));
    lemma_contains_witness(ctx, recs[0]);
    let tail = metrics_records(cdm, ru, iu, su, p.period_uuid, p.metrics@);
    assert(all_in(tail, ctx)) by {
        assert forall|i: int| 0 <= i < tail.len() implies ctx.contains(#[trigger] tail[i]) by {
            assert(tail[i] == recs[1 + i]);
        }
    }
    lemma_metrics_fk(cdm, ru, iu, su, p.period_uuid, p.metrics@, ctx);
    assert forall|i: int| 0 <= i < recs.len() implies parent_ok(#[trigger] recs[i], ctx) by {
        if i > 0 {
            assert(recs[i] == tail[i - 1]);
        }
    }
}

proof fn lemma_periods_fk(
    cdm: CDMSpecJson,
    ru: u128,
    iu: u128,
    su: u128,
    ps: Seq<PeriodNode>,
    ctx: Seq<BodyJson>,
)
    requires
        has_sample(ctx, su),
        all_in(periods_records(cdm, ru, iu, su, ps), ctx),
    ensures
        forall|i: int|
            0 <= i < periods_records(cdm, ru, iu, su, ps).len() ==> parent_ok(
                #[trigger] periods_records(cdm, ru, iu, su, ps)[i],
                ctx,
            ),
    decreases ps.len(),
{
    if ps.len() > 0 {
        let head = period_records(cdm, ru, iu, su, ps[0]);
        let tail = periods_records(cdm, ru, iu, su, ps.skip(1));
        assert(all_in(head, ctx)) by {
            assert forall|i: int| 0 <= i < head.len() implies ctx.contains(#[trigger] head[i]) by {
                assert(head[i] == periods_records(cdm, ru, iu, su, ps)[i]);
            }
        }
        assert(all_in(tail, ctx)) by {
            assert forall|i: int| 0 <= i < tail.len() implies ctx.contains(#[trigger] tail[i]) by {
                assert(tail[i] == periods_records(cdm, ru, iu, su, ps)[head.len() + i]);
            }
        }
        lemma_period_fk(cdm, ru, iu, su, ps[0], ctx);
        lemma_periods_fk(cdm, ru, iu, su, ps.skip(1), ctx);
        assert forall|i: int|
            0 <= i < periods_records(cdm, ru, iu, su, ps).len() implies parent_ok(
            #[trigger] periods_records(cdm, ru, iu, su, ps)[i],
            ctx,
        ) by {
            if i < head.len() {
                assert(periods_records(cdm, ru, iu, su, ps)[i] == head[i]);
            } else {
                assert(periods_records(cdm, ru, iu, su, ps)[i] == tail[i - head.len()]);
            }
        }
    }
}

proof fn lemma_sample_fk(cdm: CDMSpecJson, ru: u128, iu: u128, s: SampleNode, ctx: Seq<BodyJson>)
    requires
        has_iteration(ctx, iu),
        all_in(sample_records(cdm, ru, iu, s), ctx),
    ensures
        forall|i: int|
            0 <= i < sample_records(cdm, ru, iu, s).len() ==> parent_ok(
                #[trigger] sample_records(cdm, ru, iu, s)[i],
                ctx,
            ),
{
    let recs = sample_records(cdm, ru, iu, s);
    assert(ctx.contains(recs[0]));
    lemma_contains_witness(ctx, recs[0]);
    let tail = periods_records(cdm, ru, iu, s.sample_uuid, s.periods@);
    assert(all_in(tail, ctx)) by {
        assert forall|i: int| 0 <= i < tail.len() implies ctx.contains(#[trigger] tail[i]) by {
            assert(tail[i] == recs[1 + i]);
        }
    }
    lemma_periods_fk(cdm, ru, iu, s.sample_uuid, s.periods@, ctx);
    assert forall|i: int| 0 <= i < recs.len() implies parent_ok(#[trigger] recs[i], ctx) by {
        if i > 0 {
            assert(recs[i] == tail[i - 1]);
        }
    }
}

proof fn lemma_samples_fk(
    cdm: CDMSpecJson,
    ru: u128,
    iu: u128,
    ss: Seq<SampleNode>,
    ctx: Seq<BodyJson>,
)
    requires
        has_iteration(ctx, iu),
        all_in(samples_records(cdm, ru, iu, ss), ctx),
    ensures
        forall|i: int|
            0 <= i < samples_records(cdm, ru, iu, ss).len() ==> parent_ok(
                #[trigger] samples_records(cdm, ru, iu, ss)[i],
                ctx,
            ),
    decreases ss.len(),
{
    if ss.len() > 0 {
        let head = sample_records(cdm, ru, iu, ss[0]);
        let tail = samples_records(cdm, ru, iu, ss.skip(1));
        assert(all_in(head, ctx)) by {
            assert forall|i: int| 0 <= i < head.len() implies ctx.contains(#[trigger] head[i]) by {
                assert(head[i] == samples_records(cdm, ru, iu, ss)[i]);
            }
        }
        assert(all_in(tail, ctx)) by {
            assert forall|i: int| 0 <= i < tail.len() implies ctx.contains(#[trigger] tail[i]) by {
                assert(tail[i] == samples_records(cdm, ru, iu, ss)[head.len() + i]);
            }
        }
        lemma_sample_fk(cdm, ru, iu, ss[0], ctx);
        lemma_samples_fk(cdm, ru, iu, ss.skip(1), ctx);
        assert forall|i: int|
            0 <= i < samples_records(cdm, ru, iu, ss).len() implies parent_ok(
            #[trigger] samples_records(cdm, ru, iu, ss)[i],
            ctx,
        ) by {
            if i < head.len() {
                assert(samples_records(cdm, ru, iu, ss)[i] == head[i]);
            } else {
                assert(samples_records(cdm, ru, iu, ss)[i] == tail[i - head.len()]);
            }
        }
    }
}

proof fn lemma_iteration_fk(cdm: CDMSpecJson, ru: u128, it: IterationNode, ctx: Seq<BodyJson>)
    requires
        has_run(ctx, ru),
        all_in(iteration_records(cdm, ru, it), ctx),
    ensures
        forall|i: int|
            0 <= i < iteration_records(cdm, ru, it).len() ==> parent_ok(
                #[trigger] iteration_records(cdm, ru, it)[i],
                ctx,
            ),
{
    let recs = iteration_records(cdm, ru, it);
    assert(ctx.contains(recs[0]));
    lemma_contains_witness(ctx, recs[0]);
    let f = |p: crate::model::ParamSpecJson| param_record(cdm, ru, it.iteration_uuid, p);
    let pars = it.params@.map_values(f);
    let tail = samples_records(cdm, ru, it.iteration_uuid, it.samples@);
    assert(all_in(tail, ctx)) by {
        assert forall|i: int| 0 <= i < tail.len() implies ctx.contains(#[trigger] tail[i]) by {
            assert(tail[i] == recs[1 + pars.len() + i]);
        }
    }
    lemma_samples_fk(cdm, ru, it.iteration_uuid, it.samples@, ctx);
    assert forall|i: int| 0 <= i < recs.len() implies parent_ok(#[trigger] recs[i], ctx) by {
        if 1 <= i < 1 + pars.len() {
            assert(recs[i] == pars[i - 1]);
            assert(recs[i] == f(it.params@[i - 1]));
        } else if i >= 1 + pars.len() {
            assert(recs[i] == tail[i - 1 - pars.len()]);
        }
    }
}

proof fn lemma_iterations_fk(cdm: CDMSpecJson, ru: u128, its: Seq<IterationNode>, ctx: Seq<
    BodyJson,
>)
    requires
        has_run(ctx, ru),
        all_in(iterations_records(cdm, ru, its), ctx),
    ensures
        forall|i: int|
            0 <= i < iterations_records(cdm, ru, its).len() ==> parent_ok(
                #[trigger] iterations_records(cdm, ru, its)[i],
                ctx,
            ),
    decreases its.len(),
{
    if its.len() > 0 {
        let head = iteration_records(cdm, ru, its[0]);
        let tail = iterations_records(cdm, ru, its.skip(1));
        assert(all_in(head, ctx)) by {
            assert forall|i: int| 0 <= i < head.len() implies ctx.contains(#[trigger] head[i]) by {
                assert(head[i] == iterations_records(cdm, ru, its)[i]);
            }
        }
        assert(all_in(tail, ctx)) by {
            assert forall|i: int| 0 <= i < tail.len() implies ctx.contains(#[trigger] tail[i]) by {
                assert(tail[i] == iterations_records(cdm, ru, its)[head.len() + i]);
            }
        }
        lemma_iteration_fk(cdm, ru, its[0], ctx);
        lemma_iterations_fk(cdm, ru, its.skip(1), ctx);
        assert forall|i: int|
            0 <= i < iterations_records(cdm, ru, its).len() implies parent_ok(
            #[trigger] iterations_records(cdm, ru, its)[i],
            ctx,
        ) by {
            if i < head.len() {
                assert(iterations_records(cdm, ru, its)[i] == head[i]);
            } else {
                assert(iterations_records(cdm, ru, its)[i] == tail[i - head.len()]);
            }
        }
    }
}

/// Flattening one result tree references no missing parent: every record of
/// the flattening finds its parent among the flattened records themselves.
pub proof fn lemma_run_records_fk_complete(cdm: CDMSpecJson, node: RunNode)
    ensures
        records_fk_complete(run_records(cdm, node)),
{
    let recs = run_records(cdm, node);
    assert(recs.contains(recs[0]));
    lemma_contains_witness(recs, recs[0]);
    let f = |t: crate::ingest::TagNode| tag_record(cdm, node.run_uuid, t);
    let tags = node.tags@.map_values(f);
    let tail = iterations_records(cdm, node.run_uuid, node.iterations@);
    assert(all_in(tail, recs)) by {
        assert forall|i: int| 0 <= i < tail.len() implies recs.contains(#[trigger] tail[i]) by {
            assert(tail[i] == recs[1 + tags.len() + i]);
        }
    }
    lemma_iterations_fk(cdm, node.run_uuid, node.iterations@, recs);
    assert forall|i: int| 0 <= i < recs.len() implies parent_ok(#[trigger] recs[i], recs) by {
        if 1 <= i < 1 + tags.len() {
            assert(recs[i] == tags[i - 1]);
            assert(recs[i] == f(node.tags@[i - 1]));
        } else if i >= 1 + tags.len() {
            assert(recs[i] == tail[i - 1 - tags.len()]);
        }
    }
}

/// Closedness is preserved by concatenating two closed streams.
pub proof fn lemma_fk_complete_concat(a: Seq<BodyJson>, b: Seq<BodyJson>)
    requires
        records_fk_complete(a),
        records_fk_complete(b),
    ensures
        records_fk_complete(a + b),
{
    assert(all_in(a, a + b)) by {
        assert forall|i: int| 0 <= i < a.len() implies (a + b).contains(#[trigger] a[i]) by {
            assert((a + b)[i] == a[i]);
        }
    }
    assert(all_in(b, a + b)) by {
        assert forall|i: int| 0 <= i < b.len() implies (a + b).contains(#[trigger] b[i]) by {
            assert((a + b)[a.len() + i] == b[i]);
        }
    }
    assert forall|i: int| 0 <= i < (a + b).len() implies parent_ok(#[trigger] (a + b)[i], a + b) by {
        if i < a.len() {
            assert((a + b)[i] == a[i]);
            lemma_parent_ok_mono(a[i], a, a + b);
        } else {
            assert((a + b)[i] == b[i - a.len()]);
            lemma_parent_ok_mono(b[i - a.len()], b, a + b);
        }
    }
}


/// Every element of the `Run` bucket occurs in the stream.
proof fn lemma_runs_mem(s: Seq<BodyJson>)
    ensures
        forall|k: int|
            0 <= k < runs_of(s).len() ==> s.contains(
                BodyJson::Run(#[trigger] runs_of(s)[k]),
            ),
    decreases s.len(),
{
    if s.len() > 0 {
        let dl = s.drop_last();
        lemma_runs_mem(dl);
        assert forall|k: int| 0 <= k < runs_of(s).len() implies s.contains(
            BodyJson::Run(#[trigger] runs_of(s)[k]),
        ) by {
            if k < runs_of(dl).len() {
                assert(runs_of(s)[k] == runs_of(dl)[k]);
                let j = choose|j: int|
                    0 <= j < dl.len() && dl[j] == BodyJson::Run(runs_of(dl)[k]);
                assert(s[j] == BodyJson::Run(runs_of(s)[k]));
            } else {
                assert(s[s.len() - 1] == BodyJson::Run(runs_of(s)[k]));
            }
        }
    }
}


/// Every element of the `Tag` bucket occurs in the stream.
proof fn lemma_tags_mem(s: Seq<BodyJson>)
    ensures
        forall|k: int|
            0 <= k < tags_of(s).len() ==> s.contains(
                BodyJson::Tag(#[trigger] tags_of(s)[k]),
            ),
    decreases s.len(),
{
    if s.len() > 0 {
        let dl = s.drop_last();
        lemma_tags_mem(dl);
        assert forall|k: int| 0 <= k < tags_of(s).len() implies s.contains(
            BodyJson::Tag(#[trigger] tags_of(s)[k]),
        ) by {
            if k < tags_of(dl).len() {
                assert(tags_of(s)[k] == tags_of(dl)[k]);
                let j = choose|j: int|
                    0 <= j < dl.len() && dl[j] == BodyJson::Tag(tags_of(dl)[k]);
                assert(s[j] == BodyJson::Tag(tags_of(s)[k]));
            } else {
                assert(s[s.len() - 1] == BodyJson::Tag(tags_of(s)[k]));
            }
        }
    }
}


/// Every element of the `Iteration` bucket occurs in the stream.
proof fn lemma_iterations_mem(s: Seq<BodyJson>)
    ensures
        forall|k: int|
            0 <= k < iterations_of(s).len() ==> s.contains(
                BodyJson::Iteration(#[trigger] iterations_of(s)[k]),
            ),
    decreases s.len(),
{
    if s.len() > 0 {
        let dl = s.drop_last();
        lemma_iterations_mem(dl);
        assert forall|k: int| 0 <= k < iterations_of(s).len() implies s.contains(
            BodyJson::Iteration(#[trigger] iterations_of(s)[k]),
        ) by {
            if k < iterations_of(dl).len() {
                assert(iterations_of(s)[k] == iterations_of(dl)[k]);
                let j = choose|j: int|
                    0 <= j < dl.len() && dl[j] == BodyJson::Iteration(iterations_of(dl)[k]);
                assert(s[j] == BodyJson::Iteration(iterations_of(s)[k]));
            } else {
                assert(s[s.len() - 1] == BodyJson::Iteration(iterations_of(s)[k]));
            }
        }
    }
}


/// Every element of the `Param` bucket occurs in the stream.
proof fn lemma_params_mem(s: Seq<BodyJson>)
    ensures
        forall|k: int|
            0 <= k < params_of(s).len() ==> s.contains(
                BodyJson::Param(#[trigger] params_of(s)[k]),
            ),
    decreases s.len(),
{
    if s.len() > 0 {
        let dl = s.drop_last();
        lemma_params_mem(dl);
        assert forall|k: int| 0 <= k < params_of(s).len() implies s.contains(
            BodyJson::Param(#[trigger] params_of(s)[k]),
        ) by {
            if k < params_of(dl).len() {
                assert(params_of(s)[k] == params_of(dl)[k]);
                let j = choose|j: int|
                    0 <= j < dl.len() && dl[j] == BodyJson::Param(params_of(dl)[k]);
                assert(s[j] == BodyJson::Param(params_of(s)[k]));
            } else {
                assert(s[s.len() - 1] == BodyJson::Param(params_of(s)[k]));
            }
        }
    }
}


/// Every element of the `Sample` bucket occurs in the stream.
proof fn lemma_samples_mem(s: Seq<BodyJson>)
    ensures
        forall|k: int|
            0 <= k < samples_of(s).len() ==> s.contains(
                BodyJson::Sample(#[trigger] samples_of(s)[k]),
            ),
    decreases s.len(),
{
    if s.len() > 0 {
        let dl = s.drop_last();
        lemma_samples_mem(dl);
        assert forall|k: int| 0 <= k < samples_of(s).len() implies s.contains(
            BodyJson::Sample(#[trigger] samples_of(s)[k]),
        ) by {
            if k < samples_of(dl).len() {
                assert(samples_of(s)[k] == samples_of(dl)[k]);
                let j = choose|j: int|
                    0 <= j < dl.len() && dl[j] == BodyJson::Sample(samples_of(dl)[k]);
                assert(s[j] == BodyJson::Sample(samples_of(s)[k]));
            } else {
                assert(s[s.len() - 1] == BodyJson::Sample(samples_of(s)[k]));
            }
        }
    }
}


/// Every element of the `Period` bucket occurs in the stream.
proof fn lemma_periods_mem(s: Seq<BodyJson>)
    ensures
        forall|k: int|
            0 <= k < periods_of(s).len() ==> s.contains(
                BodyJson::Period(#[trigger] periods_of(s)[k]),
            ),
    decreases s.len(),
{
    if s.len() > 0 {
        let dl = s.drop_last();
        lemma_periods_mem(dl);
        assert forall|k: int| 0 <= k < periods_of(s).len() implies s.contains(
            BodyJson::Period(#[trigger] periods_of(s)[k]),
        ) by {
            if k < periods_of(dl).len() {
                assert(periods_of(s)[k] == periods_of(dl)[k]);
                let j = choose|j: int|
                    0 <= j < dl.len() && dl[j] == BodyJson::Period(periods_of(dl)[k]);
                assert(s[j] == BodyJson::Period(periods_of(s)[k]));
            } else {
                assert(s[s.len() - 1] == BodyJson::Period(periods_of(s)[k]));
            }
        }
    }
}


/// Every element of the `MetricDesc` bucket occurs in the stream.
proof fn lemma_metric_descs_mem(s: Seq<BodyJson>)
    ensures
        forall|k: int|
            0 <= k < metric_descs_of(s).len() ==> s.contains(
                BodyJson::MetricDesc(#[trigger] metric_descs_of(s)[k]),
            ),
    decreases s.len(),
{
    if s.len() > 0 {
        let dl = s.drop_last();
        lemma_metric_descs_mem(dl);
        assert forall|k: int| 0 <= k < metric_descs_of(s).len() implies s.contains(
            BodyJson::MetricDesc(#[trigger] metric_descs_of(s)[k]),
        ) by {
            if k < metric_descs_of(dl).len() {
                assert(metric_descs_of(s)[k] == metric_descs_of(dl)[k]);
                let j = choose|j: int|
                    0 <= j < dl.len() && dl[j] == BodyJson::MetricDesc(metric_descs_of(dl)[k]);
                assert(s[j] == BodyJson::MetricDesc(metric_descs_of(s)[k]));
            } else {
                assert(s[s.len() - 1] == BodyJson::MetricDesc(metric_descs_of(s)[k]));
            }
        }
    }
}


/// Every element of the `Name` bucket occurs in the stream.
proof fn lemma_names_mem(s: Seq<BodyJson>)
    ensures
        forall|k: int|
            0 <= k < names_of(s).len() ==> s.contains(
                BodyJson::Name(#[trigger] names_of(s)[k]),
            ),
    decreases s.len(),
{
    if s.len() > 0 {
        let dl = s.drop_last();
        lemma_names_mem(dl);
        assert forall|k: int| 0 <= k < names_of(s).len() implies s.contains(
            BodyJson::Name(#[trigger] names_of(s)[k]),
        ) by {
            if k < names_of(dl).len() {
                assert(names_of(s)[k] == names_of(dl)[k]);
                let j = choose|j: int|
                    0 <= j < dl.len() && dl[j] == BodyJson::Name(names_of(dl)[k]);
                assert(s[j] == BodyJson::Name(names_of(s)[k]));
            } else {
                assert(s[s.len() - 1] == BodyJson::Name(names_of(s)[k]));
            }
        }
    }
}


/// Every element of the `MetricData` bucket occurs in the stream.
proof fn lemma_metric_datas_mem(s: Seq<BodyJson>)
    ensures
        forall|k: int|
            0 <= k < metric_datas_of(s).len() ==> s.contains(
                BodyJson::MetricData(#[trigger] metric_datas_of(s)[k]),
            ),
    decreases s.len(),
{
    if s.len() > 0 {
        let dl = s.drop_last();
        lemma_metric_datas_mem(dl);
        assert forall|k: int| 0 <= k < metric_datas_of(s).len() implies s.contains(
            BodyJson::MetricData(#[trigger] metric_datas_of(s)[k]),
        ) by {
            if k < metric_datas_of(dl).len() {
                assert(metric_datas_of(s)[k] == metric_datas_of(dl)[k]);
                let j = choose|j: int|
                    0 <= j < dl.len() && dl[j] == BodyJson::MetricData(metric_datas_of(dl)[k]);
                assert(s[j] == BodyJson::MetricData(metric_datas_of(s)[k]));
            } else {
                assert(s[s.len() - 1] == BodyJson::MetricData(metric_datas_of(s)[k]));
            }
        }
    }
}


/// If the stream holds a `Run` record with UUID `u`, so does its bucket.
proof fn lemma_runs_mem_rev(s: Seq<BodyJson>, u: u128)
    requires
        has_run(s, u),
    ensures
        exists|k: int|
            0 <= k < runs_of(s).len() && (#[trigger] runs_of(s)[k]).run.run_uuid == u,
    decreases s.len(),
{
    let j = choose|j: int|
        0 <= j < s.len() && ((#[trigger] s[j]) matches BodyJson::Run(r) && r.run.run_uuid == u);
    let dl = s.drop_last();
    if j == s.len() - 1 {
        assert(runs_of(s)[runs_of(s).len() - 1].run.run_uuid == u);
    } else {
        assert(dl[j] == s[j]);
        assert(has_run(dl, u));
        lemma_runs_mem_rev(dl, u);
        let k = choose|k: int|
            0 <= k < runs_of(dl).len() && (#[trigger] runs_of(dl)[k]).run.run_uuid == u;
        assert(runs_of(s)[k] == runs_of(dl)[k]);
    }
}


/// If the stream holds a `Iteration` record with UUID `u`, so does its bucket.
proof fn lemma_iterations_mem_rev(s: Seq<BodyJson>, u: u128)
    requires
        has_iteration(s, u),
    ensures
        exists|k: int|
            0 <= k < iterations_of(s).len() && (#[trigger] iterations_of(s)[k]).iteration.iteration_uuid == u,
    decreases s.len(),
{
    let j = choose|j: int|
        0 <= j < s.len() && ((#[trigger] s[j]) matches BodyJson::Iteration(r) && r.iteration.iteration_uuid == u);
    let dl = s.drop_last();
    if j == s.len() - 1 {
        assert(iterations_of(s)[iterations_of(s).len() - 1].iteration.iteration_uuid == u);
    } else {
        assert(dl[j] == s[j]);
        assert(has_iteration(dl, u));
        lemma_iterations_mem_rev(dl, u);
        let k = choose|k: int|
            0 <= k < iterations_of(dl).len() && (#[trigger] iterations_of(dl)[k]).iteration.iteration_uuid == u;
        assert(iterations_of(s)[k] == iterations_of(dl)[k]);
    }
}


/// If the stream holds a `Sample` record with UUID `u`, so does its bucket.
proof fn lemma_samples_mem_rev(s: Seq<BodyJson>, u: u128)
    requires
        has_sample(s, u),
    ensures
        exists|k: int|
            0 <= k < samples_of(s).len() && (#[trigger] samples_of(s)[k]).sample.sample_uuid == u,
    decreases s.len(),
{
    let j = choose|j: int|
        0 <= j < s.len() && ((#[trigger] s[j]) matches BodyJson::Sample(r) && r.sample.sample_uuid == u);
    let dl = s.drop_last();
    if j == s.len() - 1 {
        assert(samples_of(s)[samples_of(s).len() - 1].sample.sample_uuid == u);
    } else {
        assert(dl[j] == s[j]);
        assert(has_sample(dl, u));
        lemma_samples_mem_rev(dl, u);
        let k = choose|k: int|
            0 <= k < samples_of(dl).len() && (#[trigger] samples_of(dl)[k]).sample.sample_uuid == u;
        assert(samples_of(s)[k] == samples_of(dl)[k]);
    }
}


/// If the stream holds a `Period` record with UUID `u`, so does its bucket.
proof fn lemma_periods_mem_rev(s: Seq<BodyJson>, u: u128)
    requires
        has_period(s, u),
    ensures
        exists|k: int|
            0 <= k < periods_of(s).len() && (#[trigger] periods_of(s)[k]).period.period_uuid == u,
    decreases s.len(),
{
    let j = choose|j: int|
        0 <= j < s.len() && ((#[trigger] s[j]) matches BodyJson::Period(r) && r.period.period_uuid == u);
    let dl = s.drop_last();
    if j == s.len() - 1 {
        assert(periods_of(s)[periods_of(s).len() - 1].period.period_uuid == u);
    } else {
        assert(dl[j] == s[j]);
        assert(has_period(dl, u));
        lemma_periods_mem_rev(dl, u);
        let k = choose|k: int|
            0 <= k < periods_of(dl).len() && (#[trigger] periods_of(dl)[k]).period.period_uuid == u;
        assert(periods_of(s)[k] == periods_of(dl)[k]);
    }
}


/// If the stream holds a `MetricDesc` record with UUID `u`, so does its bucket.
proof fn lemma_metric_descs_mem_rev(s: Seq<BodyJson>, u: u128)
    requires
        has_metric_desc(s, u),
    ensures
        exists|k: int|
            0 <= k < metric_descs_of(s).len() && (#[trigger] metric_descs_of(s)[k]).metric_desc.metric_desc_uuid == u,
    decreases s.len(),
{
    let j = choose|j: int|
        0 <= j < s.len() && ((#[trigger] s[j]) matches BodyJson::MetricDesc(r) && r.metric_desc.metric_desc_uuid == u);
    let dl = s.drop_last();
    if j == s.len() - 1 {
        assert(metric_descs_of(s)[metric_descs_of(s).len() - 1].metric_desc.metric_desc_uuid == u);
    } else {
        assert(dl[j] == s[j]);
        assert(has_metric_desc(dl, u));
        lemma_metric_descs_mem_rev(dl, u);
        let k = choose|k: int|
            0 <= k < metric_descs_of(dl).len() && (#[trigger] metric_descs_of(dl)[k]).metric_desc.metric_desc_uuid == u;
        assert(metric_descs_of(s)[k] == metric_descs_of(dl)[k]);
    }
}


/// Every row extracted from one attribute map references the owning
/// descriptor.
proof fn lemma_extracted_names_parent(u: u128, entries: Seq<crate::model::NameVal>)
    ensures
        forall|k: int|
            0 <= k < extracted_names(u, entries).len() ==> (#[trigger] extracted_names(
                u,
                entries,
            )[k]).metric_desc_uuid == u,
    decreases entries.len(),
{
    if entries.len() > 0 {
        let dl = entries.drop_last();
        lemma_extracted_names_parent(u, dl);
        assert forall|k: int| 0 <= k < extracted_names(u, entries).len() implies (
        #[trigger] extracted_names(u, entries)[k]).metric_desc_uuid == u by {
            if k < extracted_names(u, dl).len() {
                assert(extracted_names(u, entries)[k] == extracted_names(u, dl)[k]);
            } else {
                assert(extracted_names(u, entries)[k].metric_desc_uuid == u);
            }
        }
    }
}

/// Every derived `Name` row references one of the descriptors it was
/// derived from.
proof fn lemma_all_extracted_names_parent(mds: Seq<crate::model::MetricDescJson>)
    ensures
        forall|k: int|
            0 <= k < all_extracted_names(mds).len() ==> exists|j: int|
                0 <= j < mds.len() && (#[trigger] mds[j]).metric_desc.metric_desc_uuid == (
                #[trigger] all_extracted_names(mds)[k]).metric_desc_uuid,
    decreases mds.len(),
{
    if mds.len() > 0 {
        let dl = mds.drop_last();
        lemma_all_extracted_names_parent(dl);
        let last = mds.last();
        lemma_extracted_names_parent(last.metric_desc.metric_desc_uuid, last.metric_desc.names@);
        assert forall|k: int| 0 <= k < all_extracted_names(mds).len() implies exists|j: int|
            0 <= j < mds.len() && (#[trigger] mds[j]).metric_desc.metric_desc_uuid == (
            #[trigger] all_extracted_names(mds)[k]).metric_desc_uuid by {
            if k < all_extracted_names(dl).len() {
                assert(all_extracted_names(mds)[k] == all_extracted_names(dl)[k]);
                let j = choose|j: int|
                    0 <= j < dl.len() && (#[trigger] dl[j]).metric_desc.metric_desc_uuid
                        == all_extracted_names(dl)[k].metric_desc_uuid;
                assert(mds[j] == dl[j]);
            } else {
                let e = extracted_names(last.metric_desc.metric_desc_uuid, last.metric_desc.names@);
                assert(all_extracted_names(mds)[k] == e[k - all_extracted_names(dl).len()]);
                assert(mds[mds.len() - 1].metric_desc.metric_desc_uuid == all_extracted_names(
                    mds,
                )[k].metric_desc_uuid);
            }
        }
    }
}


/// Whether the run bucket holds a row with this UUID.
pub open spec fn run_row_exists(rs: RecordSet, u: u128) -> bool {
    exists|j: int| 0 <= j < rs.runs@.len() && (#[trigger] rs.runs@[j]).run.run_uuid == u
}

/// Whether the iteration bucket holds a row with this UUID.
pub open spec fn iteration_row_exists(rs: RecordSet, u: u128) -> bool {
    exists|j: int|
        0 <= j < rs.iterations@.len() && (#[trigger] rs.iterations@[j]).iteration.iteration_uuid
            == u
}

/// Whether the sample bucket holds a row with this UUID.
pub open spec fn sample_row_exists(rs: RecordSet, u: u128) -> bool {
    exists|j: int|
        0 <= j < rs.samples@.len() && (#[trigger] rs.samples@[j]).sample.sample_uuid == u
}

/// Whether the period bucket holds a row with this UUID.
pub open spec fn period_row_exists(rs: RecordSet, u: u128) -> bool {
    exists|j: int|
        0 <= j < rs.periods@.len() && (#[trigger] rs.periods@[j]).period.period_uuid == u
}

/// Whether the descriptor bucket holds a row with this UUID.
pub open spec fn metric_desc_row_exists(rs: RecordSet, u: u128) -> bool {
    exists|j: int|
        0 <= j < rs.metric_descs@.len() && (#[trigger] rs.metric_descs@[j]).metric_desc.metric_desc_uuid
            == u
}

/// Every tag row's run exists.
pub open spec fn tags_fk_ok(rs: RecordSet) -> bool {
    forall|i: int|
        0 <= i < rs.tags@.len() ==> run_row_exists(rs, (#[trigger] rs.tags@[i]).run.run_uuid)
}

/// Every iteration row's run exists.
pub open spec fn iterations_fk_ok(rs: RecordSet) -> bool {
    forall|i: int|
        0 <= i < rs.iterations@.len() ==> run_row_exists(rs, (#[trigger] rs.iterations@[i]).run.run_uuid)
}

/// Every argument row's iteration exists.
pub open spec fn params_fk_ok(rs: RecordSet) -> bool {
    forall|i: int|
        0 <= i < rs.params@.len() ==> iteration_row_exists(rs, (#[trigger] rs.params@[i]).iteration.iteration_uuid)
}

/// Every sample row's iteration exists.
pub open spec fn samples_fk_ok(rs: RecordSet) -> bool {
    forall|i: int|
        0 <= i < rs.samples@.len() ==> iteration_row_exists(rs, (#[trigger] rs.samples@[i]).iteration.iteration_uuid)
}

/// Every period row's sample exists.
pub open spec fn periods_fk_ok(rs: RecordSet) -> bool {
    forall|i: int|
        0 <= i < rs.periods@.len() ==> sample_row_exists(rs, (#[trigger] rs.periods@[i]).sample.sample_uuid)
}

/// Every descriptor row's period, when referenced, exists.
pub open spec fn metric_descs_fk_ok(rs: RecordSet) -> bool {
    forall|i: int|
        0 <= i < rs.metric_descs@.len() ==> ((#[trigger] rs.metric_descs@[i]).period matches Option::Some(p) ==> period_row_exists(rs, p.period_uuid))
}

/// Every name row's descriptor exists.
pub open spec fn names_fk_ok(rs: RecordSet) -> bool {
    forall|i: int|
        0 <= i < rs.names@.len() ==> metric_desc_row_exists(rs, (#[trigger] rs.names@[i]).metric_desc_uuid)
}

/// Every data row's descriptor exists.
pub open spec fn metric_datas_fk_ok(rs: RecordSet) -> bool {
    forall|i: int|
        0 <= i < rs.metric_datas@.len() ==> metric_desc_row_exists(rs, (#[trigger] rs.metric_datas@[i]).metric_desc.metric_desc_uuid)
}

/// Whether every child row of the effective record set finds its parent row
/// in its parent bucket.
pub open spec fn record_set_fk_complete(rs: RecordSet) -> bool {
    &&& tags_fk_ok(rs)
    &&& iterations_fk_ok(rs)
    &&& params_fk_ok(rs)
    &&& samples_fk_ok(rs)
    &&& periods_fk_ok(rs)
    &&& metric_descs_fk_ok(rs)
    &&& names_fk_ok(rs)
    &&& metric_datas_fk_ok(rs)
}


#[verifier::spinoff_prover]
#[verifier::rlimit(50)]
proof fn lemma_fk_tags(s: Seq<BodyJson>, globals: Seq<(u128, GlobalResource)>, rs: RecordSet)
    requires
        records_fk_complete(s),
        effective_set_of(s, globals, rs),
    ensures
        tags_fk_ok(rs),
{
    let n_it = iterations_of(s).len() as int;
    let n_sam = samples_of(s).len() as int;
    let n_per = periods_of(s).len() as int;
    let n_md = metric_descs_of(s).len() as int;
    let n_dat = metric_datas_of(s).len() as int;

    lemma_tags_mem(s);
    lemma_runs_mem(s);
    // tags
    assert forall|i: int| 0 <= i < rs.tags@.len() implies run_row_exists(rs, (#[trigger] rs.tags@[i]).run.run_uuid) by {
        let t = rs.tags@[i];
        assert(t == tags_of(s)[i]);
        let jj = choose|j: int| 0 <= j < s.len() && s[j] == BodyJson::Tag(t);
        assert(parent_ok(s[jj], s));
        lemma_runs_mem_rev(s, t.run.run_uuid);
        let k = choose|k: int|
            0 <= k < runs_of(s).len() && (#[trigger] runs_of(s)[k]).run.run_uuid == t.run.run_uuid;
        assert(rs.runs@[k].run.run_uuid == t.run.run_uuid);
    }
}


#[verifier::spinoff_prover]
#[verifier::rlimit(50)]
proof fn lemma_fk_iterations(s: Seq<BodyJson>, globals: Seq<(u128, GlobalResource)>, rs: RecordSet)
    requires
        records_fk_complete(s),
        effective_set_of(s, globals, rs),
    ensures
        iterations_fk_ok(rs),
{
    let n_it = iterations_of(s).len() as int;
    let n_sam = samples_of(s).len() as int;
    let n_per = periods_of(s).len() as int;
    let n_md = metric_descs_of(s).len() as int;
    let n_dat = metric_datas_of(s).len() as int;

    lemma_iterations_mem(s);
    lemma_runs_mem(s);
    // iterations
    assert forall|i: int| 0 <= i < rs.iterations@.len() implies run_row_exists(rs, (#[trigger] rs.iterations@[i]).run.run_uuid) by {
        if i < n_it {
            let it = rs.iterations@[i];
            assert(it == iterations_of(s)[i]) by {
                assert(rs.iterations@.take(n_it)[i] == rs.iterations@[i]);
            }
            let jj = choose|j: int| 0 <= j < s.len() && s[j] == BodyJson::Iteration(it);
            assert(parent_ok(s[jj], s));
            lemma_runs_mem_rev(s, it.run.run_uuid);
            let k = choose|k: int|
                0 <= k < runs_of(s).len() && (#[trigger] runs_of(s)[k]).run.run_uuid
                    == it.run.run_uuid;
            assert(rs.runs@[k].run.run_uuid == it.run.run_uuid);
        } else {
            let g = i - n_it;
            assert(iteration_like(rs.iterations@[n_it + g], globals[g].1.iteration));
            assert(rs.runs@[g].run.run_uuid == rs.iterations@[i].run.run_uuid);
        }
    }
}


#[verifier::spinoff_prover]
#[verifier::rlimit(50)]
proof fn lemma_fk_params(s: Seq<BodyJson>, globals: Seq<(u128, GlobalResource)>, rs: RecordSet)
    requires
        records_fk_complete(s),
        effective_set_of(s, globals, rs),
    ensures
        params_fk_ok(rs),
{
    let n_it = iterations_of(s).len() as int;
    let n_sam = samples_of(s).len() as int;
    let n_per = periods_of(s).len() as int;
    let n_md = metric_descs_of(s).len() as int;
    let n_dat = metric_datas_of(s).len() as int;

    lemma_params_mem(s);
    lemma_iterations_mem(s);
    // params
    assert forall|i: int| 0 <= i < rs.params@.len() implies iteration_row_exists(rs, (#[trigger] rs.params@[i]).iteration.iteration_uuid) by {
        let p = rs.params@[i];
        assert(p == params_of(s)[i]);
        let jj = choose|j: int| 0 <= j < s.len() && s[j] == BodyJson::Param(p);
        assert(parent_ok(s[jj], s));
        lemma_iterations_mem_rev(s, p.iteration.iteration_uuid);
        let k = choose|k: int|
            0 <= k < iterations_of(s).len() && (#[trigger] iterations_of(s)[k]).iteration.iteration_uuid
                == p.iteration.iteration_uuid;
        assert(rs.iterations@.take(n_it)[k] == rs.iterations@[k]);
        assert(rs.iterations@[k].iteration.iteration_uuid == p.iteration.iteration_uuid);
    }
}


#[verifier::spinoff_prover]
#[verifier::rlimit(50)]
proof fn lemma_fk_samples(s: Seq<BodyJson>, globals: Seq<(u128, GlobalResource)>, rs: RecordSet)
    requires
        records_fk_complete(s),
        effective_set_of(s, globals, rs),
    ensures
        samples_fk_ok(rs),
{
    let n_it = iterations_of(s).len() as int;
    let n_sam = samples_of(s).len() as int;
    let n_per = periods_of(s).len() as int;
    let n_md = metric_descs_of(s).len() as int;
    let n_dat = metric_datas_of(s).len() as int;

    lemma_samples_mem(s);
    lemma_iterations_mem(s);
    // samples
    assert forall|i: int| 0 <= i < rs.samples@.len() implies iteration_row_exists(rs, (#[trigger] rs.samples@[i]).iteration.iteration_uuid) by {
        if i < n_sam {
            let sm = rs.samples@[i];
            assert(sm == samples_of(s)[i]) by {
                assert(rs.samples@.take(n_sam)[i] == rs.samples@[i]);
            }
            let jj = choose|j: int| 0 <= j < s.len() && s[j] == BodyJson::Sample(sm);
            assert(parent_ok(s[jj], s));
            lemma_iterations_mem_rev(s, sm.iteration.iteration_uuid);
            let k = choose|k: int|
                0 <= k < iterations_of(s).len() && (#[trigger] iterations_of(
                    s,
                )[k]).iteration.iteration_uuid == sm.iteration.iteration_uuid;
            assert(rs.iterations@.take(n_it)[k] == rs.iterations@[k]);
            assert(rs.iterations@[k].iteration.iteration_uuid == sm.iteration.iteration_uuid);
        } else {
            let g = i - n_sam;
            assert(sample_like(rs.samples@[n_sam + g], globals[g].1.sample));
            assert(iteration_like(rs.iterations@[n_it + g], globals[g].1.iteration));
            assert(rs.iterations@[n_it + g].iteration.iteration_uuid
                == rs.samples@[i].iteration.iteration_uuid);
        }
    }
}


#[verifier::spinoff_prover]
#[verifier::rlimit(50)]
proof fn lemma_fk_periods(s: Seq<BodyJson>, globals: Seq<(u128, GlobalResource)>, rs: RecordSet)
    requires
        records_fk_complete(s),
        effective_set_of(s, globals, rs),
    ensures
        periods_fk_ok(rs),
{
    let n_it = iterations_of(s).len() as int;
    let n_sam = samples_of(s).len() as int;
    let n_per = periods_of(s).len() as int;
    let n_md = metric_descs_of(s).len() as int;
    let n_dat = metric_datas_of(s).len() as int;

    lemma_periods_mem(s);
    lemma_samples_mem(s);
    // periods
    assert forall|i: int| 0 <= i < rs.periods@.len() implies sample_row_exists(rs, (#[trigger] rs.periods@[i]).sample.sample_uuid) by {
        if i < n_per {
            let pe = rs.periods@[i];
            assert(pe == periods_of(s)[i]) by {
                assert(rs.periods@.take(n_per)[i] == rs.periods@[i]);
            }
            let jj = choose|j: int| 0 <= j < s.len() && s[j] == BodyJson::Period(pe);
            assert(parent_ok(s[jj], s));
            lemma_samples_mem_rev(s, pe.sample.sample_uuid);
            let k = choose|k: int|
                0 <= k < samples_of(s).len() && (#[trigger] samples_of(s)[k]).sample.sample_uuid
                    == pe.sample.sample_uuid;
            assert(rs.samples@.take(n_sam)[k] == rs.samples@[k]);
            assert(rs.samples@[k].sample.sample_uuid == pe.sample.sample_uuid);
        } else {
            let g = i - n_per;
            assert(period_like(rs.periods@[n_per + g], globals[g].1.period));
            assert(sample_like(rs.samples@[n_sam + g], globals[g].1.sample));
            assert(rs.samples@[n_sam + g].sample.sample_uuid
                == rs.periods@[i].sample.sample_uuid);
        }
    }
}


#[verifier::spinoff_prover]
#[verifier::rlimit(50)]
proof fn lemma_fk_metric_descs(s: Seq<BodyJson>, globals: Seq<(u128, GlobalResource)>, rs: RecordSet)
    requires
        records_fk_complete(s),
        effective_set_of(s, globals, rs),
    ensures
        metric_descs_fk_ok(rs),
{
    let n_it = iterations_of(s).len() as int;
    let n_sam = samples_of(s).len() as int;
    let n_per = periods_of(s).len() as int;
    let n_md = metric_descs_of(s).len() as int;
    let n_dat = metric_datas_of(s).len() as int;

    lemma_metric_descs_mem(s);
    lemma_periods_mem(s);
    // metric descriptors
    assert forall|i: int| 0 <= i < rs.metric_descs@.len() implies ((#[trigger] rs.metric_descs@[i]).period matches Option::Some(p) ==> period_row_exists(rs, p.period_uuid)) by {
        if rs.metric_descs@[i].period is Some {
            let p = rs.metric_descs@[i].period->Some_0;
            if i < n_md {
                let md = rs.metric_descs@[i];
                assert(md == metric_descs_of(s)[i]) by {
                    assert(rs.metric_descs@.take(n_md)[i] == rs.metric_descs@[i]);
                }
                let jj = choose|j: int| 0 <= j < s.len() && s[j] == BodyJson::MetricDesc(md);
                assert(parent_ok(s[jj], s));
                lemma_periods_mem_rev(s, p.period_uuid);
                let k = choose|k: int|
                    0 <= k < periods_of(s).len() && (#[trigger] periods_of(s)[k]).period.period_uuid
                        == p.period_uuid;
                assert(rs.periods@.take(n_per)[k] == rs.periods@[k]);
                assert(rs.periods@[k].period.period_uuid == p.period_uuid);
            } else {
                let g = i - n_md;
                assert(metric_desc_like(rs.metric_descs@[n_md + g], globals[g].1.metric_desc));
                assert(period_like(rs.periods@[n_per + g], globals[g].1.period));
                assert(rs.periods@[n_per + g].period.period_uuid == p.period_uuid);
            }
        }
    }
}


#[verifier::spinoff_prover]
#[verifier::rlimit(50)]
proof fn lemma_fk_names(s: Seq<BodyJson>, globals: Seq<(u128, GlobalResource)>, rs: RecordSet)
    requires
        records_fk_complete(s),
        effective_set_of(s, globals, rs),
    ensures
        names_fk_ok(rs),
{
    let n_it = iterations_of(s).len() as int;
    let n_sam = samples_of(s).len() as int;
    let n_per = periods_of(s).len() as int;
    let n_md = metric_descs_of(s).len() as int;
    let n_dat = metric_datas_of(s).len() as int;

    lemma_names_mem(s);
    lemma_metric_descs_mem(s);
    lemma_all_extracted_names_parent(metric_descs_of(s));
    // names
    assert forall|i: int| 0 <= i < rs.names@.len() implies metric_desc_row_exists(rs, (#[trigger] rs.names@[i]).metric_desc_uuid) by {
        let n_explicit = names_of(s).len() as int;
        let nm = rs.names@[i];
        if i < n_explicit {
            assert(nm == names_of(s)[i]);
            let jj = choose|j: int| 0 <= j < s.len() && s[j] == BodyJson::Name(nm);
            assert(parent_ok(s[jj], s));
            lemma_metric_descs_mem_rev(s, nm.metric_desc_uuid);
            let k = choose|k: int|
                0 <= k < metric_descs_of(s).len() && (#[trigger] metric_descs_of(
                    s,
                )[k]).metric_desc.metric_desc_uuid == nm.metric_desc_uuid;
            assert(rs.metric_descs@.take(n_md)[k] == rs.metric_descs@[k]);
            assert(rs.metric_descs@[k].metric_desc.metric_desc_uuid == nm.metric_desc_uuid);
        } else {
            assert(nm == all_extracted_names(metric_descs_of(s))[i - n_explicit]);
            let k = choose|j: int|
                0 <= j < metric_descs_of(s).len() && (#[trigger] metric_descs_of(
                    s,
                )[j]).metric_desc.metric_desc_uuid == nm.metric_desc_uuid;
            assert(rs.metric_descs@.take(n_md)[k] == rs.metric_descs@[k]);
            assert(rs.metric_descs@[k].metric_desc.metric_desc_uuid == nm.metric_desc_uuid);
        }
    }
}


#[verifier::spinoff_prover]
#[verifier::rlimit(50)]
proof fn lemma_fk_metric_datas(s: Seq<BodyJson>, globals: Seq<(u128, GlobalResource)>, rs: RecordSet)
    requires
        records_fk_complete(s),
        effective_set_of(s, globals, rs),
    ensures
        metric_datas_fk_ok(rs),
{
    let n_it = iterations_of(s).len() as int;
    let n_sam = samples_of(s).len() as int;
    let n_per = periods_of(s).len() as int;
    let n_md = metric_descs_of(s).len() as int;
    let n_dat = metric_datas_of(s).len() as int;

    lemma_metric_datas_mem(s);
    lemma_metric_descs_mem(s);
    // data points
    assert forall|i: int| 0 <= i < rs.metric_datas@.len() implies metric_desc_row_exists(rs, (#[trigger] rs.metric_datas@[i]).metric_desc.metric_desc_uuid) by {
        if i < n_dat {
            let d = rs.metric_datas@[i];
            assert(d == metric_datas_of(s)[i]) by {
                assert(rs.metric_datas@.take(n_dat)[i] == rs.metric_datas@[i]);
            }
            let jj = choose|j: int| 0 <= j < s.len() && s[j] == BodyJson::MetricData(d);
            assert(parent_ok(s[jj], s));
            lemma_metric_descs_mem_rev(s, d.metric_desc.metric_desc_uuid);
            let k = choose|k: int|
                0 <= k < metric_descs_of(s).len() && (#[trigger] metric_descs_of(
                    s,
                )[k]).metric_desc.metric_desc_uuid == d.metric_desc.metric_desc_uuid;
            assert(rs.metric_descs@.take(n_md)[k] == rs.metric_descs@[k]);
            assert(rs.metric_descs@[k].metric_desc.metric_desc_uuid
                == d.metric_desc.metric_desc_uuid);
        } else {
            let g = i - n_dat;
            assert(metric_data_like(rs.metric_datas@[n_dat + g], globals[g].1.metric_data));
            assert(metric_desc_like(rs.metric_descs@[n_md + g], globals[g].1.metric_desc));
            assert(rs.metric_descs@[n_md + g].metric_desc.metric_desc_uuid
                == rs.metric_datas@[i].metric_desc.metric_desc_uuid);
        }
    }
}

/// After normalizing any closed record stream — one whose records' parent
/// references all resolve within the stream — the effective record set has
/// no orphan row: every child row's parent UUID exists in its parent bucket,
/// the synthesized placeholder rows included.
pub proof fn lemma_effective_set_fk_complete(
    s: Seq<BodyJson>,
    globals: Seq<(u128, GlobalResource)>,
    rs: RecordSet,
)
    requires
        records_fk_complete(s),
        effective_set_of(s, globals, rs),
    ensures
        record_set_fk_complete(rs),
{
    lemma_fk_tags(s, globals, rs);
    lemma_fk_iterations(s, globals, rs);
    lemma_fk_params(s, globals, rs);
    lemma_fk_samples(s, globals, rs);
    lemma_fk_periods(s, globals, rs);
    lemma_fk_metric_descs(s, globals, rs);
    lemma_fk_names(s, globals, rs);
    lemma_fk_metric_datas(s, globals, rs);
}

/// Ingesting one flattened result tree yields an orphan-free record set.
pub proof fn lemma_tree_ingest_fk_complete(
    cdm: CDMSpecJson,
    node: RunNode,
    globals: Seq<(u128, GlobalResource)>,
    rs: RecordSet,
)
    requires
        effective_set_of(run_records(cdm, node), globals, rs),
    ensures
        record_set_fk_complete(rs),
{
    lemma_run_records_fk_complete(cdm, node);
    lemma_effective_set_fk_complete(run_records(cdm, node), globals, rs);
}


/// Whether every data point of the stream has a consistent duration.
pub open spec fn durations_ok_in(s: Seq<BodyJson>) -> bool {
    forall|i: int|
        0 <= i < s.len() ==> ((#[trigger] s[i]) matches BodyJson::MetricData(d)
            ==> metric_data_duration_ok(d))
}

proof fn lemma_metric_durations(
    cdm: CDMSpecJson,
    ru: u128,
    iu: u128,
    su: u128,
    pu: u128,
    m: MetricNode,
)
    requires
        metric_durations_fit(m),
    ensures
        durations_ok_in(metric_records(cdm, ru, iu, su, pu, m)),
{
    let recs = metric_records(cdm, ru, iu, su, pu, m);
    let f = |p: crate::ingest::Point| point_record(cdm, ru, m.metric_desc_uuid, p);
    assert forall|i: int| 0 <= i < recs.len() implies ((#[trigger] recs[i]) matches
    BodyJson::MetricData(d) ==> metric_data_duration_ok(d)) by {
        if i > 0 {
            assert(recs[i] == m.data@.map_values(f)[i - 1]);
            assert(recs[i] == f(m.data@[i - 1]));
            assert(point_duration_fits(m.data@[i - 1]));
        }
    }
}

proof fn lemma_metrics_durations(
    cdm: CDMSpecJson,
    ru: u128,
    iu: u128,
    su: u128,
    pu: u128,
    ms: Seq<MetricNode>,
)
    requires
        forall|i: int| 0 <= i < ms.len() ==> metric_durations_fit(#[trigger] ms[i]),
    ensures
        durations_ok_in(metrics_records(cdm, ru, iu, su, pu, ms)),
    decreases ms.len(),
{
    if ms.len() > 0 {
        lemma_metric_durations(cdm, ru, iu, su, pu, ms[0]);
        lemma_metrics_durations(cdm, ru, iu, su, pu, ms.skip(1));
        let head = metric_records(cdm, ru, iu, su, pu, ms[0]);
        let tail = metrics_records(cdm, ru, iu, su, pu, ms.skip(1));
        let recs = metrics_records(cdm, ru, iu, su, pu, ms);
        assert forall|i: int| 0 <= i < recs.len() implies ((#[trigger] recs[i]) matches
        BodyJson::MetricData(d) ==> metric_data_duration_ok(d)) by {
            if i < head.len() {
                assert(recs[i] == head[i]);
            } else {
                assert(recs[i] == tail[i - head.len()]);
            }
        }
    }
}

proof fn lemma_period_durations(cdm: CDMSpecJson, ru: u128, iu: u128, su: u128, p: PeriodNode)
    requires
        period_durations_fit(p),
    ensures
        durations_ok_in(period_records(cdm, ru, iu, su, p)),
{
    lemma_metrics_durations(cdm, ru, iu, su, p.period_uuid, p.metrics@);
    let tail = metrics_records(cdm, ru, iu, su, p.period_uuid, p.metrics@);
    let recs = period_records(cdm, ru, iu, su, p);
    assert forall|i: int| 0 <= i < recs.len() implies ((#[trigger] recs[i]) matches
    BodyJson::MetricData(d) ==> metric_data_duration_ok(d)) by {
        if i > 0 {
            assert(recs[i] == tail[i - 1]);
        }
    }
}

proof fn lemma_periods_durations(cdm: CDMSpecJson, ru: u128, iu: u128, su: u128, ps: Seq<
    PeriodNode,
>)
    requires
        forall|i: int| 0 <= i < ps.len() ==> period_durations_fit(#[trigger] ps[i]),
    ensures
        durations_ok_in(periods_records(cdm, ru, iu, su, ps)),
    decreases ps.len(),
{
    if ps.len() > 0 {
        lemma_period_durations(cdm, ru, iu, su, ps[0]);
        lemma_periods_durations(cdm, ru, iu, su, ps.skip(1));
        let head = period_records(cdm, ru, iu, su, ps[0]);
        let tail = periods_records(cdm, ru, iu, su, ps.skip(1));
        let recs = periods_records(cdm, ru, iu, su, ps);
        assert forall|i: int| 0 <= i < recs.len() implies ((#[trigger] recs[i]) matches
        BodyJson::MetricData(d) ==> metric_data_duration_ok(d)) by {
            if i < head.len() {
                assert(recs[i] == head[i]);
            } else {
                assert(recs[i] == tail[i - head.len()]);
            }
        }
    }
}

proof fn lemma_sample_durations(cdm: CDMSpecJson, ru: u128, iu: u128, s: SampleNode)
    requires
        sample_durations_fit(s),
    ensures
        durations_ok_in(sample_records(cdm, ru, iu, s)),
{
    lemma_periods_durations(cdm, ru, iu, s.sample_uuid, s.periods@);
    let tail = periods_records(cdm, ru, iu, s.sample_uuid, s.periods@);
    let recs = sample_records(cdm, ru, iu, s);
    assert forall|i: int| 0 <= i < recs.len() implies ((#[trigger] recs[i]) matches
    BodyJson::MetricData(d) ==> metric_data_duration_ok(d)) by {
        if i > 0 {
            assert(recs[i] == tail[i - 1]);
        }
    }
}

proof fn lemma_samples_durations(cdm: CDMSpecJson, ru: u128, iu: u128, ss: Seq<SampleNode>)
    requires
        forall|i: int| 0 <= i < ss.len() ==> sample_durations_fit(#[trigger] ss[i]),
    ensures
        durations_ok_in(samples_records(cdm, ru, iu, ss)),
    decreases ss.len(),
{
    if ss.len() > 0 {
        lemma_sample_durations(cdm, ru, iu, ss[0]);
        lemma_samples_durations(cdm, ru, iu, ss.skip(1));
        let head = sample_records(cdm, ru, iu, ss[0]);
        let tail = samples_records(cdm, ru, iu, ss.skip(1));
        let recs = samples_records(cdm, ru, iu, ss);
        assert forall|i: int| 0 <= i < recs.len() implies ((#[trigger] recs[i]) matches
        BodyJson::MetricData(d) ==> metric_data_duration_ok(d)) by {
            if i < head.len() {
                assert(recs[i] == head[i]);
            } else {
                assert(recs[i] == tail[i - head.len()]);
            }
        }
    }
}

proof fn lemma_iteration_durations(cdm: CDMSpecJson, ru: u128, it: IterationNode)
    requires
        iteration_durations_fit(it),
    ensures
        durations_ok_in(iteration_records(cdm, ru, it)),
{
    lemma_samples_durations(cdm, ru, it.iteration_uuid, it.samples@);
    let f = |p: crate::model::ParamSpecJson| param_record(cdm, ru, it.iteration_uuid, p);
    let pars = it.params@.map_values(f);
    let tail = samples_records(cdm, ru, it.iteration_uuid, it.samples@);
    let recs = iteration_records(cdm, ru, it);
    assert forall|i: int| 0 <= i < recs.len() implies ((#[trigger] recs[i]) matches
    BodyJson::MetricData(d) ==> metric_data_duration_ok(d)) by {
        if 1 <= i < 1 + pars.len() {
            assert(recs[i] == pars[i - 1]);
            assert(recs[i] == f(it.params@[i - 1]));
        } else if i >= 1 + pars.len() {
            assert(recs[i] == tail[i - 1 - pars.len()]);
        }
    }
}

proof fn lemma_iterations_durations(cdm: CDMSpecJson, ru: u128, its: Seq<IterationNode>)
    requires
        forall|i: int| 0 <= i < its.len() ==> iteration_durations_fit(#[trigger] its[i]),
    ensures
        durations_ok_in(iterations_records(cdm, ru, its)),
    decreases its.len(),
{
    if its.len() > 0 {
        lemma_iteration_durations(cdm, ru, its[0]);
        lemma_iterations_durations(cdm, ru, its.skip(1));
        let head = iteration_records(cdm, ru, its[0]);
        let tail = iterations_records(cdm, ru, its.skip(1));
        let recs = iterations_records(cdm, ru, its);
        assert forall|i: int| 0 <= i < recs.len() implies ((#[trigger] recs[i]) matches
        BodyJson::MetricData(d) ==> metric_data_duration_ok(d)) by {
            if i < head.len() {
                assert(recs[i] == head[i]);
            } else {
                assert(recs[i] == tail[i - head.len()]);
            }
        }
    }
}

/// Every data point of a flattened result tree carries `finish - begin`
/// milliseconds as its duration.
pub proof fn lemma_run_records_durations(cdm: CDMSpecJson, node: RunNode)
    requires
        run_node_durations_fit(node),
    ensures
        durations_ok_in(run_records(cdm, node)),
{
    lemma_iterations_durations(cdm, node.run_uuid, node.iterations@);
    let f = |t: crate::ingest::TagNode| tag_record(cdm, node.run_uuid, t);
    let tags = node.tags@.map_values(f);
    let tail = iterations_records(cdm, node.run_uuid, node.iterations@);
    let recs = run_records(cdm, node);
    assert forall|i: int| 0 <= i < recs.len() implies ((#[trigger] recs[i]) matches
    BodyJson::MetricData(d) ==> metric_data_duration_ok(d)) by {
        if 1 <= i < 1 + tags.len() {
            assert(recs[i] == tags[i - 1]);
            assert(recs[i] == f(node.tags@[i - 1]));
        } else if i >= 1 + tags.len() {
            assert(recs[i] == tail[i - 1 - tags.len()]);
        }
    }
}

/// Every data point of the effective record set — the stream's own points
/// and each run's synthesized placeholder point — carries `finish - begin`
/// milliseconds as its duration, provided the stream's points do.
pub proof fn lemma_effective_set_durations(
    s: Seq<BodyJson>,
    globals: Seq<(u128, GlobalResource)>,
    rs: RecordSet,
)
    requires
        durations_ok_in(s),
        effective_set_of(s, globals, rs),
    ensures
        forall|i: int|
            0 <= i < rs.metric_datas@.len() ==> metric_data_duration_ok(
                #[trigger] rs.metric_datas@[i],
            ),
{
    let n_dat = metric_datas_of(s).len() as int;
    lemma_metric_datas_mem(s);
    assert forall|i: int| 0 <= i < rs.metric_datas@.len() implies metric_data_duration_ok(
        #[trigger] rs.metric_datas@[i],
    ) by {
        if i < n_dat {
            let d = rs.metric_datas@[i];
            assert(d == metric_datas_of(s)[i]) by {
                assert(rs.metric_datas@.take(n_dat)[i] == rs.metric_datas@[i]);
            }
            let jj = choose|j: int| 0 <= j < s.len() && s[j] == BodyJson::MetricData(d);
            assert(s[jj] matches BodyJson::MetricData(dd) && dd == d);
        } else {
            let g = i - n_dat;
            assert(metric_data_like(rs.metric_datas@[n_dat + g], globals[g].1.metric_data));
        }
    }
}

} // verus!
