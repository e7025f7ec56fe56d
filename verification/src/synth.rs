//! The placeholder synthesizer: a complete Iteration → Sample → Period →
//! MetricDesc chain anchored to a run, used when metric data is reported at
//! run granularity without natural parents.  Sentinel field values make the
//! synthesized records visually distinguishable from authored ones.

use vstd::prelude::*;

use crate::model::{
    CDMSpecJson, IterationFKJson, IterationJson, IterationSpecJson, MetricDataJson,
    MetricDataSpecJson, MetricDescFKJson, MetricDescJson, MetricDescSpecJson, PeriodFKJson,
    PeriodJson, PeriodSpecJson, RunFKJson, RunJson, SampleFKJson, SampleJson, SampleSpecJson,
};

verus! {

/// The synthesized chain of one run, retained for the duration of one
/// ingestion so later stages can resolve the placeholder metric descriptor.
#[derive(Debug, PartialEq)]
pub struct GlobalResource {
    pub iteration: IterationJson,
    pub sample: SampleJson,
    pub period: PeriodJson,
    pub metric_desc: MetricDescJson,
    pub metric_data: MetricDataJson,
}

/// Relies on uuid's `Uuid::new_v4` for a fresh random identifier: the
/// version nibble of the 128-bit value is always 4, the rest is random.
#[verifier::external_body]
fn fresh_uuid() -> (r: u128)
    ensures
        (r >> 76) & 0xf == 4,
{
    uuid::Uuid::new_v4().as_u128()
}

impl IterationJson {
    /// The placeholder iteration of a run.
    pub fn global(parent_uuid: u128, my_uuid: u128) -> (r: IterationJson)
        ensures
            r.cdm.ver@ == "v8dev"@,
            r.iteration.iteration_uuid == my_uuid,
            r.iteration.num == 0,
            r.iteration.primary_metric@ == "global"@,
            r.iteration.primary_period@ == "global"@,
            r.iteration.status@ == "pass"@,
            r.iteration.path is None,
            r.run.run_uuid == parent_uuid,
    {
        IterationJson {
            cdm: CDMSpecJson { ver: String::from_str("v8dev") },
            iteration: IterationSpecJson {
                iteration_uuid: my_uuid,
                num: 0,
                primary_metric: String::from_str("global"),
                primary_period: String::from_str("global"),
                status: String::from_str("pass"),
                path: Option::None,
            },
            run: RunFKJson { run_uuid: parent_uuid },
        }
    }
}

impl SampleJson {
    /// The placeholder sample of a run's placeholder iteration.
    pub fn global(parent_uuid: u128, my_uuid: u128) -> (r: SampleJson)
        ensures
            r.cdm.ver@ == "v8dev"@,
            r.sample.sample_uuid == my_uuid,
            r.sample.path is None,
            r.sample.status@ == "pass"@,
            r.sample.num == 0,
            r.iteration.iteration_uuid == parent_uuid,
            r.run.run_uuid == 0,
    {
        SampleJson {
            cdm: CDMSpecJson { ver: String::from_str("v8dev") },
            sample: SampleSpecJson {
                sample_uuid: my_uuid,
                path: Option::None,
                status: String::from_str("pass"),
                num: 0,
            },
            iteration: IterationFKJson { iteration_uuid: parent_uuid },
            run: RunFKJson { run_uuid: 0 },
        }
    }
}

impl PeriodJson {
    /// The placeholder period of a run's placeholder sample.
    pub fn global(parent_uuid: u128, my_uuid: u128) -> (r: PeriodJson)
        ensures
            r.cdm.ver@ == "v8dev"@,
            r.period.period_uuid == my_uuid,
            r.period.begin == 0,
            r.period.end == 0,
            r.period.name@ == "global"@,
            r.iteration.iteration_uuid == 0,
            r.run.run_uuid == 0,
            r.sample.sample_uuid == parent_uuid,
    {
        PeriodJson {
            cdm: CDMSpecJson { ver: String::from_str("v8dev") },
            period: PeriodSpecJson {
                period_uuid: my_uuid,
                begin: 0,
                end: 0,
                name: String::from_str("global"),
            },
            iteration: IterationFKJson { iteration_uuid: 0 },
            run: RunFKJson { run_uuid: 0 },
            sample: SampleFKJson { sample_uuid: parent_uuid },
        }
    }
}

impl MetricDescJson {
    /// The placeholder metric descriptor of a run's placeholder period.
    pub fn global(parent_uuid: u128, my_uuid: u128) -> (r: MetricDescJson)
        ensures
            r.cdm.ver@ == "v8dev"@,
            r.metric_desc.metric_desc_uuid == my_uuid,
            r.metric_desc.class@ == "count"@,
            r.metric_desc.names@ == Seq::<crate::model::NameVal>::empty(),
            r.metric_desc.names_list@ == Seq::<String>::empty(),
            r.metric_desc.source@ == "global"@,
            r.metric_desc.metric_type@ == "global"@,
            r.iteration is None,
            r.period == Option::Some(PeriodFKJson { period_uuid: parent_uuid }),
            r.run.run_uuid == 0,
            r.sample is None,
    {
        let r = MetricDescJson {
            cdm: CDMSpecJson { ver: String::from_str("v8dev") },
            metric_desc: MetricDescSpecJson {
                metric_desc_uuid: my_uuid,
                class: String::from_str("count"),
                names: Vec::new(),
                names_list: Vec::new(),
                source: String::from_str("global"),
                metric_type: String::from_str("global"),
            },
            iteration: Option::None,
            period: Option::Some(PeriodFKJson { period_uuid: parent_uuid }),
            run: RunFKJson { run_uuid: 0 },
            sample: Option::None,
        };
        proof {
            assert(r.metric_desc.names@ =~= Seq::<crate::model::NameVal>::empty());
            assert(r.metric_desc.names_list@ =~= Seq::<String>::empty());
        }
        r
    }
}

impl MetricDataJson {
    /// The placeholder data point of a run's placeholder metric descriptor.
    pub fn global(parent_uuid: u128) -> (r: MetricDataJson)
        ensures
            r.cdm.ver@ == "v8dev"@,
            r.metric_data.begin == 0,
            r.metric_data.end == 0,
            r.metric_data.duration == 0,
            r.metric_data.value == 0,
            r.metric_desc.metric_desc_uuid == parent_uuid,
            r.run.run_uuid == 0,
    {
        MetricDataJson {
            cdm: CDMSpecJson { ver: String::from_str("v8dev") },
            metric_data: MetricDataSpecJson { begin: 0, end: 0, duration: 0, value: 0 },
            metric_desc: MetricDescFKJson { metric_desc_uuid: parent_uuid },
            run: RunFKJson { run_uuid: 0 },
        }
    }
}

/// The structural facts that hold of a synthesized chain for `run_uuid`:
/// every level references the one above, and the sentinel values are set.
pub open spec fn global_resource_wf(run_uuid: u128, g: GlobalResource) -> bool {
    &&& g.iteration.cdm.ver@ == "v8dev"@
    &&& g.iteration.run.run_uuid == run_uuid
    &&& g.iteration.iteration.status@ == "pass"@
    &&& g.iteration.iteration.num == 0
    &&& g.iteration.iteration.primary_metric@ == "global"@
    &&& g.iteration.iteration.primary_period@ == "global"@
    &&& g.iteration.iteration.path is None
    &&& g.sample.cdm.ver@ == "v8dev"@
    &&& g.sample.iteration.iteration_uuid == g.iteration.iteration.iteration_uuid
    &&& g.sample.sample.status@ == "pass"@
    &&& g.sample.sample.num == 0
    &&& g.sample.sample.path is None
    &&& g.sample.run.run_uuid == 0
    &&& g.period.cdm.ver@ == "v8dev"@
    &&& g.period.sample.sample_uuid == g.sample.sample.sample_uuid
    &&& g.period.period.name@ == "global"@
    &&& g.period.period.begin == 0
    &&& g.period.period.end == 0
    &&& g.period.iteration.iteration_uuid == 0
    &&& g.period.run.run_uuid == 0
    &&& g.metric_desc.cdm.ver@ == "v8dev"@
    &&& g.metric_desc.period == Option::Some(
        PeriodFKJson { period_uuid: g.period.period.period_uuid },
    )
    &&& g.metric_desc.metric_desc.class@ == "count"@
    &&& g.metric_desc.metric_desc.source@ == "global"@
    &&& g.metric_desc.metric_desc.metric_type@ == "global"@
    &&& g.metric_desc.metric_desc.names@ == Seq::<crate::model::NameVal>::empty()
    &&& g.metric_desc.metric_desc.names_list@ == Seq::<String>::empty()
    &&& g.metric_desc.iteration is None
    &&& g.metric_desc.sample is None
    &&& g.metric_desc.run.run_uuid == 0
    &&& g.metric_data.cdm.ver@ == "v8dev"@
    &&& g.metric_data.metric_desc.metric_desc_uuid
        == g.metric_desc.metric_desc.metric_desc_uuid
    &&& g.metric_data.metric_data.begin == 0
    &&& g.metric_data.metric_data.end == 0
    &&& g.metric_data.metric_data.duration == 0
    &&& g.metric_data.metric_data.value == 0
    &&& g.metric_data.run.run_uuid == 0
}

impl GlobalResource {
    /// Builds the chain for `run_uuid` from four fresh identifiers.
    pub fn chain(run_uuid: u128, iteration_uuid: u128, sample_uuid: u128, period_uuid: u128,
        metric_desc_uuid: u128) -> (r: GlobalResource)
        ensures
            global_resource_wf(run_uuid, r),
            r.iteration.iteration.iteration_uuid == iteration_uuid,
            r.sample.sample.sample_uuid == sample_uuid,
            r.period.period.period_uuid == period_uuid,
            r.metric_desc.metric_desc.metric_desc_uuid == metric_desc_uuid,
    {
        GlobalResource {
            iteration: IterationJson::global(run_uuid, iteration_uuid),
            sample: SampleJson::global(iteration_uuid, sample_uuid),
            period: PeriodJson::global(sample_uuid, period_uuid),
            metric_desc: MetricDescJson::global(period_uuid, metric_desc_uuid),
            metric_data: MetricDataJson::global(metric_desc_uuid),
        }
    }
}

/// Synthesizes one placeholder chain per run, with fresh identifiers, keyed
/// by the run's UUID in run order.
pub fn synthesize_globals(runs: &Vec<RunJson>) -> (g: Vec<(u128, GlobalResource)>)
    ensures
        g@.len() == runs@.len(),
        forall|i: int|
            0 <= i < g@.len() ==> (#[trigger] g@[i]).0 == runs@[i].run.run_uuid
                && global_resource_wf(g@[i].0, g@[i].1),
{
    let mut g: Vec<(u128, GlobalResource)> = Vec::new();
    let mut i: usize = 0;
    while i < runs.len()
        invariant
            0 <= i <= runs.len(),
            g@.len() == i,
            forall|k: int|
                0 <= k < g@.len() ==> (#[trigger] g@[k]).0 == runs@[k].run.run_uuid
                    && global_resource_wf(g@[k].0, g@[k].1),
        decreases runs.len() - i,
    {
        let iteration_uuid = fresh_uuid();
        let sample_uuid = fresh_uuid();
        let period_uuid = fresh_uuid();
        let metric_desc_uuid = fresh_uuid();
        let run_uuid = runs[i].run.run_uuid;
        let gr = GlobalResource::chain(
            run_uuid,
            iteration_uuid,
            sample_uuid,
            period_uuid,
            metric_desc_uuid,
        );
        g.push((run_uuid, gr));
        i = i + 1;
    }
    g
}

/// The placeholder period of `run_uuid`'s chain, if one was synthesized;
/// with duplicate run UUIDs the latest chain wins, as a map insert would.
pub open spec fn spec_lookup_global_period(
    g: Seq<(u128, GlobalResource)>,
    run_uuid: u128,
) -> Option<u128>
    decreases g.len(),
{
    if g.len() == 0 {
        Option::None
    } else if g.last().0 == run_uuid {
        Option::Some(g.last().1.period.period.period_uuid)
    } else {
        spec_lookup_global_period(g.drop_last(), run_uuid)
    }
}

/// Looks up the placeholder period of `run_uuid`'s chain.
pub fn lookup_global_period(g: &Vec<(u128, GlobalResource)>, run_uuid: u128) -> (r: Option<u128>)
    ensures
        r == spec_lookup_global_period(g@, run_uuid),
{
    let mut i: usize = g.len();
    proof {
        assert(g@.take(i as int) =~= g@);
    }
    while i > 0
        invariant
            0 <= i <= g@.len(),
            spec_lookup_global_period(g@, run_uuid) == spec_lookup_global_period(
                g@.take(i as int),
                run_uuid,
            ),
        decreases i,
    {
        i = i - 1;
        if g[i].0 == run_uuid {
            proof {
                assert(g@.take(i + 1).last() == g@[i as int]);
            }
            return Option::Some(g[i].1.period.period.period_uuid);
        }
        proof {
            assert(g@.take(i + 1).drop_last() =~= g@.take(i as int));
            assert(g@.take(i + 1).last() == g@[i as int]);
        }
    }
    proof {
        assert(g@.take(0) =~= Seq::<(u128, GlobalResource)>::empty());
    }
    Option::None
}

} // verus!
