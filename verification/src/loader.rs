//! The loader: plans the registration of the stats that a configuration
//! defines outright, without templates and without parameters.

use vstd::prelude::*;
use crate::config::{SourceConfig, StatConfig, StatDefinition, TransformConfig};
use crate::error::{outcome, YamlStatError};
use crate::number::Number;
use crate::plan::{
    in_turn,
    lemma_and_next_assoc,
    lemma_and_next_nothing,
    lemma_in_turn_next,
    Plan,
    PlanModel,
};
use crate::table::{Table, ValueTable};
use crate::application::{source_step, transform_step};
use crate::compile::{compiled, compiled_source, compiled_transform};
use crate::template::{plan_sources, plan_transforms, StatTemplateManager};
use crate::transform::{SourceUnit, TransformUnit};

verus! {

/// Plans the registration of the stats of a configuration.
#[derive(Debug)]
pub struct StatLoader;

/// What the sources of one stat do to a plan. There are no parameters.
pub open spec fn stat_sources_step() -> spec_fn((Seq<char>, StatDefinition)) -> PlanModel {
    |entry: (Seq<char>, StatDefinition)|
        in_turn(entry.1.sources@, source_step(entry.0, Map::<Seq<char>, Number>::empty()))
}

/// What the transforms of one stat do to a plan. There are no parameters,
/// and the names of other stats are global.
pub open spec fn stat_transforms_step() -> spec_fn((Seq<char>, StatDefinition)) -> PlanModel {
    |entry: (Seq<char>, StatDefinition)|
        in_turn(
            entry.1.transforms@,
            transform_step(entry.0, Map::<Seq<char>, Number>::empty(), Seq::<char>::empty()),
        )
}

/// The plan of the stats of a configuration: first the sources of every
/// stat, then the transforms of every stat, the stats in the order of
/// their entries.
pub open spec fn loaded(stats: Seq<(Seq<char>, StatDefinition)>) -> PlanModel {
    in_turn(stats, stat_sources_step()).and_next(in_turn(stats, stat_transforms_step()))
}

/// What one pass over the stats does for one stat: its sources in the
/// first pass, its transforms in the second.
pub open spec fn stat_step(sources: bool) -> spec_fn((Seq<char>, StatDefinition)) -> PlanModel {
    if sources {
        stat_sources_step()
    } else {
        stat_transforms_step()
    }
}

/// Puts behind a plan the sources of every stat, or the transforms of
/// every stat, the stats in the order of their entries.
fn plan_pass(plan: &mut Plan, stats: &Table<StatDefinition>, sources: bool)
    ensures
        final(plan)@ == old(plan)@.and_next(in_turn(stats.entries(), stat_step(sources))),
{
    let ghost start = plan@;
    let ghost entries = stats.entries();
    let ghost step = stat_step(sources);
    let params = ValueTable::new();
    let empty = "";
    proof {
        reveal_strlit("");
        assert(empty@ == Seq::<char>::empty());
        assert(entries.take(0) == Seq::<(Seq<char>, StatDefinition)>::empty());
        lemma_and_next_nothing(start);
    }
    let mut i: usize = 0;
    while i < stats.len()
        invariant
            i <= entries.len(),
            entries == stats.entries(),
            step == stat_step(sources),
            params@ == Map::<Seq<char>, Number>::empty(),
            empty@ == Seq::<char>::empty(),
            plan@ == start.and_next(in_turn(entries.take(i as int), step)),
        decreases entries.len() - i,
    {
        proof {
            lemma_in_turn_next(entries, step, i as int);
            lemma_and_next_assoc(
                start,
                in_turn(entries.take(i as int), step),
                step(entries[i as int]),
            );
        }
        if sources {
            plan_sources(plan, stats.key_at(i).as_str(), &stats.value_at(i).sources, &params);
        } else {
            plan_transforms(
                plan,
                stats.key_at(i).as_str(),
                &stats.value_at(i).transforms,
                &params,
                empty,
            );
        }
        i += 1;
    }
    assert(entries.take(i as int) == entries);
}

impl StatLoader {
    /// Plans the registration of the stats that a configuration defines.
    pub fn build_resolver(config: &StatConfig) -> (plan: Plan)
        ensures
            plan@ == loaded(config.stats.entries()),
    {
        let mut plan = Plan::new();
        plan_pass(&mut plan, &config.stats, true);
        plan_pass(&mut plan, &config.stats, false);
        proof {
            lemma_and_next_nothing(in_turn(config.stats.entries(), stat_sources_step()));
            lemma_and_next_assoc(
                PlanModel::nothing(),
                in_turn(config.stats.entries(), stat_sources_step()),
                in_turn(config.stats.entries(), stat_transforms_step()),
            );
            lemma_and_next_nothing(loaded(config.stats.entries()));
        }
        plan
    }

    /// Compiles a source description without parameters.
    pub fn build_source(config: &SourceConfig) -> (r: Result<SourceUnit, YamlStatError>)
        ensures
            outcome(r) == compiled_source(*config, Map::<Seq<char>, Number>::empty()),
    {
        let params = ValueTable::new();
        StatTemplateManager::resolve_source(config, &params)
    }

    /// Compiles a transform description without parameters, for a global
    /// stat.
    pub fn build_transform(config: &TransformConfig) -> (r: Result<TransformUnit, YamlStatError>)
        ensures
            compiled(r) == compiled_transform(
                *config,
                Map::<Seq<char>, Number>::empty(),
                Seq::<char>::empty(),
            ),
    {
        let params = ValueTable::new();
        StatTemplateManager::resolve_transform(config, &params)
    }
}

} // verus!
