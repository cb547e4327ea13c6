//! The template manager: compiles the sources and transforms of a template
//! under a set of parameters, scopes them to the entity of the stat they
//! are applied to, and keeps a record of each application under its
//! entity.

use vstd::prelude::*;
use crate::application::{
    application_plan,
    application_step,
    applications_plan,
    completed,
    entity_applications,
    lemma_completed,
    listed_applications,
    record_models,
    record_of,
    recorded_applications,
    records_after,
    records_for,
    records_of,
    source_step,
    transform_step,
    with_record,
    with_records,
    Application,
    RecordModel,
};
use crate::compile::{compiled, compiled_source, compiled_transform, invalid_config, resolved_or};
use crate::config::{SourceConfig, SourceValue, StatConfig, StatTemplate, TransformConfig};
use crate::error::{headed, outcome, ErrorModel, YamlStatError};
use crate::number::{Number, Relation, INFINITY_BITS, NEG_INFINITY_BITS, ONE_BITS};
use crate::plan::{
    in_turn,
    lemma_and_next_assoc,
    lemma_and_next_nothing,
    lemma_in_turn_next,
    lemma_in_turn_stops,
    Plan,
    PlanModel,
    Registration,
    RegistrationModel,
};
use crate::table::{Table, ValueTable};
use crate::text::{
    entity_id_of,
    entity_of,
    entity_stat,
    join_entity_stat,
    scope_name,
    scoped_all,
    stat_type_of_name,
    texts,
};
use crate::transform::{AdditiveTransform, SourceUnit, TransformUnit};
use crate::transform_conditional::ConditionalTransform;
use crate::transform_map::MapTransform;

verus! {

/// Holds the templates, applies them, and keeps for each entity the
/// records of the applications that were made for it.
#[derive(Debug)]
pub struct StatTemplateManager {
    templates: Table<StatTemplate>,
    entity_configs: Table<Vec<EntityStatConfig>>,
}

/// The record of one template application, fit to be stored and replayed.
#[derive(Debug, PartialEq, Eq)]
pub struct EntityStatConfig {
    pub entity_id: String,
    /// The kind of stat, such as `HP`.
    pub stat_type: String,
    pub template_name: String,
    pub params: ValueTable,
}

/// The parameters of an entity.
#[derive(Debug, PartialEq, Eq)]
pub struct EntityParams {
    pub entity_id: String,
    pub params: ValueTable,
}

/// Resolves a value; what is wrong with it becomes an error of the
/// configuration under the given heading.
fn resolve_under(value: &SourceValue, params: &ValueTable, heading: &str) -> (r: Result<
    Number,
    YamlStatError,
>)
    ensures
        outcome(r) == match value.resolved(params@) {
            Ok(n) => Ok::<Number, ErrorModel>(n),
            Err(e) => Err::<Number, ErrorModel>(invalid_config(heading@, e)),
        },
{
    match value.resolve(params) {
        Ok(n) => Ok(n),
        Err(e) => Err(YamlStatError::InvalidConfig(headed(heading, e.as_str()))),
    }
}

/// Resolves a value that may be left out.
fn resolve_or(
    value: &Option<SourceValue>,
    params: &ValueTable,
    default: Number,
    heading: &str,
) -> (r: Result<Number, YamlStatError>)
    ensures
        outcome(r) == match resolved_or(*value, params@, default) {
            Ok(n) => Ok::<Number, ErrorModel>(n),
            Err(e) => Err::<Number, ErrorModel>(invalid_config(heading@, e)),
        },
{
    match value {
        Some(v) => resolve_under(v, params, heading),
        None => Ok(default),
    }
}

impl View for EntityStatConfig {
    type V = RecordModel;

    open spec fn view(&self) -> RecordModel {
        RecordModel {
            entity_id: self.entity_id@,
            stat_type: self.stat_type@,
            template_name: self.template_name@,
            params: self.params@,
        }
    }
}

/// A description that compiles to one unit of a stat.
trait Description: Sized {
    /// What compiling a description does to a plan: it registers the unit
    /// under the stat, or stops.
    spec fn step(
        stat_id: Seq<char>,
        params: Map<Seq<char>, Number>,
        entity_id: Seq<char>,
    ) -> spec_fn(Self) -> PlanModel;

    /// Compiles the description for a stat of the given entity.
    fn registration(&self, stat_name: &str, params: &ValueTable, entity_id: &str) -> (r: Result<
        Registration,
        YamlStatError,
    >)
        ensures
            Self::step(stat_name@, params@, entity_id@)(*self) == match r {
                Ok(registration) => PlanModel::one(registration@),
                Err(e) => PlanModel::failed(e@),
            },
    ;
}

impl Description for SourceConfig {
    spec fn step(
        stat_id: Seq<char>,
        params: Map<Seq<char>, Number>,
        entity_id: Seq<char>,
    ) -> spec_fn(SourceConfig) -> PlanModel {
        source_step(stat_id, params)
    }

    fn registration(&self, stat_name: &str, params: &ValueTable, entity_id: &str) -> (r: Result<
        Registration,
        YamlStatError,
    >) {
        match StatTemplateManager::resolve_source(self, params) {
            Ok(unit) => Ok(Registration::Source { stat_id: stat_name.to_owned(), unit }),
            Err(e) => Err(e),
        }
    }
}

impl Description for TransformConfig {
    spec fn step(
        stat_id: Seq<char>,
        params: Map<Seq<char>, Number>,
        entity_id: Seq<char>,
    ) -> spec_fn(TransformConfig) -> PlanModel {
        transform_step(stat_id, params, entity_id)
    }

    fn registration(&self, stat_name: &str, params: &ValueTable, entity_id: &str) -> (r: Result<
        Registration,
        YamlStatError,
    >) {
        match StatTemplateManager::resolve_transform_with_entity(self, params, entity_id) {
            Ok(unit) => Ok(Registration::Transform { stat_id: stat_name.to_owned(), unit }),
            Err(e) => Err(e),
        }
    }
}

/// Puts the units of a list of descriptions behind a plan, under the name
/// of a stat, unless the plan has stopped.
fn plan_units<T: Description>(
    plan: &mut Plan,
    stat_name: &str,
    units: &Vec<T>,
    params: &ValueTable,
    entity_id: &str,
)
    ensures
        final(plan)@ == old(plan)@.and_next(
            in_turn(units@, T::step(stat_name@, params@, entity_id@)),
        ),
{
    if !plan.is_complete() {
        return ;
    }
    let ghost start = plan@;
    let ghost step = T::step(stat_name@, params@, entity_id@);
    proof {
        assert(units@.take(0) == Seq::<T>::empty());
        lemma_and_next_nothing(start);
    }
    let mut i: usize = 0;
    while i < units.len()
        invariant
            i <= units.len(),
            start == old(plan)@,
            start.error is None,
            plan@.error is None,
            step == T::step(stat_name@, params@, entity_id@),
            plan@ == start.and_next(in_turn(units@.take(i as int), step)),
        decreases units.len() - i,
    {
        proof {
            lemma_in_turn_next(units@, step, i as int);
            lemma_and_next_assoc(
                start,
                in_turn(units@.take(i as int), step),
                step(units@[i as int]),
            );
        }
        match units[i].registration(stat_name, params, entity_id) {
            Ok(registration) => {
                plan.push(registration);
            },
            Err(e) => {
                plan.fail(e);
                proof {
                    lemma_in_turn_stops(units@, step, i + 1);
                }
                return ;
            },
        }
        i += 1;
    }
    assert(units@.take(i as int) == units@);
}

/// Puts the sources of a list behind a plan, under the name of a stat,
/// unless the plan has stopped.
pub fn plan_sources(
    plan: &mut Plan,
    stat_name: &str,
    sources: &Vec<SourceConfig>,
    params: &ValueTable,
)
    ensures
        final(plan)@ == old(plan)@.and_next(in_turn(sources@, source_step(stat_name@, params@))),
{
    plan_units(plan, stat_name, sources, params, "");
}

/// Puts the transforms of a list behind a plan, under the name of a stat
/// of the given entity, unless the plan has stopped.
pub fn plan_transforms(
    plan: &mut Plan,
    stat_name: &str,
    transforms: &Vec<TransformConfig>,
    params: &ValueTable,
    entity_id: &str,
)
    ensures
        final(plan)@ == old(plan)@.and_next(
            in_turn(transforms@, transform_step(stat_name@, params@, entity_id@)),
        ),
{
    plan_units(plan, stat_name, transforms, params, entity_id);
}

/// The entity that a list is loaded for, if it is loaded for one.
pub open spec fn named_entity(entity: Option<&str>) -> Option<Seq<char>> {
    match entity {
        Some(entity_id) => Some(entity_id@),
        None => None,
    }
}

/// What asks for a template to be applied.
trait Request: Sized {
    /// The application that is asked for, where the list it stands in is
    /// loaded for the given entity or for none.
    spec fn application(self, entity: Option<Seq<char>>) -> Application;

    /// Puts the application behind a plan.
    fn plan_onto(&self, manager: &StatTemplateManager, plan: &mut Plan, entity: Option<&str>)
        ensures
            final(plan)@ == old(plan)@.and_next(
                application_plan(manager.templates(), self.application(named_entity(entity))),
            ),
    ;
}

/// The applications that a list asks for.
spec fn requested<T: Request>(requests: Seq<T>, entity: Option<Seq<char>>) -> Seq<Application> {
    requests.map_values(|request: T| request.application(entity))
}

impl Request for (String, String, ValueTable) {
    spec fn application(self, entity: Option<Seq<char>>) -> Application {
        Application { template_name: self.0@, stat_name: self.1@, params: self.2@ }
    }

    fn plan_onto(&self, manager: &StatTemplateManager, plan: &mut Plan, entity: Option<&str>) {
        manager.plan_application(plan, self.0.as_str(), self.1.as_str(), &self.2);
    }
}

impl Request for EntityStatConfig {
    spec fn application(self, entity: Option<Seq<char>>) -> Application {
        Application {
            template_name: self.template_name@,
            stat_name: entity_stat(
                match entity {
                    Some(entity_id) => entity_id,
                    None => self.entity_id@,
                },
                self.stat_type@,
            ),
            params: self.params@,
        }
    }

    fn plan_onto(&self, manager: &StatTemplateManager, plan: &mut Plan, entity: Option<&str>) {
        let stat_id = match entity {
            Some(entity_id) => StatTemplateManager::entity_stat_id(
                entity_id,
                self.stat_type.as_str(),
            ),
            None => StatTemplateManager::entity_stat_id(
                self.entity_id.as_str(),
                self.stat_type.as_str(),
            ),
        };
        manager.plan_application(plan, self.template_name.as_str(), stat_id.as_str(), &self.params);
    }
}

proof fn lemma_completed_step(
    templates: Map<Seq<char>, StatTemplate>,
    applications: Seq<Application>,
    i: int,
)
    requires
        0 <= i < applications.len(),
        completed(templates, applications) == i + completed(templates, applications.skip(i)),
        application_plan(templates, applications[i]).error is None,
    ensures
        completed(templates, applications) == i + 1 + completed(
            templates,
            applications.skip(i + 1),
        ),
{
    assert(applications.skip(i).drop_first() == applications.skip(i + 1));
}

impl StatTemplateManager {
    /// The templates by name.
    pub closed spec fn templates(&self) -> Map<Seq<char>, StatTemplate> {
        self.templates@
    }

    /// The records of the applications that were made, by entity.
    pub closed spec fn records(&self) -> Map<Seq<char>, Seq<RecordModel>> {
        Map::new(
            |entity_id: Seq<char>| self.entity_configs@.contains_key(entity_id),
            |entity_id: Seq<char>| record_models(self.entity_configs@[entity_id]@),
        )
    }

    /// The manager of the templates of a configuration. It has no records.
    pub fn from_config(config: StatConfig) -> (r: Result<Self, YamlStatError>)
        ensures
            r matches Ok(manager) && manager.templates() == config.templates@
                && manager.records() == Map::<Seq<char>, Seq<RecordModel>>::empty(),
    {
        let manager = StatTemplateManager {
            templates: config.templates,
            entity_configs: Table::new(),
        };
        assert(manager.records() == Map::<Seq<char>, Seq<RecordModel>>::empty());
        Ok(manager)
    }

    /// The table of templates, for those who store it.
    pub fn template_table(&self) -> (table: &Table<StatTemplate>)
        ensures
            table@ == self.templates(),
    {
        &self.templates
    }

    /// The records of an entity, if an application was recorded for it.
    pub fn entity_records(&self, entity_id: &str) -> (list: Option<&Vec<EntityStatConfig>>)
        ensures
            list is Some == self.records().contains_key(entity_id@),
            list matches Some(l) ==> record_models(l@) == self.records()[entity_id@],
    {
        self.entity_configs.get(entity_id)
    }

    /// The identifier of an entity's stat: `entity_id:stat_type`.
    pub fn entity_stat_id(entity_id: &str, stat_type: &str) -> (id: String)
        ensures
            id@ == entity_stat(entity_id@, stat_type@),
    {
        join_entity_stat(entity_id, stat_type)
    }

    /// Puts one application behind a plan.
    fn plan_application(
        &self,
        plan: &mut Plan,
        template_name: &str,
        stat_name: &str,
        params: &ValueTable,
    )
        ensures
            final(plan)@ == old(plan)@.and_next(
                application_plan(
                    self.templates(),
                    Application {
                        template_name: template_name@,
                        stat_name: stat_name@,
                        params: params@,
                    },
                ),
            ),
    {
        let ghost start = plan@;
        match self.templates.get(template_name) {
            None => {
                plan.fail(
                    YamlStatError::InvalidConfig(headed("Template not found: ", template_name)),
                );
            },
            Some(template) => {
                let entity_id = entity_id_of(stat_name);
                plan_sources(plan, stat_name, &template.sources, params);
                plan_transforms(plan, stat_name, &template.transforms, params, entity_id.as_str());
                proof {
                    lemma_and_next_assoc(
                        start,
                        in_turn(template.sources@, source_step(stat_name@, params@)),
                        in_turn(
                            template.transforms@,
                            transform_step(stat_name@, params@, entity_of(stat_name@)),
                        ),
                    );
                }
            },
        }
    }

    /// Plans the applications that a list asks for, one after the other,
    /// up to the first that stops, and counts those that came to their
    /// end.
    fn plan_requests<T: Request>(&self, requests: &[T], entity: Option<&str>) -> (r: (Plan, usize))
        ensures
            r.0@ == applications_plan(self.templates(), requested(requests@, named_entity(entity))),
            r.1 == completed(self.templates(), requested(requests@, named_entity(entity))),
    {
        let ghost items = requested(requests@, named_entity(entity));
        let ghost step = application_step(self.templates());
        let mut plan = Plan::new();
        assert(items.take(0) == Seq::<Application>::empty());
        assert(items.skip(0) == items);
        let mut i: usize = 0;
        while i < requests.len()
            invariant
                i <= requests.len(),
                items == requested(requests@, named_entity(entity)),
                step == application_step(self.templates()),
                plan@.error is None,
                plan@ == in_turn(items.take(i as int), step),
                completed(self.templates(), items) == i + completed(
                    self.templates(),
                    items.skip(i as int),
                ),
            decreases requests.len() - i,
        {
            proof {
                lemma_in_turn_next(items, step, i as int);
                lemma_and_next_nothing(step(items[i as int]));
            }
            requests[i].plan_onto(self, &mut plan, entity);
            if !plan.is_complete() {
                proof {
                    lemma_in_turn_stops(items, step, i + 1);
                    assert(items.skip(i as int).first() == items[i as int]);
                }
                return (plan, i);
            }
            proof {
                lemma_completed_step(self.templates(), items, i as int);
            }
            i += 1;
        }
        assert(items.take(i as int) == items);
        (plan, i)
    }

    /// Puts a record behind those of its entity.
    fn record(&mut self, config: EntityStatConfig)
        ensures
            final(self).templates() == old(self).templates(),
            final(self).records() == with_record(old(self).records(), config@),
    {
        let ghost before = self.records();
        let key = config.entity_id.clone();
        let held = self.entity_configs.insert(config.entity_id.clone(), Vec::new());
        let mut list = match held {
            Some(list) => list,
            None => Vec::new(),
        };
        assert(record_models(list@) == records_of(before, key@));
        let ghost held_before = list@;
        list.push(config);
        assert(record_models(list@) == record_models(held_before).push(config@));
        self.entity_configs.insert(key, list);
        assert(self.records() =~= before.insert(key@, record_models(list@)));
    }

    /// The record of an application: the entity and the stat type that the
    /// name of the stat gives, the name of the template, the parameters.
    fn record_for(template_name: &str, stat_name: &str, params: &ValueTable) -> (config:
        EntityStatConfig)
        ensures
            config@ == record_of(
                Application {
                    template_name: template_name@,
                    stat_name: stat_name@,
                    params: params@,
                },
            ),
    {
        EntityStatConfig {
            entity_id: entity_id_of(stat_name),
            stat_type: stat_type_of_name(stat_name),
            template_name: template_name.to_owned(),
            params: params.duplicate(),
        }
    }

    /// Applies a template to a stat under the given parameters.
    ///
    /// The plan holds the units to register under `stat_name`: the sources
    /// of the template in their order, then its transforms in theirs. The
    /// entity of the stat is what stands before the first colon of its
    /// name; a name without a colon is global. A template that the manager
    /// does not hold, or a source or transform that does not compile, stops
    /// the plan with what came before it.
    ///
    /// An application that comes to its end is recorded behind the records
    /// of its entity; one that stops is not. The templates stay as they
    /// are.
    pub fn apply_template(
        &mut self,
        template_name: &str,
        stat_name: &str,
        params: &ValueTable,
    ) -> (plan: Plan)
        ensures
            plan@ == application_plan(
                old(self).templates(),
                Application {
                    template_name: template_name@,
                    stat_name: stat_name@,
                    params: params@,
                },
            ),
            final(self).templates() == old(self).templates(),
            final(self).records() == if plan@.error is None {
                with_record(
                    old(self).records(),
                    record_of(
                        Application {
                            template_name: template_name@,
                            stat_name: stat_name@,
                            params: params@,
                        },
                    ),
                )
            } else {
                old(self).records()
            },
    {
        let mut plan = Plan::new();
        self.plan_application(&mut plan, template_name, stat_name, params);
        proof {
            lemma_and_next_nothing(plan@);
        }
        if plan.is_complete() {
            self.record(Self::record_for(template_name, stat_name, params));
        }
        plan
    }

    /// Applies several templates, one after the other, up to the first
    /// application that stops. Each application that comes to its end is
    /// recorded, in the order of the list.
    pub fn apply_templates(&mut self, applications: &[(String, String, ValueTable)]) -> (plan: Plan)
        ensures
            plan@ == applications_plan(old(self).templates(), listed_applications(applications@)),
            final(self).templates() == old(self).templates(),
            final(self).records() == records_after(
                old(self).records(),
                old(self).templates(),
                listed_applications(applications@),
            ),
    {
        let ghost items = listed_applications(applications@);
        assert(requested(applications@, None) =~= items);
        let (plan, done) = self.plan_requests(applications, None);
        proof {
            lemma_completed(self.templates(), items);
        }
        let ghost before = self.records();
        assert(items.take(0) == Seq::<Application>::empty());
        let mut i: usize = 0;
        while i < done
            invariant
                i <= done <= applications.len(),
                items == listed_applications(applications@),
                self.templates() == old(self).templates(),
                before == old(self).records(),
                self.records() == with_records(before, records_for(items.take(i as int))),
            decreases done - i,
        {
            let item = &applications[i];
            proof {
                assert(items.take(i + 1).drop_last() == items.take(i as int));
                assert(records_for(items.take(i + 1)).drop_last() == records_for(
                    items.take(i as int),
                ));
            }
            self.record(Self::record_for(item.0.as_str(), item.1.as_str(), &item.2));
            i += 1;
        }
        plan
    }

    /// Loads the stats of one entity: applies each record to the stat of
    /// its type that belongs to `entity_id`. Nothing is recorded.
    pub fn load_entity(&self, entity_id: &str, stat_configs: Vec<EntityStatConfig>) -> (plan: Plan)
        ensures
            plan@ == applications_plan(
                self.templates(),
                entity_applications(entity_id@, stat_configs@),
            ),
    {
        assert(requested(stat_configs@, Some(entity_id@)) =~= entity_applications(
            entity_id@,
            stat_configs@,
        ));
        self.plan_requests(stat_configs.as_slice(), Some(entity_id)).0
    }

    /// Loads the stats of entities: applies each record to the stat of its
    /// entity and type. Where every application comes to its end, the
    /// records are put down as they are given, each behind those of its
    /// entity; where one stops, nothing is recorded.
    pub fn load_entity_stats(&mut self, entity_configs: Vec<EntityStatConfig>) -> (plan: Plan)
        ensures
            plan@ == applications_plan(
                old(self).templates(),
                recorded_applications(entity_configs@),
            ),
            final(self).templates() == old(self).templates(),
            final(self).records() == if plan@.error is None {
                with_records(old(self).records(), record_models(entity_configs@))
            } else {
                old(self).records()
            },
    {
        assert(requested(entity_configs@, None) =~= recorded_applications(entity_configs@));
        let plan = self.plan_requests(entity_configs.as_slice(), None).0;
        if !plan.is_complete() {
            return plan;
        }
        let ghost before = self.records();
        let ghost added = record_models(entity_configs@);
        assert(added.take(0) == Seq::<RecordModel>::empty());
        for config in it: entity_configs
            invariant
                it.seq() == entity_configs@,
                added == record_models(entity_configs@),
                self.templates() == old(self).templates(),
                before == old(self).records(),
                self.records() == with_records(before, added.take(it.index() as int)),
        {
            assert(added.take(it.index() + 1).drop_last() == added.take(it.index() as int));
            self.record(config);
        }
        assert(added.take(added.len() as int) == added);
        plan
    }

    /// The unit of a source that is added to an entity's stat directly, as
    /// for equipment or a buff. Nothing is recorded of it.
    pub fn add_source_to_entity(
        &self,
        entity_id: &str,
        stat_type: &str,
        source: SourceUnit,
    ) -> (r: Registration)
        ensures
            r@ == (RegistrationModel::Source {
                stat_id: entity_stat(entity_id@, stat_type@),
                unit: source,
            }),
    {
        Registration::Source { stat_id: Self::entity_stat_id(entity_id, stat_type), unit: source }
    }

    /// The unit of a transform that is added to an entity's stat directly.
    /// Nothing is recorded of it.
    pub fn add_transform_to_entity(
        &self,
        entity_id: &str,
        stat_type: &str,
        transform: TransformUnit,
    ) -> (r: Registration)
        ensures
            r@ == (RegistrationModel::Transform {
                stat_id: entity_stat(entity_id@, stat_type@),
                unit: transform@,
            }),
    {
        Registration::Transform {
            stat_id: Self::entity_stat_id(entity_id, stat_type),
            unit: transform,
        }
    }

    /// The records that stand for the given stats of an entity: for each
    /// stat its type, the name of its template and the parameters.
    pub fn entity_params_to_configs(
        entity_id: &str,
        stat_mappings: &[(String, String, ValueTable)],
    ) -> (configs: Vec<EntityStatConfig>)
        ensures
            configs@.len() == stat_mappings@.len(),
            forall|i: int|
                0 <= i < configs@.len() ==> {
                    &&& (#[trigger] configs@[i]).entity_id@ == entity_id@
                    &&& configs@[i].stat_type@ == stat_mappings@[i].0@
                    &&& configs@[i].template_name@ == stat_mappings@[i].1@
                    &&& configs@[i].params.entries() == stat_mappings@[i].2.entries()
                    &&& configs@[i].params@ == stat_mappings@[i].2@
                },
    {
        let mut configs: Vec<EntityStatConfig> = Vec::new();
        let mut i: usize = 0;
        while i < stat_mappings.len()
            invariant
                i <= stat_mappings.len(),
                configs@.len() == i,
                forall|j: int|
                    0 <= j < i ==> {
                        &&& (#[trigger] configs@[j]).entity_id@ == entity_id@
                        &&& configs@[j].stat_type@ == stat_mappings@[j].0@
                        &&& configs@[j].template_name@ == stat_mappings@[j].1@
                        &&& configs@[j].params.entries() == stat_mappings@[j].2.entries()
                        &&& configs@[j].params@ == stat_mappings@[j].2@
                    },
            decreases stat_mappings.len() - i,
        {
            let item = &stat_mappings[i];
            configs.push(
                EntityStatConfig {
                    entity_id: entity_id.to_owned(),
                    stat_type: item.0.clone(),
                    template_name: item.1.clone(),
                    params: item.2.duplicate(),
                },
            );
            i += 1;
        }
        configs
    }

    /// Compiles a source description under the given parameters.
    pub fn resolve_source(config: &SourceConfig, params: &ValueTable) -> (r: Result<
        SourceUnit,
        YamlStatError,
    >)
        ensures
            outcome(r) == compiled_source(*config, params@),
    {
        match config {
            SourceConfig::Constant { value, name: _ } => {
                match resolve_under(value, params, "Source resolution error: ") {
                    Ok(n) => Ok(SourceUnit::Constant(n)),
                    Err(e) => Err(e),
                }
            },
            SourceConfig::Scaling { base, scale, level, name: _ } => {
                let b = match resolve_under(base, params, "Base resolution error: ") {
                    Ok(n) => n,
                    Err(e) => {
                        return Err(e);
                    },
                };
                let s = match resolve_under(scale, params, "Scale resolution error: ") {
                    Ok(n) => n,
                    Err(e) => {
                        return Err(e);
                    },
                };
                let l = match resolve_or(
                    level,
                    params,
                    Number::from_bits(ONE_BITS),
                    "Level resolution error: ",
                ) {
                    Ok(n) => n,
                    Err(e) => {
                        return Err(e);
                    },
                };
                Ok(SourceUnit::Scaling { base: b, scale: s, level: l })
            },
        }
    }

    /// Compiles a transform description under the given parameters, for a
    /// stat of the given entity. An empty entity leaves names global.
    pub fn resolve_transform_with_entity(
        config: &TransformConfig,
        params: &ValueTable,
        entity_id: &str,
    ) -> (r: Result<TransformUnit, YamlStatError>)
        ensures
            compiled(r) == compiled_transform(*config, params@, entity_id@),
        decreases config.depth(), 0nat,
    {
        match config {
            TransformConfig::Multiplicative { value, name: _ } => {
                match resolve_under(value, params, "Transform resolution error: ") {
                    Ok(n) => Ok(TransformUnit::Multiplicative(n)),
                    Err(e) => Err(e),
                }
            },
            TransformConfig::Additive { value, name: _ } => {
                match resolve_under(value, params, "Transform resolution error: ") {
                    Ok(n) => Ok(TransformUnit::Additive(AdditiveTransform::new(n))),
                    Err(e) => Err(e),
                }
            },
            TransformConfig::Clamp { min, max, name: _ } => {
                let lower = match resolve_or(
                    min,
                    params,
                    Number::from_bits(NEG_INFINITY_BITS),
                    "Clamp min resolution error: ",
                ) {
                    Ok(n) => n,
                    Err(e) => {
                        return Err(e);
                    },
                };
                let upper = match resolve_or(
                    max,
                    params,
                    Number::from_bits(INFINITY_BITS),
                    "Clamp max resolution error: ",
                ) {
                    Ok(n) => n,
                    Err(e) => {
                        return Err(e);
                    },
                };
                if lower.relation(upper) == Relation::Greater {
                    Err(
                        YamlStatError::InvalidConfig(
                            headed("Clamp bounds error: ", "min is greater than max"),
                        ),
                    )
                } else {
                    Ok(TransformUnit::Clamp { min: lower, max: upper })
                }
            },
            TransformConfig::Conditional {
                condition_stat,
                condition_value,
                operator,
                then_branch,
                else_then,
            } => {
                match ConditionalTransform::from_config(
                    condition_stat.as_str(),
                    *condition_value,
                    operator.as_str(),
                    then_branch,
                    else_then,
                    params,
                    entity_id,
                ) {
                    Ok(conditional) => Ok(TransformUnit::Conditional(conditional)),
                    Err(e) => Err(e),
                }
            },
            TransformConfig::Mapped { dependencies, multiplier, name: _ } => {
                let mut ids: Vec<String> = Vec::new();
                let mut i: usize = 0;
                while i < dependencies.len()
                    invariant
                        i <= dependencies.len(),
                        texts(ids@) == scoped_all(entity_id@, texts(dependencies@)).take(i as int),
                    decreases dependencies.len() - i,
                {
                    let ghost before = ids@;
                    let id = scope_name(entity_id, dependencies[i].as_str());
                    ids.push(id);
                    assert(texts(ids@) == texts(before).push(id@));
                    assert(scoped_all(entity_id@, texts(dependencies@)).take(i + 1) == scoped_all(
                        entity_id@,
                        texts(dependencies@),
                    ).take(i as int).push(id@));
                    i += 1;
                }
                assert(scoped_all(entity_id@, texts(dependencies@)).take(i as int) == scoped_all(
                    entity_id@,
                    texts(dependencies@),
                ));
                match resolve_or(
                    multiplier,
                    params,
                    Number::from_bits(ONE_BITS),
                    "Multiplier resolution error: ",
                ) {
                    Ok(m) => Ok(TransformUnit::Mapped(MapTransform::new(ids, m))),
                    Err(e) => Err(e),
                }
            },
        }
    }

    /// Compiles a transform description for a global stat.
    pub fn resolve_transform(config: &TransformConfig, params: &ValueTable) -> (r: Result<
        TransformUnit,
        YamlStatError,
    >)
        ensures
            compiled(r) == compiled_transform(*config, params@, Seq::<char>::empty()),
    {
        let r = Self::resolve_transform_with_entity(config, params, "");
        proof {
            reveal_strlit("");
            assert(""@ == Seq::<char>::empty());
        }
        r
    }
}

} // verus!
