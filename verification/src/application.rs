//! What applying templates comes to: the plan of one application, of
//! several, and the records that are kept of them.

use vstd::prelude::*;
use crate::compile::{
    compiled_source,
    compiled_transform,
    invalid_config,
    lemma_dependencies_scoped,
};
use crate::config::{SourceConfig, StatTemplate, TransformConfig};
use crate::error::ErrorModel;
use crate::number::Number;
use crate::plan::{
    in_turn,
    lemma_in_turn_next,
    lemma_in_turn_origin,
    lemma_in_turn_stops,
    lemma_in_turn_units,
    PlanModel,
    RegistrationModel,
};
use crate::table::ValueTable;
use crate::template::EntityStatConfig;
use crate::text::{
    entity_of,
    entity_stat,
    lemma_entity_and_stat_type,
    lemma_entity_of_entity_stat,
    lemma_entity_of_global,
    lemma_scoped_all_global,
    lemma_scoped_stays_in_entity,
    lemma_stat_type_of_entity_stat,
    scoped_all,
    stat_type_of,
};

verus! {

/// One template application: which template, on which stat, under which
/// parameters.
pub struct Application {
    pub template_name: Seq<char>,
    pub stat_name: Seq<char>,
    pub params: Map<Seq<char>, Number>,
}

/// What compiling one source does to a plan: it registers the unit under
/// the stat, or stops.
pub open spec fn source_step(stat_id: Seq<char>, params: Map<Seq<char>, Number>) -> spec_fn(
    SourceConfig,
) -> PlanModel {
    |config: SourceConfig|
        match compiled_source(config, params) {
            Ok(unit) => PlanModel::one(RegistrationModel::Source { stat_id, unit }),
            Err(e) => PlanModel::failed(e),
        }
}

/// What compiling one transform does to a plan: it registers the unit
/// under the stat, or stops.
pub open spec fn transform_step(
    stat_id: Seq<char>,
    params: Map<Seq<char>, Number>,
    entity_id: Seq<char>,
) -> spec_fn(TransformConfig) -> PlanModel {
    |config: TransformConfig|
        match compiled_transform(config, params, entity_id) {
            Ok(unit) => PlanModel::one(RegistrationModel::Transform { stat_id, unit }),
            Err(e) => PlanModel::failed(e),
        }
}

/// The plan of a template applied to a stat: its sources in their order,
/// then its transforms in theirs, all under the name of the stat. Names of
/// other stats are scoped to the entity that the stat belongs to.
pub open spec fn template_plan(
    template: StatTemplate,
    stat_name: Seq<char>,
    params: Map<Seq<char>, Number>,
) -> PlanModel {
    in_turn(template.sources@, source_step(stat_name, params)).and_next(
        in_turn(template.transforms@, transform_step(stat_name, params, entity_of(stat_name))),
    )
}

/// Where every source and every transform of a template compiles, the
/// plan registers one unit for each, the sources first and the transforms
/// behind them, each in the order of the template.
pub proof fn lemma_template_plan_complete(
    template: StatTemplate,
    stat_name: Seq<char>,
    params: Map<Seq<char>, Number>,
)
    requires
        forall|i: int|
            0 <= i < template.sources@.len() ==> compiled_source(
                #[trigger] template.sources@[i],
                params,
            ) is Ok,
        forall|j: int|
            0 <= j < template.transforms@.len() ==> compiled_transform(
                #[trigger] template.transforms@[j],
                params,
                entity_of(stat_name),
            ) is Ok,
    ensures
        template_plan(template, stat_name, params).error is None,
        template_plan(template, stat_name, params).registrations.len() == template.sources@.len()
            + template.transforms@.len(),
        forall|i: int|
            0 <= i < template.sources@.len() ==> template_plan(
                template,
                stat_name,
                params,
            ).registrations[i] == (RegistrationModel::Source {
                stat_id: stat_name,
                unit: compiled_source(#[trigger] template.sources@[i], params)->Ok_0,
            }),
        forall|j: int|
            0 <= j < template.transforms@.len() ==> template_plan(
                template,
                stat_name,
                params,
            ).registrations[template.sources@.len() + j] == (RegistrationModel::Transform {
                stat_id: stat_name,
                unit: compiled_transform(
                    #[trigger] template.transforms@[j],
                    params,
                    entity_of(stat_name),
                )->Ok_0,
            }),
{
    let sources = template.sources@;
    let transforms = template.transforms@;
    let first = source_step(stat_name, params);
    let second = transform_step(stat_name, params, entity_of(stat_name));
    let plan = template_plan(template, stat_name, params);
    lemma_in_turn_units(sources, first, sources.len() as int);
    lemma_in_turn_units(transforms, second, transforms.len() as int);
    assert(sources.take(sources.len() as int) == sources);
    assert(transforms.take(transforms.len() as int) == transforms);
    assert forall|i: int| 0 <= i < sources.len() implies plan.registrations[i]
        == (RegistrationModel::Source {
        stat_id: stat_name,
        unit: compiled_source(#[trigger] sources[i], params)->Ok_0,
    }) by {
        assert(plan.registrations[i] == first(sources[i]).registrations[0]);
    }
    assert forall|j: int| 0 <= j < transforms.len() implies plan.registrations[sources.len() + j]
        == (RegistrationModel::Transform {
        stat_id: stat_name,
        unit: compiled_transform(#[trigger] transforms[j], params, entity_of(stat_name))->Ok_0,
    }) by {
        assert(plan.registrations[sources.len() + j] == second(transforms[j]).registrations[0]);
    }
}

/// Where a source of a template does not compile, the plan stops at its
/// error and registers the sources before it, and nothing else.
pub proof fn lemma_template_plan_stops_at_source(
    template: StatTemplate,
    stat_name: Seq<char>,
    params: Map<Seq<char>, Number>,
    p: int,
)
    requires
        0 <= p < template.sources@.len(),
        forall|i: int|
            0 <= i < p ==> compiled_source(#[trigger] template.sources@[i], params) is Ok,
        compiled_source(template.sources@[p], params) is Err,
    ensures
        template_plan(template, stat_name, params).error == Some(
            compiled_source(template.sources@[p], params)->Err_0,
        ),
        template_plan(template, stat_name, params).registrations.len() == p,
        forall|i: int|
            0 <= i < p ==> template_plan(template, stat_name, params).registrations[i] == (
            RegistrationModel::Source {
                stat_id: stat_name,
                unit: compiled_source(#[trigger] template.sources@[i], params)->Ok_0,
            }),
{
    let sources = template.sources@;
    let first = source_step(stat_name, params);
    let plan = template_plan(template, stat_name, params);
    lemma_in_turn_units(sources, first, p);
    lemma_in_turn_next(sources, first, p);
    lemma_in_turn_stops(sources, first, p + 1);
    assert(in_turn(sources.take(p + 1), first).registrations =~= in_turn(
        sources.take(p),
        first,
    ).registrations);
    assert forall|i: int| 0 <= i < p implies plan.registrations[i] == (RegistrationModel::Source {
        stat_id: stat_name,
        unit: compiled_source(#[trigger] sources[i], params)->Ok_0,
    }) by {
        assert(plan.registrations[i] == first(sources[i]).registrations[0]);
    }
}

/// Where the sources of a template compile and a transform does not, the
/// plan stops at its error and registers the sources and the transforms
/// before it, and nothing else.
pub proof fn lemma_template_plan_stops_at_transform(
    template: StatTemplate,
    stat_name: Seq<char>,
    params: Map<Seq<char>, Number>,
    p: int,
)
    requires
        0 <= p < template.transforms@.len(),
        forall|i: int|
            0 <= i < template.sources@.len() ==> compiled_source(
                #[trigger] template.sources@[i],
                params,
            ) is Ok,
        forall|j: int|
            0 <= j < p ==> compiled_transform(
                #[trigger] template.transforms@[j],
                params,
                entity_of(stat_name),
            ) is Ok,
        compiled_transform(template.transforms@[p], params, entity_of(stat_name)) is Err,
    ensures
        template_plan(template, stat_name, params).error == Some(
            compiled_transform(template.transforms@[p], params, entity_of(stat_name))->Err_0,
        ),
        template_plan(template, stat_name, params).registrations.len() == template.sources@.len()
            + p,
        forall|i: int|
            0 <= i < template.sources@.len() ==> template_plan(
                template,
                stat_name,
                params,
            ).registrations[i] == (RegistrationModel::Source {
                stat_id: stat_name,
                unit: compiled_source(#[trigger] template.sources@[i], params)->Ok_0,
            }),
        forall|j: int|
            0 <= j < p ==> template_plan(
                template,
                stat_name,
                params,
            ).registrations[template.sources@.len() + j] == (RegistrationModel::Transform {
                stat_id: stat_name,
                unit: compiled_transform(
                    #[trigger] template.transforms@[j],
                    params,
                    entity_of(stat_name),
                )->Ok_0,
            }),
{
    let sources = template.sources@;
    let transforms = template.transforms@;
    let first = source_step(stat_name, params);
    let second = transform_step(stat_name, params, entity_of(stat_name));
    let plan = template_plan(template, stat_name, params);
    lemma_in_turn_units(sources, first, sources.len() as int);
    assert(sources.take(sources.len() as int) == sources);
    lemma_in_turn_units(transforms, second, p);
    lemma_in_turn_next(transforms, second, p);
    lemma_in_turn_stops(transforms, second, p + 1);
    assert(in_turn(transforms.take(p + 1), second).registrations =~= in_turn(
        transforms.take(p),
        second,
    ).registrations);
    assert forall|i: int| 0 <= i < sources.len() implies plan.registrations[i]
        == (RegistrationModel::Source {
        stat_id: stat_name,
        unit: compiled_source(#[trigger] sources[i], params)->Ok_0,
    }) by {
        assert(plan.registrations[i] == first(sources[i]).registrations[0]);
    }
    assert forall|j: int| 0 <= j < p implies plan.registrations[sources.len() + j]
        == (RegistrationModel::Transform {
        stat_id: stat_name,
        unit: compiled_transform(#[trigger] transforms[j], params, entity_of(stat_name))->Ok_0,
    }) by {
        assert(plan.registrations[sources.len() + j] == second(transforms[j]).registrations[0]);
    }
}

/// Everything in the plan of a template goes to the stat it is applied
/// to, and every transform in it depends on the stats that one of the
/// template's transforms names, each seen from the entity of that stat.
pub proof fn lemma_template_plan_scoped(
    template: StatTemplate,
    stat_name: Seq<char>,
    params: Map<Seq<char>, Number>,
    k: int,
)
    requires
        0 <= k < template_plan(template, stat_name, params).registrations.len(),
    ensures
        match template_plan(template, stat_name, params).registrations[k] {
            RegistrationModel::Source { stat_id, unit } => stat_id == stat_name,
            RegistrationModel::Transform { stat_id, unit } => stat_id == stat_name && exists|j: int|
                0 <= j < template.transforms@.len() && unit.dependencies() == scoped_all(
                    entity_of(stat_name),
                    (#[trigger] template.transforms@[j]).named_stats(),
                ),
        },
{
    let entity_id = entity_of(stat_name);
    let first = in_turn(template.sources@, source_step(stat_name, params));
    let second = in_turn(template.transforms@, transform_step(stat_name, params, entity_id));
    if first.error is Some || k < first.registrations.len() {
        lemma_in_turn_origin(template.sources@, source_step(stat_name, params), k);
    } else {
        let step = transform_step(stat_name, params, entity_id);
        let at = k - first.registrations.len();
        lemma_in_turn_origin(template.transforms@, step, at);
        let j = choose|j: int|
            0 <= j < template.transforms@.len() && (#[trigger] step(
                template.transforms@[j],
            )).registrations.contains(second.registrations[at]);
        lemma_dependencies_scoped(template.transforms@[j], params, entity_id);
    }
}

/// A template applied to the stat of an entity refers to stats of that
/// entity only: every transform in the plan depends on the stats that one
/// of the template's transforms names, each as the entity's own. So the
/// same template serves many entities, and none reaches into another.
pub proof fn lemma_applied_to_entity(
    template: StatTemplate,
    entity_id: Seq<char>,
    stat_type: Seq<char>,
    params: Map<Seq<char>, Number>,
    k: int,
)
    requires
        entity_id.len() > 0,
        !entity_id.contains(':'),
        0 <= k < template_plan(
            template,
            entity_stat(entity_id, stat_type),
            params,
        ).registrations.len(),
    ensures
        template_plan(
            template,
            entity_stat(entity_id, stat_type),
            params,
        ).registrations[k] matches RegistrationModel::Transform { stat_id, unit } ==> {
            &&& exists|j: int|
                0 <= j < template.transforms@.len() && unit.dependencies() == scoped_all(
                    entity_id,
                    (#[trigger] template.transforms@[j]).named_stats(),
                )
            &&& forall|d: int|
                0 <= d < unit.dependencies().len() ==> entity_of(#[trigger] unit.dependencies()[d])
                    == entity_id
        },
{
    let stat_name = entity_stat(entity_id, stat_type);
    lemma_entity_of_entity_stat(entity_id, stat_type);
    lemma_template_plan_scoped(template, stat_name, params, k);
    match template_plan(template, stat_name, params).registrations[k] {
        RegistrationModel::Transform { stat_id, unit } => {
            let j = choose|j: int|
                0 <= j < template.transforms@.len() && unit.dependencies() == scoped_all(
                    entity_id,
                    (#[trigger] template.transforms@[j]).named_stats(),
                );
            assert forall|d: int| 0 <= d < unit.dependencies().len() implies entity_of(
                #[trigger] unit.dependencies()[d],
            ) == entity_id by {
                lemma_scoped_stays_in_entity(entity_id, template.transforms@[j].named_stats()[d]);
            }
        },
        _ => {},
    }
}

/// A template applied to a global stat, whose name holds no colon, refers
/// to stats by the names that are written in it.
pub proof fn lemma_applied_globally(
    template: StatTemplate,
    stat_name: Seq<char>,
    params: Map<Seq<char>, Number>,
    k: int,
)
    requires
        !stat_name.contains(':'),
        0 <= k < template_plan(template, stat_name, params).registrations.len(),
    ensures
        template_plan(
            template,
            stat_name,
            params,
        ).registrations[k] matches RegistrationModel::Transform { stat_id, unit } ==> exists|j: int|
            0 <= j < template.transforms@.len() && unit.dependencies() == (
            #[trigger] template.transforms@[j]).named_stats(),
{
    lemma_entity_of_global(stat_name, Seq::<char>::empty());
    lemma_template_plan_scoped(template, stat_name, params, k);
    match template_plan(template, stat_name, params).registrations[k] {
        RegistrationModel::Transform { stat_id, unit } => {
            let j = choose|j: int|
                0 <= j < template.transforms@.len() && unit.dependencies() == scoped_all(
                    entity_of(stat_name),
                    (#[trigger] template.transforms@[j]).named_stats(),
                );
            lemma_scoped_all_global(template.transforms@[j].named_stats());
        },
        _ => {},
    }
}

/// The error of an application that names no template of the table.
pub open spec fn template_not_found(template_name: Seq<char>) -> ErrorModel {
    invalid_config("Template not found: "@, template_name)
}

/// The plan of one application.
pub open spec fn application_plan(
    templates: Map<Seq<char>, StatTemplate>,
    application: Application,
) -> PlanModel {
    if templates.contains_key(application.template_name) {
        template_plan(
            templates[application.template_name],
            application.stat_name,
            application.params,
        )
    } else {
        PlanModel::failed(template_not_found(application.template_name))
    }
}

/// What one application does to a plan.
pub open spec fn application_step(templates: Map<Seq<char>, StatTemplate>) -> spec_fn(
    Application,
) -> PlanModel {
    |application: Application| application_plan(templates, application)
}

/// The plan of several applications: one after the other, up to the first
/// that stops.
pub open spec fn applications_plan(
    templates: Map<Seq<char>, StatTemplate>,
    applications: Seq<Application>,
) -> PlanModel {
    in_turn(applications, application_step(templates))
}

/// What a record of an application stands for: the entity, the stat type,
/// the name of the template, and the parameters.
pub struct RecordModel {
    pub entity_id: Seq<char>,
    pub stat_type: Seq<char>,
    pub template_name: Seq<char>,
    pub params: Map<Seq<char>, Number>,
}

/// What the records of a list stand for.
pub open spec fn record_models(configs: Seq<EntityStatConfig>) -> Seq<RecordModel> {
    configs.map_values(|config: EntityStatConfig| config@)
}

/// The record of an application: it is kept under the entity of the stat,
/// with the stat type that the name of the stat gives.
pub open spec fn record_of(application: Application) -> RecordModel {
    RecordModel {
        entity_id: entity_of(application.stat_name),
        stat_type: stat_type_of(application.stat_name),
        template_name: application.template_name,
        params: application.params,
    }
}

/// The records of the applications of a list.
pub open spec fn records_for(applications: Seq<Application>) -> Seq<RecordModel> {
    applications.map_values(|application: Application| record_of(application))
}

/// The application that a record stands for.
pub open spec fn recorded_application(record: RecordModel) -> Application {
    Application {
        template_name: record.template_name,
        stat_name: entity_stat(record.entity_id, record.stat_type),
        params: record.params,
    }
}

/// The record of an application to the stat of an entity names that
/// entity and the type of the stat, as long as the entity's identifier
/// holds no colon.
pub proof fn lemma_record_of_entity_stat(
    template_name: Seq<char>,
    entity_id: Seq<char>,
    stat_type: Seq<char>,
    params: Map<Seq<char>, Number>,
)
    requires
        !entity_id.contains(':'),
    ensures
        record_of(
            Application { template_name, stat_name: entity_stat(entity_id, stat_type), params },
        ) == (RecordModel { entity_id, stat_type, template_name, params }),
{
    lemma_entity_of_entity_stat(entity_id, stat_type);
    lemma_stat_type_of_entity_stat(entity_id, stat_type);
}

/// The record of an application to the stat of an entity stands for that
/// application again: what is recorded can be replayed.
pub proof fn lemma_record_replays(application: Application)
    requires
        application.stat_name.contains(':'),
    ensures
        recorded_application(record_of(application)) == application,
{
    lemma_entity_and_stat_type(application.stat_name);
}

/// The applications that records stand for.
pub open spec fn recorded_applications(configs: Seq<EntityStatConfig>) -> Seq<Application> {
    configs.map_values(|config: EntityStatConfig| recorded_application(config@))
}

/// The applications that the entries of a list stand for: each entry holds
/// the name of the template, the name of the stat, and the parameters.
pub open spec fn listed_applications(items: Seq<(String, String, ValueTable)>) -> Seq<
    Application,
> {
    items.map_values(
        |item: (String, String, ValueTable)|
            Application { template_name: item.0@, stat_name: item.1@, params: item.2@ },
    )
}

/// The applications that records stand for when they are loaded for a
/// given entity, whatever entity the records themselves name.
pub open spec fn entity_applications(entity_id: Seq<char>, configs: Seq<EntityStatConfig>) -> Seq<
    Application,
> {
    configs.map_values(
        |config: EntityStatConfig|
            Application {
                template_name: config.template_name@,
                stat_name: entity_stat(entity_id, config.stat_type@),
                params: config.params@,
            },
    )
}

/// The number of applications at the head of a list that come to their
/// end.
pub open spec fn completed(
    templates: Map<Seq<char>, StatTemplate>,
    applications: Seq<Application>,
) -> nat
    decreases applications.len(),
{
    if applications.len() == 0 || application_plan(templates, applications.first()).error
        is Some {
        0
    } else {
        1 + completed(templates, applications.drop_first())
    }
}

/// The applications counted at the head of a list come to their end, and
/// the one behind them, if the count stops short, does not. The plan of
/// the list stops exactly where the count stops short.
pub proof fn lemma_completed(
    templates: Map<Seq<char>, StatTemplate>,
    applications: Seq<Application>,
)
    ensures
        completed(templates, applications) <= applications.len(),
        forall|i: int|
            0 <= i < completed(templates, applications) ==> application_plan(
                templates,
                #[trigger] applications[i],
            ).error is None,
        completed(templates, applications) < applications.len() ==> application_plan(
            templates,
            applications[completed(templates, applications) as int],
        ).error is Some,
    decreases applications.len(),
{
    if applications.len() > 0 && application_plan(templates, applications.first()).error is None {
        let rest = applications.drop_first();
        lemma_completed(templates, rest);
        assert forall|i: int| 0 <= i < completed(templates, applications) implies application_plan(
            templates,
            #[trigger] applications[i],
        ).error is None by {
            if i > 0 {
                assert(applications[i] == rest[i - 1]);
            }
        }
        if completed(templates, applications) < applications.len() {
            assert(applications[completed(templates, applications) as int] == rest[completed(
                templates,
                rest,
            ) as int]);
        }
    }
}

/// The records of an entity, or none.
pub open spec fn records_of(
    records: Map<Seq<char>, Seq<RecordModel>>,
    entity_id: Seq<char>,
) -> Seq<RecordModel> {
    if records.contains_key(entity_id) {
        records[entity_id]
    } else {
        Seq::empty()
    }
}

/// The records after one more was put down, behind those of its entity.
pub open spec fn with_record(
    records: Map<Seq<char>, Seq<RecordModel>>,
    record: RecordModel,
) -> Map<Seq<char>, Seq<RecordModel>> {
    records.insert(record.entity_id, records_of(records, record.entity_id).push(record))
}

/// The records after more were put down, each behind those of its entity.
pub open spec fn with_records(
    records: Map<Seq<char>, Seq<RecordModel>>,
    added: Seq<RecordModel>,
) -> Map<Seq<char>, Seq<RecordModel>>
    decreases added.len(),
{
    if added.len() == 0 {
        records
    } else {
        with_record(with_records(records, added.drop_last()), added.last())
    }
}

/// The records of an entity after more were put down are those it had,
/// and behind them the new records that name it, in their order.
pub proof fn lemma_with_records(
    records: Map<Seq<char>, Seq<RecordModel>>,
    added: Seq<RecordModel>,
    entity_id: Seq<char>,
)
    ensures
        records_of(with_records(records, added), entity_id) == records_of(records, entity_id)
            + added.filter(|record: RecordModel| record.entity_id == entity_id),
    decreases added.len(),
{
    reveal(Seq::filter);
    let named = |record: RecordModel| record.entity_id == entity_id;
    if added.len() == 0 {
        assert(records_of(records, entity_id) + added.filter(named) =~= records_of(
            records,
            entity_id,
        ));
    } else {
        lemma_with_records(records, added.drop_last(), entity_id);
        let before = records_of(records, entity_id) + added.drop_last().filter(named);
        if named(added.last()) {
            assert(before.push(added.last()) =~= records_of(records, entity_id) + added.filter(
                named,
            ));
        }
    }
}

/// The records after the applications of a list were made: each
/// application that came to its end has its record, in the order of the
/// list, and the one that stopped and those behind it have none.
pub open spec fn records_after(
    records: Map<Seq<char>, Seq<RecordModel>>,
    templates: Map<Seq<char>, StatTemplate>,
    applications: Seq<Application>,
) -> Map<Seq<char>, Seq<RecordModel>> {
    with_records(
        records,
        records_for(applications.take(completed(templates, applications) as int)),
    )
}

} // verus!
