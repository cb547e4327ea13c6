//! What descriptions compile to: the unit of a source, the model of a
//! transform, and the error where a description cannot be compiled.

use vstd::prelude::*;
use crate::config::{SourceConfig, SourceValue, TransformConfig};
use crate::error::{ErrorModel, YamlStatError};
use crate::number::{Number, Relation};
use crate::text::{entity_of, lemma_scoped_stays_in_entity, scoped_all, texts};
use crate::transform::{SourceUnit, TransformModel};
use crate::transform_conditional::compiled_conditional;
use crate::transform_map::MapModel;

verus! {

/// The error of a configuration that cannot be compiled: a heading that
/// says where, and the detail.
pub open spec fn invalid_config(heading: Seq<char>, detail: Seq<char>) -> ErrorModel {
    ErrorModel::InvalidConfig(heading + detail)
}

/// The number of a value that may be left out.
pub open spec fn resolved_or(
    value: Option<SourceValue>,
    params: Map<Seq<char>, Number>,
    default: Number,
) -> Result<Number, Seq<char>> {
    match value {
        Some(v) => v.resolved(params),
        None => Ok(default),
    }
}

/// What is said of a clamp whose lower bound lies above its upper bound.
pub open spec fn clamp_bounds_error() -> ErrorModel {
    invalid_config("Clamp bounds error: "@, "min is greater than max"@)
}

/// The unit that a source description compiles to under the given
/// parameters.
///
/// A constant is its value. A scaling source keeps base, scale and level,
/// with a level of one where none is given.
pub open spec fn compiled_source(config: SourceConfig, params: Map<Seq<char>, Number>) -> Result<
    SourceUnit,
    ErrorModel,
> {
    match config {
        SourceConfig::Constant { value, name } => match value.resolved(params) {
            Ok(n) => Ok(SourceUnit::Constant(n)),
            Err(e) => Err(invalid_config("Source resolution error: "@, e)),
        },
        SourceConfig::Scaling { base, scale, level, name } => match base.resolved(params) {
            Err(e) => Err(invalid_config("Base resolution error: "@, e)),
            Ok(b) => match scale.resolved(params) {
                Err(e) => Err(invalid_config("Scale resolution error: "@, e)),
                Ok(s) => match resolved_or(level, params, Number::one()) {
                    Err(e) => Err(invalid_config("Level resolution error: "@, e)),
                    Ok(l) => Ok(SourceUnit::Scaling { base: b, scale: s, level: l }),
                },
            },
        },
    }
}

/// The transform that a description compiles to under the given
/// parameters, for a stat of the given entity.
///
/// Names of other stats are scoped to the entity, in branches of
/// conditionals too. A clamp takes the infinities for the bounds that are
/// left out, and is refused where its lower bound lies above its upper
/// bound. A map transform takes a multiplier of one where none is given.
pub open spec fn compiled_transform(
    config: TransformConfig,
    params: Map<Seq<char>, Number>,
    entity_id: Seq<char>,
) -> Result<TransformModel, ErrorModel>
    decreases config,
{
    match config {
        TransformConfig::Multiplicative { value, name } => match value.resolved(params) {
            Ok(n) => Ok(TransformModel::Multiplicative(n)),
            Err(e) => Err(invalid_config("Transform resolution error: "@, e)),
        },
        TransformConfig::Additive { value, name } => match value.resolved(params) {
            Ok(n) => Ok(TransformModel::Additive(n)),
            Err(e) => Err(invalid_config("Transform resolution error: "@, e)),
        },
        TransformConfig::Clamp { min, max, name } => match resolved_or(
            min,
            params,
            Number::neg_infinity(),
        ) {
            Err(e) => Err(invalid_config("Clamp min resolution error: "@, e)),
            Ok(lower) => match resolved_or(max, params, Number::infinity()) {
                Err(e) => Err(invalid_config("Clamp max resolution error: "@, e)),
                Ok(upper) => if lower.relation_to(upper) == Relation::Greater {
                    Err(clamp_bounds_error())
                } else {
                    Ok(TransformModel::Clamp { min: lower, max: upper })
                },
            },
        },
        TransformConfig::Conditional {
            condition_stat,
            condition_value,
            operator,
            then_branch,
            else_then,
        } => match compiled_conditional(
            condition_stat@,
            condition_value,
            operator@,
            compiled_transform(*then_branch, params, entity_id),
            match else_then {
                Some(branch) => Some(compiled_transform(*branch, params, entity_id)),
                None => None,
            },
            entity_id,
        ) {
            Ok(conditional) => Ok(TransformModel::Conditional(conditional)),
            Err(e) => Err(e),
        },
        TransformConfig::Mapped { dependencies, multiplier, name } => match resolved_or(
            multiplier,
            params,
            Number::one(),
        ) {
            Err(e) => Err(invalid_config("Multiplier resolution error: "@, e)),
            Ok(m) => Ok(
                TransformModel::Mapped(
                    MapModel {
                        dependencies: scoped_all(entity_id, texts(dependencies@)),
                        multiplier: m,
                    },
                ),
            ),
        },
    }
}

/// A constant that is written as a number compiles to that number,
/// whatever the parameters are.
pub proof fn lemma_constant_source(n: Number, name: Option<String>, params: Map<Seq<char>, Number>)
    ensures
        compiled_source(SourceConfig::Constant { value: SourceValue::Number(n), name }, params)
            == Ok::<SourceUnit, ErrorModel>(SourceUnit::Constant(n)),
{
}

/// A scaling source keeps its base, scale and level as they resolve.
pub proof fn lemma_scaling_source(
    base: Number,
    scale: Number,
    level: Number,
    name: Option<String>,
    params: Map<Seq<char>, Number>,
)
    ensures
        compiled_source(
            SourceConfig::Scaling {
                base: SourceValue::Number(base),
                scale: SourceValue::Number(scale),
                level: Some(SourceValue::Number(level)),
                name,
            },
            params,
        ) == Ok::<SourceUnit, ErrorModel>(SourceUnit::Scaling { base, scale, level }),
{
}

/// To leave out the level of a scaling source is to give a level of one.
pub proof fn lemma_scaling_level_default(
    base: SourceValue,
    scale: SourceValue,
    name: Option<String>,
    params: Map<Seq<char>, Number>,
)
    ensures
        compiled_source(SourceConfig::Scaling { base, scale, level: None, name }, params)
            == compiled_source(
            SourceConfig::Scaling {
                base,
                scale,
                level: Some(SourceValue::Number(Number::one())),
                name,
            },
            params,
        ),
{
}

/// A compiled transform depends on the stats that its description names,
/// each seen from the entity it was compiled for, and in the order of the
/// description. This holds in the branches of conditionals too.
pub proof fn lemma_dependencies_scoped(
    config: TransformConfig,
    params: Map<Seq<char>, Number>,
    entity_id: Seq<char>,
)
    requires
        compiled_transform(config, params, entity_id) is Ok,
    ensures
        compiled_transform(config, params, entity_id)->Ok_0.dependencies() == scoped_all(
            entity_id,
            config.named_stats(),
        ),
    decreases config,
{
    let deps = compiled_transform(config, params, entity_id)->Ok_0.dependencies();
    match config {
        TransformConfig::Conditional {
            condition_stat,
            condition_value,
            operator,
            then_branch,
            else_then,
        } => {
            lemma_dependencies_scoped(*then_branch, params, entity_id);
            match else_then {
                Some(branch) => {
                    lemma_dependencies_scoped(*branch, params, entity_id);
                },
                None => {},
            }
            assert(deps =~= scoped_all(entity_id, config.named_stats()));
        },
        TransformConfig::Mapped { dependencies, multiplier, name } => {
            assert(deps =~= scoped_all(entity_id, config.named_stats()));
        },
        _ => {
            assert(deps =~= scoped_all(entity_id, config.named_stats()));
        },
    }
}

/// No transform reaches into another entity: compiled for an entity whose
/// identifier is not empty and holds no colon, it depends on stats of that
/// entity only.
pub proof fn lemma_dependencies_in_entity(
    config: TransformConfig,
    params: Map<Seq<char>, Number>,
    entity_id: Seq<char>,
    i: int,
)
    requires
        entity_id.len() > 0,
        !entity_id.contains(':'),
        compiled_transform(config, params, entity_id) is Ok,
        0 <= i < compiled_transform(config, params, entity_id)->Ok_0.dependencies().len(),
    ensures
        entity_of(compiled_transform(config, params, entity_id)->Ok_0.dependencies()[i])
            == entity_id,
{
    lemma_dependencies_scoped(config, params, entity_id);
    lemma_scoped_stays_in_entity(entity_id, config.named_stats()[i]);
}

/// A result with the unit and the error seen through their views.
pub open spec fn compiled<T: View>(r: Result<T, YamlStatError>) -> Result<T::V, ErrorModel> {
    match r {
        Ok(unit) => Ok(unit@),
        Err(e) => Err(e@),
    }
}

} // verus!
