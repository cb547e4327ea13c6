//! Compiles declarative, parameterised descriptions of numeric game
//! attributes ("stats") into computation units that a dependency-aware
//! evaluation engine can register, evaluate and invalidate.
//!
//! A configuration holds templates: lists of sources and transforms whose
//! values are numbers or placeholders such as `{{level}}`. Applied to a
//! stat under a set of parameters, a template compiles to units, and the
//! names of other stats in it are scoped to the entity that the stat
//! belongs to, so that one template serves many entities.
//!
//! The library decides and the caller acts. It does not hold the engine:
//! it hands back a plan that says which units are to be registered under
//! which stat, and in what order. It does not compute with numbers either:
//! they travel through it as bit patterns, which it stores, compares and
//! hands on, and the sums and products are left to the caller.

use vstd::prelude::*;

pub mod application;
pub mod compile;
pub mod config;
pub mod error;
pub mod loader;
pub mod number;
pub mod plan;
pub mod table;
pub mod template;
pub mod text;
pub mod transform;
pub mod transform_conditional;
pub mod transform_map;

pub use config::StatConfig;
pub use error::YamlStatError;
pub use loader::StatLoader;
pub use number::{Number, Relation};
pub use template::{EntityParams, EntityStatConfig, StatTemplateManager};
pub use transform::AdditiveTransform;

use application::{application_plan, Application};
use plan::Plan;
use table::ValueTable;

verus! {

/// Plans the stat of an entity from a template of a configuration: the
/// template named `template_name`, applied under the given parameters to
/// the stat whose name is `entity_name`.
pub fn create_entity_stats(
    config: StatConfig,
    entity_name: &str,
    template_name: &str,
    params: &ValueTable,
) -> (plan: Plan)
    ensures
        plan@ == application_plan(
            config.templates@,
            Application { template_name: template_name@, stat_name: entity_name@, params: params@ },
        ),
{
    match StatTemplateManager::from_config(config) {
        Ok(manager) => {
            let mut manager = manager;
            manager.apply_template(template_name, entity_name, params)
        },
        Err(error) => {
            let mut plan = Plan::new();
            plan.fail(error);
            plan
        },
    }
}

} // verus!
