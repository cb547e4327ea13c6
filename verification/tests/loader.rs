use zzstat_json::config::{SourceConfig, SourceValue, StatConfig, StatDefinition, TransformConfig};
use zzstat_json::error::YamlStatError;
use zzstat_json::loader::StatLoader;
use zzstat_json::plan::{Plan, Registration};
use zzstat_json::table::Table;
use zzstat_json::transform::{AdditiveTransform, SourceUnit, TransformUnit};
use zzstat_json::transform_map::MapTransform;
use zzstat_json::Number;

fn num(x: f64) -> Number {
    Number::from_bits(x.to_bits())
}

fn lit(x: f64) -> SourceValue {
    SourceValue::Number(num(x))
}

fn text(s: &str) -> SourceValue {
    SourceValue::String(s.to_string(), s.parse::<f64>().ok().map(num))
}

fn constant(x: f64) -> SourceConfig {
    SourceConfig::Constant { value: lit(x), name: None }
}

fn source(stat: &str, x: f64) -> Registration {
    Registration::Source { stat_id: stat.to_string(), unit: SourceUnit::Constant(num(x)) }
}

fn transform(stat: &str, unit: TransformUnit) -> Registration {
    Registration::Transform { stat_id: stat.to_string(), unit }
}

fn config(stats: Vec<(&str, StatDefinition)>) -> StatConfig {
    let mut table: Table<StatDefinition> = Table::new();
    for (name, definition) in stats {
        table.insert(name.to_string(), definition);
    }
    StatConfig { templates: Table::new(), stats: table }
}

#[test]
fn an_empty_configuration_plans_nothing() {
    assert_eq!(StatLoader::build_resolver(&config(vec![])), Plan::new());
    assert_eq!(StatLoader::build_resolver(&StatConfig::default()), Plan::new());
}

#[test]
fn defaults_are_empty() {
    let config = StatConfig::default();
    assert_eq!(config.templates.len(), 0);
    assert_eq!(config.stats.len(), 0);
    let definition = StatDefinition::default();
    assert!(definition.sources.is_empty());
    assert!(definition.transforms.is_empty());
    let template = zzstat_json::config::StatTemplate::default();
    assert_eq!(template.description, None);
    assert!(template.sources.is_empty());
    assert!(template.transforms.is_empty());
}

#[test]
fn sources_of_every_stat_come_before_the_transforms_of_any() {
    let hp = StatDefinition {
        sources: vec![constant(100.0), constant(50.0)],
        transforms: vec![TransformConfig::Multiplicative { value: lit(1.5), name: None }],
    };
    let atk = StatDefinition {
        sources: vec![constant(50.0)],
        transforms: vec![
            TransformConfig::Additive { value: lit(10.0), name: None },
            TransformConfig::Mapped {
                dependencies: vec!["HP".to_string(), "a:b".to_string()],
                multiplier: None,
                name: None,
            },
        ],
    };
    let plan = StatLoader::build_resolver(&config(vec![("HP", hp), ("ATK", atk)]));
    assert_eq!(plan.error, None);
    assert_eq!(
        plan.registrations,
        vec![
            source("HP", 100.0),
            source("HP", 50.0),
            source("ATK", 50.0),
            transform("HP", TransformUnit::Multiplicative(num(1.5))),
            transform("ATK", TransformUnit::Additive(AdditiveTransform::new(num(10.0)))),
            transform(
                "ATK",
                TransformUnit::Mapped(MapTransform::new(
                    vec!["HP".to_string(), "a:b".to_string()],
                    num(1.0)
                ))
            ),
        ]
    );
}

#[test]
fn names_stay_global_even_for_a_stat_with_a_colon() {
    let definition = StatDefinition {
        sources: vec![],
        transforms: vec![TransformConfig::Mapped {
            dependencies: vec!["STR".to_string()],
            multiplier: None,
            name: None,
        }],
    };
    let plan = StatLoader::build_resolver(&config(vec![("A:HP", definition)]));
    assert_eq!(
        plan.registrations,
        vec![transform(
            "A:HP",
            TransformUnit::Mapped(MapTransform::new(vec!["STR".to_string()], num(1.0)))
        )]
    );
}

#[test]
fn placeholders_have_no_parameters_to_refer_to() {
    let hp = StatDefinition {
        sources: vec![constant(1.0), SourceConfig::Constant { value: text("{{x}}"), name: None }],
        transforms: vec![TransformConfig::Multiplicative { value: lit(1.5), name: None }],
    };
    let atk = StatDefinition { sources: vec![constant(2.0)], transforms: vec![] };
    let plan = StatLoader::build_resolver(&config(vec![("HP", hp), ("ATK", atk)]));
    assert_eq!(
        plan.error,
        Some(YamlStatError::InvalidConfig(
            "Source resolution error: Parameter not found: x".to_string()
        ))
    );
    assert_eq!(plan.registrations, vec![source("HP", 1.0)]);
}

#[test]
fn a_transform_that_fails_stops_the_plan_behind_every_source() {
    let hp = StatDefinition {
        sources: vec![constant(1.0)],
        transforms: vec![
            TransformConfig::Additive { value: lit(1.0), name: None },
            TransformConfig::Clamp { min: Some(lit(2.0)), max: Some(lit(1.0)), name: None },
            TransformConfig::Additive { value: lit(3.0), name: None },
        ],
    };
    let atk = StatDefinition {
        sources: vec![constant(2.0)],
        transforms: vec![TransformConfig::Additive { value: lit(4.0), name: None }],
    };
    let plan = StatLoader::build_resolver(&config(vec![("HP", hp), ("ATK", atk)]));
    assert_eq!(
        plan.error,
        Some(YamlStatError::InvalidConfig(
            "Clamp bounds error: min is greater than max".to_string()
        ))
    );
    assert_eq!(
        plan.registrations,
        vec![
            source("HP", 1.0),
            source("ATK", 2.0),
            transform("HP", TransformUnit::Additive(AdditiveTransform::new(num(1.0)))),
        ]
    );
}

#[test]
fn texts_that_spell_numbers_are_read_as_numbers() {
    let hp = StatDefinition {
        sources: vec![SourceConfig::Constant { value: text("12.5"), name: None }],
        transforms: vec![],
    };
    let plan = StatLoader::build_resolver(&config(vec![("HP", hp)]));
    assert_eq!(plan.error, None);
    assert_eq!(plan.registrations, vec![source("HP", 12.5)]);
}
