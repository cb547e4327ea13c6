use zzstat_json::config::{SourceConfig, SourceValue, StatConfig, StatTemplate, TransformConfig};
use zzstat_json::error::YamlStatError;
use zzstat_json::plan::{Plan, Registration};
use zzstat_json::table::{Table, ValueTable};
use zzstat_json::template::{EntityStatConfig, StatTemplateManager};
use zzstat_json::transform::{AdditiveTransform, SourceUnit, TransformUnit};
use zzstat_json::transform_map::MapTransform;
use zzstat_json::Number;

fn num(x: f64) -> Number {
    Number::from_bits(x.to_bits())
}

fn lit(x: f64) -> SourceValue {
    SourceValue::Number(num(x))
}

fn text(s: &str) -> SourceValue {
    SourceValue::String(s.to_string(), s.parse::<f64>().ok().map(num))
}

fn params(entries: &[(&str, f64)]) -> ValueTable {
    let mut table = ValueTable::new();
    for (name, value) in entries {
        table.insert(name.to_string(), num(*value));
    }
    table
}

fn invalid(message: &str) -> YamlStatError {
    YamlStatError::InvalidConfig(message.to_string())
}

fn source(stat: &str, unit: SourceUnit) -> Registration {
    Registration::Source { stat_id: stat.to_string(), unit }
}

fn transform(stat: &str, unit: TransformUnit) -> Registration {
    Registration::Transform { stat_id: stat.to_string(), unit }
}

fn base_hp() -> StatTemplate {
    StatTemplate {
        description: Some("hit points".to_string()),
        sources: vec![
            SourceConfig::Constant { value: text("{{base_hp}}"), name: None },
            SourceConfig::Scaling {
                base: lit(0.0),
                scale: text("{{hp_per_level}}"),
                level: Some(text("{{level}}")),
                name: None,
            },
        ],
        transforms: vec![
            TransformConfig::Multiplicative { value: text("{{multiplier}}"), name: None },
        ],
    }
}

fn derived() -> StatTemplate {
    StatTemplate {
        description: None,
        sources: vec![SourceConfig::Constant { value: lit(20.0), name: None }],
        transforms: vec![
            TransformConfig::Mapped {
                dependencies: vec!["STR".to_string()],
                multiplier: Some(text("{{per_str}}")),
                name: None,
            },
            TransformConfig::Additive { value: lit(1.0), name: None },
        ],
    }
}

fn manager() -> StatTemplateManager {
    let mut templates: Table<StatTemplate> = Table::new();
    templates.insert("BaseHP".to_string(), base_hp());
    templates.insert("Derived".to_string(), derived());
    StatTemplateManager::from_config(StatConfig { templates, stats: Table::new() }).unwrap()
}

fn hp_params() -> ValueTable {
    params(&[("base_hp", 100.0), ("hp_per_level", 10.0), ("level", 5.0), ("multiplier", 1.5)])
}

fn hp_plan(stat: &str) -> Vec<Registration> {
    vec![
        source(stat, SourceUnit::Constant(num(100.0))),
        source(stat, SourceUnit::Scaling { base: num(0.0), scale: num(10.0), level: num(5.0) }),
        transform(stat, TransformUnit::Multiplicative(num(1.5))),
    ]
}

fn derived_plan(stat: &str, dependency: &str, per_str: f64) -> Vec<Registration> {
    vec![
        source(stat, SourceUnit::Constant(num(20.0))),
        transform(
            stat,
            TransformUnit::Mapped(MapTransform::new(vec![dependency.to_string()], num(per_str))),
        ),
        transform(stat, TransformUnit::Additive(AdditiveTransform::new(num(1.0)))),
    ]
}

fn record(entity: &str, stat: &str, template: &str, table: ValueTable) -> EntityStatConfig {
    EntityStatConfig {
        entity_id: entity.to_string(),
        stat_type: stat.to_string(),
        template_name: template.to_string(),
        params: table,
    }
}

#[test]
fn a_new_plan_is_empty_and_complete() {
    let plan = Plan::new();
    assert!(plan.is_complete());
    assert!(plan.registrations.is_empty());
    assert_eq!(plan.error, None);
}

#[test]
fn from_config_keeps_the_templates() {
    let manager = manager();
    assert_eq!(manager.template_table().len(), 2);
    assert!(manager.template_table().contains_key("BaseHP"));
    assert!(manager.template_table().contains_key("Derived"));
    assert_eq!(manager.entity_records("A"), None);
}

#[test]
fn apply_template_plans_sources_then_transforms_in_order() {
    let plan = manager().apply_template("BaseHP", "player1_HP", &hp_params());
    assert!(plan.is_complete());
    assert_eq!(plan.error, None);
    assert_eq!(plan.registrations, hp_plan("player1_HP"));
}

#[test]
fn apply_template_refuses_an_unknown_template() {
    let plan = manager().apply_template("Missing", "A:HP", &hp_params());
    assert!(!plan.is_complete());
    assert!(plan.registrations.is_empty());
    assert_eq!(plan.error, Some(invalid("Template not found: Missing")));
}

#[test]
fn apply_template_scopes_map_stats_to_the_entity_of_the_target() {
    let table = params(&[("per_str", 2.0)]);
    let mut manager = manager();
    let a = manager.apply_template("Derived", "A:HP", &table);
    assert_eq!(a.error, None);
    assert_eq!(a.registrations, derived_plan("A:HP", "A:STR", 2.0));
    let b = manager.apply_template("Derived", "B:HP", &table);
    assert_eq!(b.error, None);
    assert_eq!(b.registrations, derived_plan("B:HP", "B:STR", 2.0));
}

#[test]
fn apply_template_leaves_map_stats_global_for_a_global_target() {
    let table = params(&[("per_str", 2.0)]);
    let plan = manager().apply_template("Derived", "HP", &table);
    assert_eq!(plan.error, None);
    assert_eq!(plan.registrations, derived_plan("HP", "STR", 2.0));
}

#[test]
fn apply_template_takes_the_entity_before_the_first_colon() {
    let table = params(&[("per_str", 2.0)]);
    let plan = manager().apply_template("Derived", "guild:A:HP", &table);
    assert_eq!(plan.registrations, derived_plan("guild:A:HP", "guild:STR", 2.0));
    let empty = manager().apply_template("Derived", ":HP", &table);
    assert_eq!(empty.registrations, derived_plan(":HP", "STR", 2.0));
}

#[test]
fn apply_template_stops_at_the_first_source_that_fails() {
    let table = params(&[("base_hp", 100.0), ("multiplier", 1.5)]);
    let plan = manager().apply_template("BaseHP", "A:HP", &table);
    assert_eq!(
        plan.error,
        Some(invalid("Scale resolution error: Parameter not found: hp_per_level"))
    );
    assert_eq!(plan.registrations, vec![source("A:HP", SourceUnit::Constant(num(100.0)))]);
}

#[test]
fn apply_template_stops_at_the_first_transform_that_fails() {
    let plan = manager().apply_template("Derived", "A:HP", &params(&[]));
    assert_eq!(
        plan.error,
        Some(invalid("Multiplier resolution error: Parameter not found: per_str"))
    );
    assert_eq!(plan.registrations, vec![source("A:HP", SourceUnit::Constant(num(20.0)))]);
    let late = params(&[("base_hp", 1.0), ("hp_per_level", 1.0), ("level", 1.0)]);
    let plan = manager().apply_template("BaseHP", "A:HP", &late);
    assert_eq!(
        plan.error,
        Some(invalid("Transform resolution error: Parameter not found: multiplier"))
    );
    assert_eq!(plan.registrations.len(), 2);
}

#[test]
fn apply_template_records_the_application_under_its_entity() {
    let mut manager = manager();
    let plan = manager.apply_template("BaseHP", "A:HP", &hp_params());
    assert_eq!(plan.error, None);
    assert_eq!(
        manager.entity_records("A"),
        Some(&vec![record("A", "HP", "BaseHP", hp_params())])
    );
    assert_eq!(manager.entity_records("B"), None);
    assert_eq!(manager.entity_records(""), None);
    assert_eq!(manager.template_table().len(), 2);
}

#[test]
fn apply_template_puts_new_records_behind_the_old() {
    let mut manager = manager();
    manager.apply_template("BaseHP", "A:HP", &hp_params());
    manager.apply_template("Derived", "A:ATK", &params(&[("per_str", 2.0)]));
    manager.apply_template("BaseHP", "B:HP", &hp_params());
    manager.apply_template("BaseHP", "A:HP", &hp_params());
    assert_eq!(
        manager.entity_records("A"),
        Some(&vec![
            record("A", "HP", "BaseHP", hp_params()),
            record("A", "ATK", "Derived", params(&[("per_str", 2.0)])),
            record("A", "HP", "BaseHP", hp_params()),
        ])
    );
    assert_eq!(
        manager.entity_records("B"),
        Some(&vec![record("B", "HP", "BaseHP", hp_params())])
    );
}

#[test]
fn apply_template_records_nothing_where_it_stops() {
    let mut manager = manager();
    let missing = manager.apply_template("Missing", "A:HP", &hp_params());
    assert!(!missing.is_complete());
    let broken = manager.apply_template("Derived", "A:HP", &params(&[]));
    assert!(!broken.is_complete());
    assert_eq!(broken.registrations.len(), 1);
    assert_eq!(manager.entity_records("A"), None);
    assert_eq!(manager.template_table().len(), 2);
}

#[test]
fn apply_template_records_a_global_stat_under_the_empty_entity() {
    let mut manager = manager();
    manager.apply_template("BaseHP", "player1_HP", &hp_params());
    manager.apply_template("BaseHP", ":HP", &hp_params());
    manager.apply_template("BaseHP", "guild:A:HP", &hp_params());
    assert_eq!(
        manager.entity_records(""),
        Some(&vec![
            record("", "player1_HP", "BaseHP", hp_params()),
            record("", "HP", "BaseHP", hp_params()),
        ])
    );
    assert_eq!(
        manager.entity_records("guild"),
        Some(&vec![record("guild", "A:HP", "BaseHP", hp_params())])
    );
}

#[test]
fn a_recorded_application_replays_to_the_same_plan() {
    let mut manager = manager();
    let first = manager.apply_template("Derived", "A:HP", &params(&[("per_str", 2.0)]));
    let records = vec![record("A", "HP", "Derived", params(&[("per_str", 2.0)]))];
    assert_eq!(manager.entity_records("A"), Some(&records));
    let replayed = manager.load_entity("A", records);
    assert_eq!(replayed, first);
}

#[test]
fn apply_templates_records_the_applications_that_came_to_their_end() {
    let mut manager = manager();
    let applications = vec![
        ("BaseHP".to_string(), "A:HP".to_string(), hp_params()),
        ("BaseHP".to_string(), "B:HP".to_string(), hp_params()),
        ("Derived".to_string(), "A:ATK".to_string(), params(&[])),
        ("BaseHP".to_string(), "C:HP".to_string(), hp_params()),
    ];
    let plan = manager.apply_templates(&applications);
    assert!(!plan.is_complete());
    assert_eq!(
        manager.entity_records("A"),
        Some(&vec![record("A", "HP", "BaseHP", hp_params())])
    );
    assert_eq!(
        manager.entity_records("B"),
        Some(&vec![record("B", "HP", "BaseHP", hp_params())])
    );
    assert_eq!(manager.entity_records("C"), None);
    let rest = vec![
        ("Derived".to_string(), "A:ATK".to_string(), params(&[("per_str", 1.0)])),
        ("BaseHP".to_string(), "C:HP".to_string(), hp_params()),
    ];
    let plan = manager.apply_templates(&rest);
    assert!(plan.is_complete());
    assert_eq!(
        manager.entity_records("A"),
        Some(&vec![
            record("A", "HP", "BaseHP", hp_params()),
            record("A", "ATK", "Derived", params(&[("per_str", 1.0)])),
        ])
    );
    assert_eq!(
        manager.entity_records("C"),
        Some(&vec![record("C", "HP", "BaseHP", hp_params())])
    );
}

#[test]
fn apply_templates_plans_each_application_in_order() {
    let applications = vec![
        ("BaseHP".to_string(), "A:HP".to_string(), hp_params()),
        ("Derived".to_string(), "A:ATK".to_string(), params(&[("per_str", 3.0)])),
    ];
    let plan = manager().apply_templates(&applications);
    assert_eq!(plan.error, None);
    let mut expected = hp_plan("A:HP");
    expected.extend(derived_plan("A:ATK", "A:STR", 3.0));
    assert_eq!(plan.registrations, expected);
}

#[test]
fn apply_templates_stops_at_the_first_application_that_fails() {
    let applications = vec![
        ("BaseHP".to_string(), "A:HP".to_string(), hp_params()),
        ("Derived".to_string(), "A:ATK".to_string(), params(&[])),
        ("BaseHP".to_string(), "B:HP".to_string(), hp_params()),
    ];
    let plan = manager().apply_templates(&applications);
    assert_eq!(
        plan.error,
        Some(invalid("Multiplier resolution error: Parameter not found: per_str"))
    );
    let mut expected = hp_plan("A:HP");
    expected.push(source("A:ATK", SourceUnit::Constant(num(20.0))));
    assert_eq!(plan.registrations, expected);
}

#[test]
fn apply_templates_of_nothing_is_the_empty_plan() {
    let plan = manager().apply_templates(&[]);
    assert_eq!(plan, Plan::new());
}

#[test]
fn load_entity_applies_each_record_to_the_stat_of_the_entity() {
    let records = vec![
        record("ignored", "HP", "BaseHP", hp_params()),
        record("ignored", "ATK", "Derived", params(&[("per_str", 2.0)])),
    ];
    let manager = manager();
    let plan = manager.load_entity("hero", records);
    assert_eq!(plan.error, None);
    let mut expected = hp_plan("hero:HP");
    expected.extend(derived_plan("hero:ATK", "hero:STR", 2.0));
    assert_eq!(plan.registrations, expected);
    assert_eq!(manager.entity_records("hero"), None);
    assert_eq!(manager.entity_records("ignored"), None);
}

#[test]
fn load_entity_stops_at_the_first_record_that_fails() {
    let records = vec![
        record("hero", "HP", "Nothing", hp_params()),
        record("hero", "ATK", "Derived", params(&[("per_str", 2.0)])),
    ];
    let plan = manager().load_entity("hero", records);
    assert_eq!(plan.error, Some(invalid("Template not found: Nothing")));
    assert!(plan.registrations.is_empty());
}

#[test]
fn load_entity_stats_applies_and_records() {
    let mut manager = manager();
    let plan = manager.load_entity_stats(vec![
        record("A", "HP", "BaseHP", hp_params()),
        record("B", "HP", "BaseHP", hp_params()),
        record("A", "ATK", "Derived", params(&[("per_str", 2.0)])),
    ]);
    assert_eq!(plan.error, None);
    let mut expected = hp_plan("A:HP");
    expected.extend(hp_plan("B:HP"));
    expected.extend(derived_plan("A:ATK", "A:STR", 2.0));
    assert_eq!(plan.registrations, expected);
    assert_eq!(
        manager.entity_records("A"),
        Some(&vec![
            record("A", "HP", "BaseHP", hp_params()),
            record("A", "ATK", "Derived", params(&[("per_str", 2.0)])),
        ])
    );
    assert_eq!(
        manager.entity_records("B"),
        Some(&vec![record("B", "HP", "BaseHP", hp_params())])
    );
    assert_eq!(manager.entity_records("C"), None);
}

#[test]
fn load_entity_stats_puts_new_records_behind_the_old() {
    let mut manager = manager();
    manager.load_entity_stats(vec![record("A", "HP", "BaseHP", hp_params())]);
    manager.load_entity_stats(vec![record("A", "ATK", "Derived", params(&[("per_str", 1.0)]))]);
    assert_eq!(
        manager.entity_records("A"),
        Some(&vec![
            record("A", "HP", "BaseHP", hp_params()),
            record("A", "ATK", "Derived", params(&[("per_str", 1.0)])),
        ])
    );
}

#[test]
fn load_entity_stats_records_nothing_where_an_application_fails() {
    let mut manager = manager();
    manager.load_entity_stats(vec![record("A", "HP", "BaseHP", hp_params())]);
    let plan = manager.load_entity_stats(vec![
        record("B", "HP", "BaseHP", hp_params()),
        record("A", "ATK", "Derived", params(&[])),
        record("C", "HP", "BaseHP", hp_params()),
    ]);
    assert_eq!(
        plan.error,
        Some(invalid("Multiplier resolution error: Parameter not found: per_str"))
    );
    let mut expected = hp_plan("B:HP");
    expected.push(source("A:ATK", SourceUnit::Constant(num(20.0))));
    assert_eq!(plan.registrations, expected);
    assert_eq!(
        manager.entity_records("A"),
        Some(&vec![record("A", "HP", "BaseHP", hp_params())])
    );
    assert_eq!(manager.entity_records("B"), None);
    assert_eq!(manager.entity_records("C"), None);
}

#[test]
fn create_entity_stats_applies_one_template_of_a_configuration() {
    let mut templates: Table<StatTemplate> = Table::new();
    templates.insert("BaseHP".to_string(), base_hp());
    let config = StatConfig { templates, stats: Table::new() };
    let plan = zzstat_json::create_entity_stats(config, "player1", "BaseHP", &hp_params());
    assert_eq!(plan.error, None);
    assert_eq!(plan.registrations, hp_plan("player1"));
    let missing = zzstat_json::create_entity_stats(
        StatConfig::default(),
        "player1",
        "BaseHP",
        &hp_params(),
    );
    assert_eq!(missing.error, Some(invalid("Template not found: BaseHP")));
    assert!(missing.registrations.is_empty());
}

#[test]
fn entity_stat_id_joins_with_a_colon() {
    assert_eq!(StatTemplateManager::entity_stat_id("player1", "HP"), "player1:HP");
    assert_eq!(StatTemplateManager::entity_stat_id("", "HP"), ":HP");
}

#[test]
fn entity_params_to_configs_makes_one_record_for_each_stat() {
    let mappings = vec![
        ("HP".to_string(), "BaseHP".to_string(), hp_params()),
        ("ATK".to_string(), "Derived".to_string(), params(&[("per_str", 2.0)])),
    ];
    let configs = StatTemplateManager::entity_params_to_configs("hero", &mappings);
    assert_eq!(
        configs,
        vec![
            record("hero", "HP", "BaseHP", hp_params()),
            record("hero", "ATK", "Derived", params(&[("per_str", 2.0)])),
        ]
    );
    assert!(StatTemplateManager::entity_params_to_configs("hero", &[]).is_empty());
}

#[test]
fn records_made_for_an_entity_load_to_its_stats() {
    let mappings = vec![("HP".to_string(), "BaseHP".to_string(), hp_params())];
    let configs = StatTemplateManager::entity_params_to_configs("hero", &mappings);
    let mut manager = manager();
    let plan = manager.load_entity_stats(configs);
    assert_eq!(plan.error, None);
    assert_eq!(plan.registrations, hp_plan("hero:HP"));
}

#[test]
fn units_added_directly_go_to_the_stat_of_the_entity() {
    let manager = manager();
    assert_eq!(
        manager.add_source_to_entity("hero", "ATK", SourceUnit::Constant(num(15.0))),
        source("hero:ATK", SourceUnit::Constant(num(15.0)))
    );
    assert_eq!(
        manager.add_transform_to_entity("hero", "ATK", TransformUnit::Multiplicative(num(1.1))),
        transform("hero:ATK", TransformUnit::Multiplicative(num(1.1)))
    );
    assert_eq!(manager.entity_records("hero"), None);
}

#[test]
fn a_plan_that_has_stopped_takes_nothing_more() {
    let mut plan = Plan::new();
    plan.push(source("HP", SourceUnit::Constant(num(1.0))));
    plan.push(transform("HP", TransformUnit::Multiplicative(num(2.0))));
    plan.fail(invalid("stop"));
    plan.push(source("HP", SourceUnit::Constant(num(3.0))));
    plan.fail(invalid("again"));
    assert_eq!(
        plan.registrations,
        vec![
            source("HP", SourceUnit::Constant(num(1.0))),
            transform("HP", TransformUnit::Multiplicative(num(2.0))),
        ]
    );
    assert_eq!(plan.error, Some(invalid("stop")));
    assert!(!plan.is_complete());
}
