use zzstat_json::error::YamlStatError;
use zzstat_json::table::ValueTable;
use zzstat_json::transform::{AdditiveTransform, TransformUnit};
use zzstat_json::transform_conditional::{ConditionalOperator, ConditionalTransform};
use zzstat_json::transform_map::MapTransform;
use zzstat_json::Number;

fn num(x: f64) -> Number {
    Number::from_bits(x.to_bits())
}

fn values(entries: &[(&str, f64)]) -> ValueTable {
    let mut table = ValueTable::new();
    for (name, value) in entries {
        table.insert(name.to_string(), num(*value));
    }
    table
}

fn names(list: &[&str]) -> Vec<String> {
    list.iter().map(|s| s.to_string()).collect()
}

fn difference(a: Number, b: Number) -> Number {
    num(f64::from_bits(a.to_bits()) - f64::from_bits(b.to_bits()))
}

fn met(operator: ConditionalOperator, a: f64, b: f64) -> bool {
    operator.evaluate(num(a), num(b), num(a - b))
}

fn sum_scaled(current: f64, terms: &[Number], multiplier: Number) -> f64 {
    let mut sum = 0.0;
    for term in terms {
        sum += f64::from_bits(term.to_bits());
    }
    current + (sum * f64::from_bits(multiplier.to_bits()))
}

#[test]
fn operators_are_read_from_their_spelling() {
    assert_eq!(ConditionalOperator::from_str(">"), Ok(ConditionalOperator::GreaterThan));
    assert_eq!(ConditionalOperator::from_str("<"), Ok(ConditionalOperator::LessThan));
    assert_eq!(ConditionalOperator::from_str(">="), Ok(ConditionalOperator::GreaterThanOrEqual));
    assert_eq!(ConditionalOperator::from_str("<="), Ok(ConditionalOperator::LessThanOrEqual));
    assert_eq!(ConditionalOperator::from_str("=="), Ok(ConditionalOperator::Equal));
}

#[test]
fn other_spellings_are_no_operators() {
    for op in ["", "=", "!=", "=>", "=<", " >", "> ", ">>", "===", "gt", "≥"] {
        assert_eq!(
            ConditionalOperator::from_str(op),
            Err(format!("Invalid operator: {}", op))
        );
    }
}

#[test]
fn every_operator_is_read_back_from_its_spelling() {
    for operator in [
        ConditionalOperator::GreaterThan,
        ConditionalOperator::LessThan,
        ConditionalOperator::GreaterThanOrEqual,
        ConditionalOperator::LessThanOrEqual,
        ConditionalOperator::Equal,
    ] {
        assert_eq!(ConditionalOperator::from_str(operator.as_str()), Ok(operator));
    }
    assert_eq!(ConditionalOperator::GreaterThanOrEqual.as_str(), ">=");
    assert_eq!(ConditionalOperator::Equal.as_str(), "==");
}

#[test]
fn greater_than_holds_above_the_boundary_only() {
    assert!(met(ConditionalOperator::GreaterThan, 50.1, 50.0));
    assert!(!met(ConditionalOperator::GreaterThan, 50.0, 50.0));
    assert!(!met(ConditionalOperator::GreaterThan, 49.9, 50.0));
}

#[test]
fn less_than_holds_below_the_boundary_only() {
    assert!(met(ConditionalOperator::LessThan, 49.9, 50.0));
    assert!(!met(ConditionalOperator::LessThan, 50.0, 50.0));
    assert!(!met(ConditionalOperator::LessThan, 50.1, 50.0));
}

#[test]
fn greater_or_equal_holds_at_the_boundary_and_above() {
    assert!(met(ConditionalOperator::GreaterThanOrEqual, 50.1, 50.0));
    assert!(met(ConditionalOperator::GreaterThanOrEqual, 50.0, 50.0));
    assert!(!met(ConditionalOperator::GreaterThanOrEqual, 49.9, 50.0));
}

#[test]
fn less_or_equal_holds_at_the_boundary_and_below() {
    assert!(met(ConditionalOperator::LessThanOrEqual, 49.9, 50.0));
    assert!(met(ConditionalOperator::LessThanOrEqual, 50.0, 50.0));
    assert!(!met(ConditionalOperator::LessThanOrEqual, 50.1, 50.0));
}

#[test]
fn equality_tolerates_noise_below_the_tolerance() {
    assert!(met(ConditionalOperator::Equal, 0.1 + 0.2, 0.3));
    assert!(met(ConditionalOperator::Equal, 50.0, 50.0));
    assert!(!met(ConditionalOperator::Equal, 50.0, 50.0001));
    assert!(!met(ConditionalOperator::Equal, 1.0, 1.0 + f64::EPSILON));
}

#[test]
fn the_operators_agree_with_the_comparisons_of_doubles() {
    let samples = [
        0.0,
        -0.0,
        1.0,
        -1.0,
        0.3,
        0.1 + 0.2,
        50.0,
        1e300,
        f64::INFINITY,
        f64::NEG_INFINITY,
        f64::NAN,
        5e-324,
    ];
    for a in samples {
        for b in samples {
            assert_eq!(met(ConditionalOperator::GreaterThan, a, b), a > b);
            assert_eq!(met(ConditionalOperator::LessThan, a, b), a < b);
            assert_eq!(met(ConditionalOperator::GreaterThanOrEqual, a, b), a >= b);
            assert_eq!(met(ConditionalOperator::LessThanOrEqual, a, b), a <= b);
            assert_eq!(
                met(ConditionalOperator::Equal, a, b),
                (a - b).abs() < f64::EPSILON
            );
        }
    }
}

#[test]
fn equality_goes_by_the_difference_alone() {
    assert!(ConditionalOperator::Equal.evaluate(num(1.0), num(2.0), num(0.0)));
    assert!(!ConditionalOperator::Equal.evaluate(num(1.0), num(1.0), num(1.0)));
    assert!(ConditionalOperator::GreaterThan.evaluate(num(2.0), num(1.0), num(0.0)));
    assert!(!ConditionalOperator::GreaterThan.evaluate(num(1.0), num(1.0), num(5.0)));
}

#[test]
fn the_tolerance_is_the_machine_epsilon() {
    let below = f64::from_bits(f64::EPSILON.to_bits() - 1);
    for (value, within) in [
        (0.0, true),
        (-0.0, true),
        (5e-324, true),
        (below, true),
        (-below, true),
        (f64::EPSILON, false),
        (-f64::EPSILON, false),
        (1.0, false),
        (f64::INFINITY, false),
        (f64::NEG_INFINITY, false),
        (f64::NAN, false),
        (-f64::NAN, false),
    ] {
        assert_eq!(
            ConditionalOperator::Equal.evaluate(num(0.0), num(0.0), num(value)),
            within,
            "{:?}",
            value
        );
        assert_eq!(within, value.abs() < f64::EPSILON);
    }
}

#[test]
fn additive_keeps_its_value() {
    assert_eq!(AdditiveTransform::new(num(10.0)).value(), num(10.0));
    assert_eq!(
        TransformUnit::Additive(AdditiveTransform::new(num(10.0))).depends_on(),
        Vec::<String>::new()
    );
}

#[test]
fn plain_transforms_depend_on_nothing() {
    assert!(TransformUnit::Multiplicative(num(1.5)).depends_on().is_empty());
    assert!(TransformUnit::Clamp { min: num(0.0), max: num(1.0) }.depends_on().is_empty());
}

#[test]
fn map_depends_on_its_stats_in_order() {
    let map = MapTransform::new(names(&["Strength", "Vitality"]), num(2.0));
    assert_eq!(map.depends_on(), names(&["Strength", "Vitality"]));
    assert_eq!(map.multiplier(), num(2.0));
    assert_eq!(
        TransformUnit::Mapped(map).depends_on(),
        names(&["Strength", "Vitality"])
    );
}

#[test]
fn map_collects_the_values_of_its_stats() {
    let map = MapTransform::new(names(&["Strength", "Vitality"]), num(2.0));
    let table = values(&[("Vitality", 5.0), ("Other", 1.0), ("Strength", 10.0)]);
    assert_eq!(map.collect(&table), Ok(vec![num(10.0), num(5.0)]));
}

#[test]
fn map_adds_the_sum_times_the_multiplier() {
    let map = MapTransform::new(names(&["Strength", "Vitality"]), num(2.0));
    let table = values(&[("Strength", 10.0), ("Vitality", 5.0)]);
    let terms = map.collect(&table).unwrap();
    assert_eq!(sum_scaled(20.0, &terms, map.multiplier()), 50.0);
}

#[test]
fn map_fails_on_the_first_stat_without_a_value() {
    let map = MapTransform::new(names(&["Strength", "Vitality", "Luck"]), num(2.0));
    assert_eq!(
        map.collect(&values(&[("Strength", 10.0)])),
        Err(YamlStatError::MissingDependency("Vitality".to_string()))
    );
    assert_eq!(
        map.collect(&values(&[("Vitality", 5.0), ("Luck", 1.0)])),
        Err(YamlStatError::MissingDependency("Strength".to_string()))
    );
    assert_eq!(
        map.collect(&values(&[])),
        Err(YamlStatError::MissingDependency("Strength".to_string()))
    );
}

#[test]
fn map_without_stats_collects_nothing() {
    let map = MapTransform::new(Vec::new(), num(3.0));
    assert_eq!(map.collect(&values(&[])), Ok(Vec::new()));
    assert!(map.depends_on().is_empty());
}

#[test]
fn map_counts_a_stat_that_is_named_twice_twice() {
    let map = MapTransform::new(names(&["STR", "STR"]), num(1.0));
    assert_eq!(map.collect(&values(&[("STR", 4.0)])), Ok(vec![num(4.0), num(4.0)]));
}

fn conditional(operator: ConditionalOperator, with_else: bool) -> ConditionalTransform {
    ConditionalTransform::new(
        "A:Level".to_string(),
        num(10.0),
        operator,
        Box::new(TransformUnit::Multiplicative(num(2.0))),
        if with_else {
            Some(Box::new(TransformUnit::Additive(AdditiveTransform::new(num(1.0)))))
        } else {
            None
        },
    )
}

fn routed(transform: &ConditionalTransform, table: &ValueTable) -> Option<TransformUnit> {
    let input = transform.condition_input(table);
    let gap = difference(input, transform.condition_value());
    match transform.route(table, gap) {
        Some(TransformUnit::Multiplicative(n)) => Some(TransformUnit::Multiplicative(*n)),
        Some(TransformUnit::Additive(a)) => Some(TransformUnit::Additive(*a)),
        Some(_) => panic!("unexpected branch"),
        None => None,
    }
}

#[test]
fn conditional_keeps_its_parts() {
    let transform = conditional(ConditionalOperator::GreaterThanOrEqual, true);
    assert_eq!(transform.condition_stat_id(), "A:Level");
    assert_eq!(transform.condition_value(), num(10.0));
    assert_eq!(transform.operator(), ConditionalOperator::GreaterThanOrEqual);
}

#[test]
fn conditional_takes_the_first_branch_where_the_condition_is_met() {
    let transform = conditional(ConditionalOperator::GreaterThanOrEqual, true);
    assert_eq!(
        routed(&transform, &values(&[("A:Level", 10.0)])),
        Some(TransformUnit::Multiplicative(num(2.0)))
    );
    assert_eq!(
        routed(&transform, &values(&[("A:Level", 11.0)])),
        Some(TransformUnit::Multiplicative(num(2.0)))
    );
}

#[test]
fn conditional_takes_the_second_branch_where_it_is_not() {
    let transform = conditional(ConditionalOperator::GreaterThanOrEqual, true);
    assert_eq!(
        routed(&transform, &values(&[("A:Level", 9.0)])),
        Some(TransformUnit::Additive(AdditiveTransform::new(num(1.0))))
    );
}

#[test]
fn conditional_without_second_branch_leaves_the_value() {
    let transform = conditional(ConditionalOperator::GreaterThan, false);
    assert_eq!(routed(&transform, &values(&[("A:Level", 10.0)])), None);
    assert_eq!(
        routed(&transform, &values(&[("A:Level", 10.5)])),
        Some(TransformUnit::Multiplicative(num(2.0)))
    );
}

#[test]
fn conditional_routes_at_the_boundary_of_each_operator() {
    let cases = [
        (ConditionalOperator::GreaterThan, [false, false, true]),
        (ConditionalOperator::LessThan, [true, false, false]),
        (ConditionalOperator::GreaterThanOrEqual, [false, true, true]),
        (ConditionalOperator::LessThanOrEqual, [true, true, false]),
        (ConditionalOperator::Equal, [false, true, false]),
    ];
    for (operator, expected) in cases {
        let transform = conditional(operator, true);
        for (value, first) in [9.0, 10.0, 11.0].iter().zip(expected) {
            let chosen = routed(&transform, &values(&[("A:Level", *value)]));
            if first {
                assert_eq!(chosen, Some(TransformUnit::Multiplicative(num(2.0))));
            } else {
                assert_eq!(
                    chosen,
                    Some(TransformUnit::Additive(AdditiveTransform::new(num(1.0))))
                );
            }
        }
    }
}

#[test]
fn conditional_counts_a_missing_stat_as_zero() {
    let transform = conditional(ConditionalOperator::LessThan, true);
    let table = values(&[("B:Level", 99.0), ("Level", 99.0)]);
    assert_eq!(transform.condition_input(&table), num(0.0));
    assert_eq!(
        routed(&transform, &table),
        Some(TransformUnit::Multiplicative(num(2.0)))
    );
    let other = conditional(ConditionalOperator::GreaterThan, true);
    assert_eq!(
        routed(&other, &table),
        Some(TransformUnit::Additive(AdditiveTransform::new(num(1.0))))
    );
}

#[test]
fn conditional_reads_the_value_of_its_stat() {
    let transform = conditional(ConditionalOperator::Equal, false);
    assert_eq!(
        transform.condition_input(&values(&[("A:Level", 7.5)])),
        num(7.5)
    );
}

#[test]
fn branch_follows_the_verdict() {
    let transform = conditional(ConditionalOperator::Equal, true);
    assert_eq!(
        transform.branch(true),
        Some(&TransformUnit::Multiplicative(num(2.0)))
    );
    assert_eq!(
        transform.branch(false),
        Some(&TransformUnit::Additive(AdditiveTransform::new(num(1.0))))
    );
    let bare = conditional(ConditionalOperator::Equal, false);
    assert_eq!(bare.branch(false), None);
}

#[test]
fn conditional_depends_on_its_stat_and_on_its_branches() {
    let inner = ConditionalTransform::new(
        "A:Mana".to_string(),
        num(1.0),
        ConditionalOperator::LessThan,
        Box::new(TransformUnit::Mapped(MapTransform::new(
            names(&["A:INT", "A:WIS"]),
            num(1.0),
        ))),
        None,
    );
    let outer = ConditionalTransform::new(
        "A:Level".to_string(),
        num(10.0),
        ConditionalOperator::GreaterThan,
        Box::new(TransformUnit::Conditional(inner)),
        Some(Box::new(TransformUnit::Mapped(MapTransform::new(
            names(&["A:STR"]),
            num(2.0),
        )))),
    );
    assert_eq!(
        outer.depends_on(),
        names(&["A:Level", "A:Mana", "A:INT", "A:WIS", "A:STR"])
    );
    assert_eq!(
        TransformUnit::Conditional(outer).depends_on(),
        names(&["A:Level", "A:Mana", "A:INT", "A:WIS", "A:STR"])
    );
}
