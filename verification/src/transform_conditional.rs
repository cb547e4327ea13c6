//! The transform that applies one of two transforms, as a condition on
//! another stat goes.

use vstd::prelude::*;
use crate::config::{branches_depth, spelled, TransformConfig};
use crate::error::{headed, ErrorModel, YamlStatError};
use crate::number::{Number, Relation, EPSILON_BITS};
use crate::table::ValueTable;
use crate::compile::{compiled, compiled_transform, invalid_config};
use crate::template::StatTemplateManager;
use crate::text::{scope_name, scoped, texts, to_chars};
use crate::transform::{TransformModel, TransformUnit};

verus! {

/// A comparison between the value of a stat and a fixed value.
#[derive(Debug, Clone, Copy, PartialEq, Eq, Structural)]
pub enum ConditionalOperator {
    GreaterThan,
    LessThan,
    GreaterThanOrEqual,
    LessThanOrEqual,
    /// Equal up to a tolerance, the machine epsilon.
    Equal,
}

/// The operator that a text spells, if it spells one.
pub open spec fn spelled_operator(text: Seq<char>) -> Option<ConditionalOperator> {
    if text == seq!['>'] {
        Some(ConditionalOperator::GreaterThan)
    } else if text == seq!['<'] {
        Some(ConditionalOperator::LessThan)
    } else if text == seq!['>', '='] {
        Some(ConditionalOperator::GreaterThanOrEqual)
    } else if text == seq!['<', '='] {
        Some(ConditionalOperator::LessThanOrEqual)
    } else if text == seq!['=', '='] {
        Some(ConditionalOperator::Equal)
    } else {
        None
    }
}

/// Whether two numbers count as equal, given their difference: its
/// magnitude lies below the machine epsilon. What is not a number is close
/// to nothing.
pub open spec fn within_tolerance(difference: Number) -> bool {
    difference.unsigned().relation_to(Number::epsilon()) == Relation::Less
}

/// What is said of a text that spells no operator.
pub open spec fn invalid_operator(text: Seq<char>) -> Seq<char> {
    "Invalid operator: "@ + text
}

impl ConditionalOperator {
    /// How the operator is spelled.
    pub open spec fn symbol(self) -> Seq<char> {
        match self {
            ConditionalOperator::GreaterThan => seq!['>'],
            ConditionalOperator::LessThan => seq!['<'],
            ConditionalOperator::GreaterThanOrEqual => seq!['>', '='],
            ConditionalOperator::LessThanOrEqual => seq!['<', '='],
            ConditionalOperator::Equal => seq!['=', '='],
        }
    }

    /// Whether the comparison holds of two numbers, given how the first
    /// stands to the second and what their difference is.
    ///
    /// The four comparisons of order go by the relation alone, and fail of
    /// what is not a number. Equality goes by the difference alone: it
    /// holds where the magnitude of the difference lies below the machine
    /// epsilon.
    pub open spec fn holds(self, relation: Relation, difference: Number) -> bool {
        match self {
            ConditionalOperator::GreaterThan => relation == Relation::Greater,
            ConditionalOperator::LessThan => relation == Relation::Less,
            ConditionalOperator::GreaterThanOrEqual => relation == Relation::Greater || relation
                == Relation::Equal,
            ConditionalOperator::LessThanOrEqual => relation == Relation::Less || relation
                == Relation::Equal,
            ConditionalOperator::Equal => within_tolerance(difference),
        }
    }

    /// Reads an operator: one of `>`, `<`, `>=`, `<=`, `==`.
    pub fn from_str(op: &str) -> (r: Result<Self, String>)
        ensures
            spelled(r) == match spelled_operator(op@) {
                Some(operator) => Ok::<Self, Seq<char>>(operator),
                None => Err::<Self, Seq<char>>(invalid_operator(op@)),
            },
    {
        let chars = to_chars(op);
        if chars.len() == 1 && chars[0] == '>' {
            assert(chars@ == seq!['>']);
            Ok(ConditionalOperator::GreaterThan)
        } else if chars.len() == 1 && chars[0] == '<' {
            assert(chars@ == seq!['<']);
            Ok(ConditionalOperator::LessThan)
        } else if chars.len() == 2 && chars[0] == '>' && chars[1] == '=' {
            assert(chars@ == seq!['>', '=']);
            Ok(ConditionalOperator::GreaterThanOrEqual)
        } else if chars.len() == 2 && chars[0] == '<' && chars[1] == '=' {
            assert(chars@ == seq!['<', '=']);
            Ok(ConditionalOperator::LessThanOrEqual)
        } else if chars.len() == 2 && chars[0] == '=' && chars[1] == '=' {
            assert(chars@ == seq!['=', '=']);
            Ok(ConditionalOperator::Equal)
        } else {
            assert(spelled_operator(chars@) is None) by {
                assert(seq!['>'].len() == 1 && seq!['>'][0] == '>');
                assert(seq!['<'].len() == 1 && seq!['<'][0] == '<');
                assert(seq!['>', '='].len() == 2 && seq!['>', '='][0] == '>' && seq!['>', '='][1]
                    == '=');
                assert(seq!['<', '='].len() == 2 && seq!['<', '='][0] == '<' && seq!['<', '='][1]
                    == '=');
                assert(seq!['=', '='].len() == 2 && seq!['=', '='][0] == '=' && seq!['=', '='][1]
                    == '=');
            }
            Err(headed("Invalid operator: ", op))
        }
    }

    /// How the operator is spelled.
    pub fn as_str(&self) -> (text: &'static str)
        ensures
            text@ == self.symbol(),
    {
        proof {
            reveal_strlit(">");
            reveal_strlit("<");
            reveal_strlit(">=");
            reveal_strlit("<=");
            reveal_strlit("==");
        }
        let text = match self {
            ConditionalOperator::GreaterThan => ">",
            ConditionalOperator::LessThan => "<",
            ConditionalOperator::GreaterThanOrEqual => ">=",
            ConditionalOperator::LessThanOrEqual => "<=",
            ConditionalOperator::Equal => "==",
        };
        assert(text@ =~= self.symbol());
        text
    }

    /// Whether the comparison holds of the value of a stat and the value of
    /// the condition. `difference` is the first minus the second, as the
    /// caller's arithmetic finds it; only equality asks for it.
    pub fn evaluate(&self, stat_value: Number, condition_value: Number, difference: Number) -> (met:
        bool)
        ensures
            met == self.holds(stat_value.relation_to(condition_value), difference),
    {
        match self {
            ConditionalOperator::GreaterThan => stat_value.relation(condition_value)
                == Relation::Greater,
            ConditionalOperator::LessThan => stat_value.relation(condition_value) == Relation::Less,
            ConditionalOperator::GreaterThanOrEqual => {
                let relation = stat_value.relation(condition_value);
                relation == Relation::Greater || relation == Relation::Equal
            },
            ConditionalOperator::LessThanOrEqual => {
                let relation = stat_value.relation(condition_value);
                relation == Relation::Less || relation == Relation::Equal
            },
            ConditionalOperator::Equal => difference.abs().relation(Number::from_bits(EPSILON_BITS))
                == Relation::Less,
        }
    }
}

/// At the boundary, where the value of the stat equals the value of the
/// condition, the comparisons that admit equality hold and the strict ones
/// do not.
pub proof fn lemma_operators_at_boundary(value: Number, difference: Number)
    requires
        !value.is_nan(),
    ensures
        ConditionalOperator::GreaterThanOrEqual.holds(value.relation_to(value), difference),
        ConditionalOperator::LessThanOrEqual.holds(value.relation_to(value), difference),
        !ConditionalOperator::GreaterThan.holds(value.relation_to(value), difference),
        !ConditionalOperator::LessThan.holds(value.relation_to(value), difference),
{
}

/// Of two numbers, a comparison of order holds exactly where the
/// comparison that looks the other way and admits equality does not, and
/// where the two change places, greater and less change places with them.
pub proof fn lemma_operators_of_order(
    stat_value: Number,
    condition_value: Number,
    difference: Number,
)
    requires
        !stat_value.is_nan(),
        !condition_value.is_nan(),
    ensures
        ConditionalOperator::GreaterThan.holds(stat_value.relation_to(condition_value), difference)
            == !ConditionalOperator::LessThanOrEqual.holds(
            stat_value.relation_to(condition_value),
            difference,
        ),
        ConditionalOperator::LessThan.holds(stat_value.relation_to(condition_value), difference)
            == !ConditionalOperator::GreaterThanOrEqual.holds(
            stat_value.relation_to(condition_value),
            difference,
        ),
        ConditionalOperator::GreaterThan.holds(stat_value.relation_to(condition_value), difference)
            == ConditionalOperator::LessThan.holds(
            condition_value.relation_to(stat_value),
            difference,
        ),
        ConditionalOperator::GreaterThan.holds(stat_value.relation_to(condition_value), difference)
            == (stat_value.rank() > condition_value.rank()),
        ConditionalOperator::LessThan.holds(stat_value.relation_to(condition_value), difference)
            == (stat_value.rank() < condition_value.rank()),
{
}

/// No comparison of order holds of what is not a number.
pub proof fn lemma_operators_unordered(
    operator: ConditionalOperator,
    stat_value: Number,
    condition_value: Number,
    difference: Number,
)
    requires
        stat_value.is_nan() || condition_value.is_nan(),
        operator != ConditionalOperator::Equal,
    ensures
        !operator.holds(stat_value.relation_to(condition_value), difference),
{
}

/// Equality goes by the difference alone, and by its magnitude: a
/// difference of zero is within the tolerance, the machine epsilon itself
/// is not, and neither is what is not a number.
pub proof fn lemma_equality_by_difference(relation: Relation, difference: Number)
    ensures
        ConditionalOperator::Equal.holds(relation, difference) == within_tolerance(difference),
        within_tolerance(difference) == within_tolerance(difference.unsigned()),
        within_tolerance(difference) == (!difference.is_nan() && difference.magnitude()
            < EPSILON_BITS),
        within_tolerance(Number::zero()),
        !within_tolerance(Number::epsilon()),
{
}

/// Every operator is read back from its spelling.
pub proof fn lemma_symbol_spells_operator(operator: ConditionalOperator)
    ensures
        spelled_operator(operator.symbol()) == Some(operator),
{
    assert(seq!['>'].len() == 1 && seq!['<'].len() == 1);
    assert(seq!['>', '='].len() == 2 && seq!['<', '='].len() == 2 && seq!['=', '='].len() == 2);
    assert(seq!['>'][0] == '>' && seq!['<'][0] == '<');
    assert(seq!['>', '='][0] == '>' && seq!['<', '='][0] == '<' && seq!['=', '='][0] == '=');
}

/// Applies one transform where the condition is met, and another, or none,
/// where it is not.
#[derive(Debug, PartialEq, Eq)]
pub struct ConditionalTransform {
    condition_stat_id: String,
    condition_value: Number,
    operator: ConditionalOperator,
    then_transform: Box<TransformUnit>,
    else_transform: Option<Box<TransformUnit>>,
}

/// What a conditional transform stands for.
pub struct ConditionalModel {
    /// The identifier of the stat whose value is compared.
    pub condition_stat: Seq<char>,
    /// The value it is compared with.
    pub condition_value: Number,
    pub operator: ConditionalOperator,
    /// Applied where the condition is met.
    pub then_branch: Box<TransformModel>,
    /// Applied where it is not. Without it the running value stays as it is.
    pub else_branch: Option<Box<TransformModel>>,
}

impl View for ConditionalTransform {
    type V = ConditionalModel;

    closed spec fn view(&self) -> ConditionalModel
        decreases self,
    {
        ConditionalModel {
            condition_stat: self.condition_stat_id@,
            condition_value: self.condition_value,
            operator: self.operator,
            then_branch: Box::new((*self.then_transform)@),
            else_branch: match self.else_transform {
                Some(transform) => Some(Box::new((*transform)@)),
                None => None,
            },
        }
    }
}

impl ConditionalModel {
    /// The stat of the condition, then what the branches depend on.
    pub open spec fn dependencies(self) -> Seq<Seq<char>>
        decreases self,
    {
        seq![self.condition_stat] + self.then_branch.dependencies() + match self.else_branch {
            Some(transform) => transform.dependencies(),
            None => Seq::empty(),
        }
    }

    /// The value that the condition is evaluated on: that of its stat, or
    /// zero where the stat has none.
    pub open spec fn input(self, values: Map<Seq<char>, Number>) -> Number {
        if values.contains_key(self.condition_stat) {
            values[self.condition_stat]
        } else {
            Number::zero()
        }
    }

    /// Whether the condition is met under the given values, where
    /// `difference` is the value of the stat minus the value of the
    /// condition.
    pub open spec fn met(self, values: Map<Seq<char>, Number>, difference: Number) -> bool {
        self.operator.holds(self.input(values).relation_to(self.condition_value), difference)
    }

    /// The transform to apply under the given values, or none where the
    /// value stays as it is.
    pub open spec fn routed(self, values: Map<Seq<char>, Number>, difference: Number) -> Option<
        TransformModel,
    > {
        self.selected(self.met(values, difference))
    }

    /// The transform to apply, or none where the value stays as it is.
    pub open spec fn selected(self, condition_met: bool) -> Option<TransformModel> {
        if condition_met {
            Some(*self.then_branch)
        } else {
            match self.else_branch {
                Some(transform) => Some(*transform),
                None => None,
            }
        }
    }
}

/// The conditional transform that a description compiles to, given what
/// its branches compile to.
///
/// The operator is read first, then the first branch is looked at, then
/// the second: the first of these that fails gives the error.
pub open spec fn compiled_conditional(
    condition_stat: Seq<char>,
    condition_value: Number,
    operator: Seq<char>,
    then_branch: Result<TransformModel, ErrorModel>,
    else_branch: Option<Result<TransformModel, ErrorModel>>,
    entity_id: Seq<char>,
) -> Result<ConditionalModel, ErrorModel> {
    match spelled_operator(operator) {
        None => Err(invalid_config("Operator error: "@, invalid_operator(operator))),
        Some(op) => match then_branch {
            Err(e) => Err(e),
            Ok(first) => match else_branch {
                Some(Err(e)) => Err(e),
                Some(Ok(second)) => Ok(
                    ConditionalModel {
                        condition_stat: scoped(entity_id, condition_stat),
                        condition_value,
                        operator: op,
                        then_branch: Box::new(first),
                        else_branch: Some(Box::new(second)),
                    },
                ),
                None => Ok(
                    ConditionalModel {
                        condition_stat: scoped(entity_id, condition_stat),
                        condition_value,
                        operator: op,
                        then_branch: Box::new(first),
                        else_branch: None,
                    },
                ),
            },
        },
    }
}

/// Where the condition is met the first branch is applied. Where it is
/// not, the second is, and without a second the value stays as it is.
pub proof fn lemma_conditional_routes(model: ConditionalModel)
    ensures
        model.selected(true) == Some(*model.then_branch),
        model.selected(false) == match model.else_branch {
            Some(transform) => Some(*transform),
            None => None,
        },
        model.else_branch is None ==> model.selected(false) is None,
{
}

/// A stat without a value counts as zero in a condition: this is no error.
pub proof fn lemma_condition_input(model: ConditionalModel, values: Map<Seq<char>, Number>)
    ensures
        values.contains_key(model.condition_stat) ==> model.input(values)
            == values[model.condition_stat],
        !values.contains_key(model.condition_stat) ==> model.input(values) == Number::zero(),
{
}

impl ConditionalTransform {
    /// Compiles a conditional transform from the parts of its description,
    /// under the given parameters and for a stat of the given entity.
    pub fn from_config(
        condition_stat: &str,
        condition_value: Number,
        operator: &str,
        then_branch: &TransformConfig,
        else_then: &Option<Box<TransformConfig>>,
        params: &ValueTable,
        entity_id: &str,
    ) -> (r: Result<ConditionalTransform, YamlStatError>)
        ensures
            compiled(r) == compiled_conditional(
                condition_stat@,
                condition_value,
                operator@,
                compiled_transform(*then_branch, params@, entity_id@),
                match else_then {
                    Some(branch) => Some(compiled_transform(**branch, params@, entity_id@)),
                    None => None,
                },
                entity_id@,
            ),
        decreases branches_depth(*then_branch, *else_then), 1nat,
    {
        let condition_stat_id = scope_name(entity_id, condition_stat);
        let op = match ConditionalOperator::from_str(operator) {
            Ok(op) => op,
            Err(e) => {
                return Err(YamlStatError::InvalidConfig(headed("Operator error: ", e.as_str())));
            },
        };
        let then_transform = match StatTemplateManager::resolve_transform_with_entity(
            then_branch,
            params,
            entity_id,
        ) {
            Ok(unit) => unit,
            Err(e) => {
                return Err(e);
            },
        };
        let else_transform = match else_then {
            Some(branch) => match StatTemplateManager::resolve_transform_with_entity(
                branch,
                params,
                entity_id,
            ) {
                Ok(unit) => Some(Box::new(unit)),
                Err(e) => {
                    return Err(e);
                },
            },
            None => None,
        };
        Ok(
            Self::new(
                condition_stat_id,
                condition_value,
                op,
                Box::new(then_transform),
                else_transform,
            ),
        )
    }

    /// The transform with the given condition and branches.
    pub fn new(
        condition_stat_id: String,
        condition_value: Number,
        operator: ConditionalOperator,
        then_transform: Box<TransformUnit>,
        else_transform: Option<Box<TransformUnit>>,
    ) -> (transform: Self)
        ensures
            transform@ == (ConditionalModel {
                condition_stat: condition_stat_id@,
                condition_value,
                operator,
                then_branch: Box::new((*then_transform)@),
                else_branch: match else_transform {
                    Some(t) => Some(Box::new((*t)@)),
                    None => None,
                },
            }),
    {
        ConditionalTransform {
            condition_stat_id,
            condition_value,
            operator,
            then_transform,
            else_transform,
        }
    }

    /// The stat of the condition, then what the branches depend on.
    pub fn depends_on(&self) -> (ids: Vec<String>)
        ensures
            texts(ids@) == self@.dependencies(),
        decreases self,
    {
        let mut ids: Vec<String> = Vec::new();
        ids.push(self.condition_stat_id.clone());
        assert(texts(ids@) == seq![self.condition_stat_id@]);
        let mut more = self.then_transform.depends_on();
        let ghost first = ids@;
        let ghost second = more@;
        ids.append(&mut more);
        assert(texts(ids@) == texts(first) + texts(second));
        match &self.else_transform {
            Some(transform) => {
                let mut rest = transform.depends_on();
                let ghost third = rest@;
                let ghost so_far = ids@;
                ids.append(&mut rest);
                assert(texts(ids@) == texts(so_far) + texts(third));
            },
            None => {},
        }
        ids
    }

    /// The value that the condition compares with.
    pub fn condition_value(&self) -> (value: Number)
        ensures
            value == self@.condition_value,
    {
        self.condition_value
    }

    /// The comparison of the condition.
    pub fn operator(&self) -> (operator: ConditionalOperator)
        ensures
            operator == self@.operator,
    {
        self.operator
    }

    /// The value that the condition is evaluated on: that of its stat, or
    /// zero where the stat has none. A missing value is no error here.
    pub fn condition_input(&self, dependencies: &ValueTable) -> (value: Number)
        ensures
            value == self@.input(dependencies@),
    {
        match dependencies.get(self.condition_stat_id.as_str()) {
            Some(value) => *value,
            None => Number::from_bits(0),
        }
    }

    /// The identifier of the stat whose value is compared.
    pub fn condition_stat_id(&self) -> (id: &str)
        ensures
            id@ == self@.condition_stat,
    {
        self.condition_stat_id.as_str()
    }

    /// The transform to apply to the running value, given the values of
    /// the stats it depends on, or `None` where the value stays as it is.
    ///
    /// `difference` is what `condition_input` gives minus what
    /// `condition_value` gives, as the caller's arithmetic finds it.
    pub fn route(&self, dependencies: &ValueTable, difference: Number) -> (chosen: Option<
        &TransformUnit,
    >)
        ensures
            match chosen {
                Some(transform) => self@.routed(dependencies@, difference) == Some(transform@),
                None => self@.routed(dependencies@, difference) is None,
            },
    {
        let stat_value = self.condition_input(dependencies);
        let met = self.operator.evaluate(stat_value, self.condition_value, difference);
        self.branch(met)
    }

    /// The transform to apply to the running value, or `None` where the
    /// value stays as it is: the first branch where the condition is met,
    /// else the second, if there is one.
    pub fn branch(&self, condition_met: bool) -> (chosen: Option<&TransformUnit>)
        ensures
            match chosen {
                Some(transform) => self@.selected(condition_met) == Some(transform@),
                None => self@.selected(condition_met) is None,
            },
    {
        if condition_met {
            Some(&*self.then_transform)
        } else {
            match &self.else_transform {
                Some(transform) => Some(&**transform),
                None => None,
            }
        }
    }
}

} // verus!
