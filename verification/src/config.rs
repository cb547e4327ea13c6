//! The configuration: templates and stats, their sources and transforms,
//! and values that are written as numbers or as references to parameters.

use vstd::prelude::*;
use crate::error::headed;
use crate::number::Number;
use crate::table::{Table, ValueTable};
use crate::text::{is_placeholder, placeholder, placeholder_name, texts, trim};

verus! {

/// The configuration of stats: reusable templates, and stats that are
/// defined outright.
#[derive(Debug)]
pub struct StatConfig {
    /// Templates by name.
    pub templates: Table<StatTemplate>,
    /// Stats by name, for immediate use.
    pub stats: Table<StatDefinition>,
}

/// A parameterised definition of a stat, to be applied to many stats.
#[derive(Debug)]
pub struct StatTemplate {
    /// What the template is for.
    pub description: Option<String>,
    /// The sources, whose values add up.
    pub sources: Vec<SourceConfig>,
    /// The transforms, in the order in which they are applied.
    pub transforms: Vec<TransformConfig>,
}

/// The definition of one stat.
#[derive(Debug)]
pub struct StatDefinition {
    /// The sources, whose values add up.
    pub sources: Vec<SourceConfig>,
    /// The transforms, in the order in which they are applied.
    pub transforms: Vec<TransformConfig>,
}

impl Default for StatConfig {
    /// The configuration without templates and without stats.
    fn default() -> (config: Self)
        ensures
            config.templates.entries() == Seq::<(Seq<char>, StatTemplate)>::empty(),
            config.stats.entries() == Seq::<(Seq<char>, StatDefinition)>::empty(),
    {
        StatConfig { templates: Table::new(), stats: Table::new() }
    }
}

impl Default for StatTemplate {
    /// The template without description, sources or transforms.
    fn default() -> (template: Self)
        ensures
            template.description is None,
            template.sources@ == Seq::<SourceConfig>::empty(),
            template.transforms@ == Seq::<TransformConfig>::empty(),
    {
        StatTemplate { description: None, sources: Vec::new(), transforms: Vec::new() }
    }
}

impl Default for StatDefinition {
    /// The definition without sources or transforms.
    fn default() -> (definition: Self)
        ensures
            definition.sources@ == Seq::<SourceConfig>::empty(),
            definition.transforms@ == Seq::<TransformConfig>::empty(),
    {
        StatDefinition { sources: Vec::new(), transforms: Vec::new() }
    }
}

/// The description of a source.
#[derive(Debug, Clone)]
pub enum SourceConfig {
    /// A single value.
    Constant {
        value: SourceValue,
        /// For readers of the configuration.
        name: Option<String>,
    },
    /// A base, and a scale times a level. Without a level the scale counts
    /// once.
    Scaling {
        base: SourceValue,
        scale: SourceValue,
        level: Option<SourceValue>,
        /// For readers of the configuration.
        name: Option<String>,
    },
}

/// A value in the configuration: a number, or a text. A text refers to a
/// parameter where it is written as a placeholder; any other text stands
/// for the number that it spells, which the second field holds, or for none.
#[derive(Debug, Clone)]
pub enum SourceValue {
    Number(Number),
    String(String, Option<Number>),
}

/// The description of a transform.
#[derive(Debug)]
pub enum TransformConfig {
    /// Multiplies the running value.
    Multiplicative {
        value: SourceValue,
        /// For readers of the configuration.
        name: Option<String>,
    },
    /// Adds to the running value.
    Additive {
        value: SourceValue,
        /// For readers of the configuration.
        name: Option<String>,
    },
    /// Keeps the running value within bounds. A bound that is left out does
    /// not bind.
    Clamp {
        min: Option<SourceValue>,
        max: Option<SourceValue>,
        /// For readers of the configuration.
        name: Option<String>,
    },
    /// Applies one transform where a stat stands to a value as the operator
    /// says, and another, or none, where it does not.
    Conditional {
        condition_stat: String,
        condition_value: Number,
        /// One of `>`, `<`, `>=`, `<=`, `==`.
        operator: String,
        then_branch: Box<TransformConfig>,
        else_then: Option<Box<TransformConfig>>,
    },
    /// Adds the sum of other stats, times a multiplier. Without a
    /// multiplier the sum counts once.
    Mapped {
        dependencies: Vec<String>,
        multiplier: Option<SourceValue>,
        /// For readers of the configuration.
        name: Option<String>,
    },
}

impl TransformConfig {
    /// The names of other stats that the description refers to, as they
    /// are written: for a conditional the stat of the condition, then the
    /// names in its branches; for a map transform its dependencies.
    pub open spec fn named_stats(&self) -> Seq<Seq<char>>
        decreases self,
    {
        match self {
            TransformConfig::Conditional { condition_stat, then_branch, else_then, .. } => {
                seq![condition_stat@] + then_branch.named_stats() + match else_then {
                    Some(branch) => branch.named_stats(),
                    None => Seq::empty(),
                }
            },
            TransformConfig::Mapped { dependencies, .. } => texts(dependencies@),
            _ => Seq::empty(),
        }
    }

    /// How deep conditionals are nested in the description.
    pub open spec fn depth(&self) -> nat
        decreases self,
    {
        match self {
            TransformConfig::Conditional { then_branch, else_then, .. } => {
                let first = then_branch.depth();
                let second = match else_then {
                    Some(branch) => branch.depth(),
                    None => 0,
                };
                1 + if first >= second {
                    first
                } else {
                    second
                }
            },
            _ => 0,
        }
    }
}

/// How deep conditionals are nested in the branches of a conditional.
pub open spec fn branches_depth(
    then_branch: TransformConfig,
    else_then: Option<Box<TransformConfig>>,
) -> nat {
    let first = then_branch.depth();
    let second = match else_then {
        Some(branch) => branch.depth(),
        None => 0,
    };
    if first >= second {
        first
    } else {
        second
    }
}

/// What is said of a placeholder whose parameter is missing.
pub open spec fn missing_parameter(name: Seq<char>) -> Seq<char> {
    "Parameter not found: "@ + name
}

/// What is said of a text that spells no number.
pub open spec fn invalid_number(text: Seq<char>) -> Seq<char> {
    "Invalid number: "@ + text
}

/// A result with the text of its error as a sequence of characters.
pub open spec fn spelled<T>(r: Result<T, String>) -> Result<T, Seq<char>> {
    match r {
        Ok(value) => Ok(value),
        Err(text) => Err(text@),
    }
}

/// The two errors of a value are told apart by their texts.
pub proof fn lemma_value_errors_differ(name: Seq<char>, text: Seq<char>)
    ensures
        missing_parameter(name) != invalid_number(text),
{
    reveal_strlit("Parameter not found: ");
    reveal_strlit("Invalid number: ");
    assert(missing_parameter(name)[0] == 'P');
    assert(invalid_number(text)[0] == 'I');
}

/// A number resolves to itself, whatever the parameters are.
pub proof fn lemma_number_resolves(n: Number, params: Map<Seq<char>, Number>)
    ensures
        SourceValue::Number(n).resolved(params) == Ok::<Number, Seq<char>>(n),
{
}

/// A placeholder resolves to the value of the parameter it names, and to
/// an error where the parameters hold no such name. The name is what
/// stands between the braces, trimmed. What the text would spell as a
/// number plays no part.
pub proof fn lemma_placeholder_resolves(
    text: String,
    numeric: Option<Number>,
    inner: Seq<char>,
    params: Map<Seq<char>, Number>,
)
    requires
        text@ == seq!['{', '{'] + inner + seq!['}', '}'],
    ensures
        is_placeholder(text@),
        placeholder_name(text@) == trim(inner),
        SourceValue::String(text, numeric).resolved(params) == if params.contains_key(
            trim(inner),
        ) {
            Ok::<Number, Seq<char>>(params[trim(inner)])
        } else {
            Err::<Number, Seq<char>>(missing_parameter(trim(inner)))
        },
{
    assert(text@.subrange(2, text@.len() - 2) == inner);
}

/// A text that is no placeholder resolves to the number it spells, and to
/// an error where it spells none, whatever the parameters are.
pub proof fn lemma_plain_text_resolves(
    text: String,
    numeric: Option<Number>,
    params: Map<Seq<char>, Number>,
)
    requires
        !is_placeholder(text@),
    ensures
        SourceValue::String(text, numeric).resolved(params) == match numeric {
            Some(n) => Ok::<Number, Seq<char>>(n),
            None => Err::<Number, Seq<char>>(invalid_number(text@)),
        },
{
}

impl SourceValue {
    /// The number that the value stands for under the given parameters, or
    /// what is wrong with it.
    pub open spec fn resolved(&self, params: Map<Seq<char>, Number>) -> Result<Number, Seq<char>> {
        match self {
            SourceValue::Number(n) => Ok(*n),
            SourceValue::String(text, numeric) => {
                if is_placeholder(text@) {
                    let name = placeholder_name(text@);
                    if params.contains_key(name) {
                        Ok(params[name])
                    } else {
                        Err(missing_parameter(name))
                    }
                } else {
                    match numeric {
                        Some(n) => Ok(*n),
                        None => Err(invalid_number(text@)),
                    }
                }
            },
        }
    }

    /// Resolves the value against a parameter table.
    ///
    /// A number is itself. A placeholder is the value of the parameter it
    /// names. Any other text is the number that it spells.
    pub fn resolve(&self, params: &ValueTable) -> (r: Result<Number, String>)
        ensures
            spelled(r) == self.resolved(params@),
    {
        match self {
            SourceValue::Number(n) => Ok(*n),
            SourceValue::String(text, numeric) => {
                match placeholder(text.as_str()) {
                    Some(name) => {
                        match params.get(name.as_str()) {
                            Some(value) => Ok(*value),
                            None => Err(headed("Parameter not found: ", name.as_str())),
                        }
                    },
                    None => {
                        match numeric {
                            Some(n) => Ok(*n),
                            None => Err(headed("Invalid number: ", text.as_str())),
                        }
                    },
                }
            },
        }
    }
}

} // verus!
