//! Compiled units: the sources and transforms that are handed to the
//! evaluation engine, and what they stand for.

use vstd::prelude::*;
use crate::number::Number;
use crate::text::texts;
use crate::transform_conditional::{ConditionalModel, ConditionalTransform};
use crate::transform_map::{MapModel, MapTransform};

verus! {

/// A compiled source. Its value is fixed when it is compiled: later changes
/// to the parameters do not reach it.
#[derive(Clone, Copy, Debug, PartialEq, Eq, Structural)]
pub enum SourceUnit {
    /// Contributes the number itself.
    Constant(Number),
    /// Contributes `base + scale * level`.
    Scaling { base: Number, scale: Number, level: Number },
}

/// Adds a fixed number to the running value.
#[derive(Clone, Copy, Debug, PartialEq, Eq, Structural)]
pub struct AdditiveTransform {
    value: Number,
}

impl AdditiveTransform {
    /// The number that the transform adds.
    pub closed spec fn addend(&self) -> Number {
        self.value
    }

    /// The transform that adds `value`.
    pub fn new(value: Number) -> (transform: Self)
        ensures
            transform.addend() == value,
    {
        AdditiveTransform { value }
    }

    /// The number that the transform adds.
    pub fn value(&self) -> (value: Number)
        ensures
            value == self.addend(),
    {
        self.value
    }
}

/// A compiled transform.
#[derive(Debug, PartialEq, Eq)]
pub enum TransformUnit {
    /// Multiplies the running value by a factor.
    Multiplicative(Number),
    /// Adds a number to the running value.
    Additive(AdditiveTransform),
    /// Keeps the running value between `min` and `max`.
    Clamp { min: Number, max: Number },
    /// Applies one of two transforms, as a condition on another stat goes.
    Conditional(ConditionalTransform),
    /// Adds the sum of other stats, times a multiplier.
    Mapped(MapTransform),
}

/// What a compiled transform stands for.
pub enum TransformModel {
    Multiplicative(Number),
    Additive(Number),
    Clamp { min: Number, max: Number },
    Conditional(ConditionalModel),
    Mapped(MapModel),
}

impl View for TransformUnit {
    type V = TransformModel;

    open spec fn view(&self) -> TransformModel
        decreases self,
    {
        match self {
            TransformUnit::Multiplicative(factor) => TransformModel::Multiplicative(*factor),
            TransformUnit::Additive(additive) => TransformModel::Additive(additive.addend()),
            TransformUnit::Clamp { min, max } => TransformModel::Clamp { min: *min, max: *max },
            TransformUnit::Conditional(conditional) => TransformModel::Conditional(conditional@),
            TransformUnit::Mapped(mapped) => TransformModel::Mapped(mapped@),
        }
    }
}

impl TransformModel {
    /// The stats that must be resolved before the transform is applied, in
    /// the order in which the transform declares them.
    pub open spec fn dependencies(self) -> Seq<Seq<char>>
        decreases self,
    {
        match self {
            TransformModel::Conditional(conditional) => conditional.dependencies(),
            TransformModel::Mapped(mapped) => mapped.dependencies,
            _ => Seq::empty(),
        }
    }
}

impl TransformUnit {
    /// The stats that must be resolved before the transform is applied.
    pub fn depends_on(&self) -> (ids: Vec<String>)
        ensures
            texts(ids@) == self@.dependencies(),
        decreases self,
    {
        match self {
            TransformUnit::Conditional(conditional) => conditional.depends_on(),
            TransformUnit::Mapped(mapped) => mapped.depends_on(),
            _ => {
                let ids: Vec<String> = Vec::new();
                assert(texts(ids@) == Seq::<Seq<char>>::empty());
                ids
            },
        }
    }
}

} // verus!
