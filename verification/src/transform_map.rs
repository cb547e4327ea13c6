//! The transform that adds the sum of other stats, times a multiplier.

use vstd::prelude::*;
use crate::error::{ErrorModel, YamlStatError};
use crate::number::Number;
use crate::table::ValueTable;
use crate::text::texts;

verus! {

/// Adds to the running value the sum of the stats it depends on, times a
/// multiplier: `value + sum * multiplier`.
#[derive(Debug, PartialEq, Eq)]
pub struct MapTransform {
    dependencies: Vec<String>,
    multiplier: Number,
}

/// What a map transform stands for.
pub struct MapModel {
    /// The identifiers of the stats whose values are summed.
    pub dependencies: Seq<Seq<char>>,
    pub multiplier: Number,
}

impl View for MapTransform {
    type V = MapModel;

    closed spec fn view(&self) -> MapModel {
        MapModel { dependencies: texts(self.dependencies@), multiplier: self.multiplier }
    }
}

/// The number of names at the head of a list that have a value.
pub open spec fn present_prefix(names: Seq<Seq<char>>, values: Map<Seq<char>, Number>) -> nat
    decreases names.len(),
{
    if names.len() == 0 || !values.contains_key(names.first()) {
        0
    } else {
        1 + present_prefix(names.drop_first(), values)
    }
}

impl MapModel {
    /// The values of the dependencies, in their order, where each has one;
    /// else the first dependency that has none.
    pub open spec fn terms(self, values: Map<Seq<char>, Number>) -> Result<
        Seq<Number>,
        ErrorModel,
    > {
        let n = present_prefix(self.dependencies, values);
        if n == self.dependencies.len() {
            Ok(self.dependencies.map_values(|name: Seq<char>| values[name]))
        } else {
            Err(ErrorModel::MissingDependency(self.dependencies[n as int]))
        }
    }
}

/// The names counted at the head of a list have values, and the name
/// behind them, if the count stops short, has none.
pub proof fn lemma_present_prefix(names: Seq<Seq<char>>, values: Map<Seq<char>, Number>)
    ensures
        present_prefix(names, values) <= names.len(),
        forall|i: int|
            0 <= i < present_prefix(names, values) ==> values.contains_key(#[trigger] names[i]),
        present_prefix(names, values) < names.len() ==> !values.contains_key(
            names[present_prefix(names, values) as int],
        ),
    decreases names.len(),
{
    if names.len() > 0 && values.contains_key(names.first()) {
        let rest = names.drop_first();
        lemma_present_prefix(rest, values);
        assert forall|i: int| 0 <= i < present_prefix(names, values) implies values.contains_key(
            #[trigger] names[i],
        ) by {
            if i > 0 {
                assert(names[i] == rest[i - 1]);
            }
        }
        if present_prefix(names, values) < names.len() {
            assert(names[present_prefix(names, values) as int] == rest[present_prefix(
                rest,
                values,
            ) as int]);
        }
    }
}

/// Where every dependency has a value, the terms are these values, one for
/// each dependency and in their order.
pub proof fn lemma_terms_complete(model: MapModel, values: Map<Seq<char>, Number>)
    requires
        forall|i: int|
            0 <= i < model.dependencies.len() ==> values.contains_key(
                #[trigger] model.dependencies[i],
            ),
    ensures
        model.terms(values) == Ok::<Seq<Number>, ErrorModel>(
            model.dependencies.map_values(|name: Seq<char>| values[name]),
        ),
{
    lemma_present_prefix(model.dependencies, values);
}

/// Where a dependency has no value, there are no terms: the first such
/// dependency is reported missing. Nothing stands in for its value.
pub proof fn lemma_terms_missing(model: MapModel, values: Map<Seq<char>, Number>, i: int)
    requires
        0 <= i < model.dependencies.len(),
        !values.contains_key(model.dependencies[i]),
    ensures
        model.terms(values) matches Err(ErrorModel::MissingDependency(name)) && {
            let first = present_prefix(model.dependencies, values) as int;
            &&& first <= i
            &&& name == model.dependencies[first]
            &&& !values.contains_key(name)
            &&& forall|j: int|
                0 <= j < first ==> values.contains_key(#[trigger] model.dependencies[j])
        },
{
    lemma_present_prefix(model.dependencies, values);
}

proof fn lemma_present_prefix_step(names: Seq<Seq<char>>, values: Map<Seq<char>, Number>, i: int)
    requires
        0 <= i < names.len(),
        present_prefix(names, values) == i + present_prefix(names.skip(i), values),
        values.contains_key(names[i]),
    ensures
        present_prefix(names, values) == i + 1 + present_prefix(names.skip(i + 1), values),
{
    assert(names.skip(i).drop_first() == names.skip(i + 1));
}

impl MapTransform {
    /// The transform that sums the given stats and multiplies the sum.
    pub fn new(dependencies: Vec<String>, multiplier: Number) -> (transform: Self)
        ensures
            transform@ == (MapModel { dependencies: texts(dependencies@), multiplier }),
    {
        MapTransform { dependencies, multiplier }
    }

    /// The multiplier of the sum.
    pub fn multiplier(&self) -> (multiplier: Number)
        ensures
            multiplier == self@.multiplier,
    {
        self.multiplier
    }

    /// The stats whose values the transform sums.
    pub fn depends_on(&self) -> (ids: Vec<String>)
        ensures
            texts(ids@) == self@.dependencies,
    {
        let mut ids: Vec<String> = Vec::new();
        let mut i: usize = 0;
        while i < self.dependencies.len()
            invariant
                i <= self.dependencies.len(),
                texts(ids@) == texts(self.dependencies@).take(i as int),
            decreases self.dependencies.len() - i,
        {
            let ghost before = ids@;
            ids.push(self.dependencies[i].clone());
            assert(texts(ids@) == texts(before).push(self.dependencies@[i as int]@));
            assert(texts(self.dependencies@).take(i + 1) == texts(self.dependencies@).take(
                i as int,
            ).push(self.dependencies@[i as int]@));
            i += 1;
        }
        assert(texts(self.dependencies@).take(i as int) == texts(self.dependencies@));
        ids
    }

    /// The values to be summed: one for each dependency, in order. A
    /// dependency without a value is an error; nothing stands in for it.
    pub fn collect(&self, dependencies: &ValueTable) -> (r: Result<Vec<Number>, YamlStatError>)
        ensures
            match r {
                Ok(values) => self@.terms(dependencies@) == Ok::<Seq<Number>, ErrorModel>(values@),
                Err(e) => self@.terms(dependencies@) == Err::<Seq<Number>, ErrorModel>(e@),
            },
    {
        let ghost names = texts(self.dependencies@);
        let mut values: Vec<Number> = Vec::new();
        let mut i: usize = 0;
        assert(names.skip(0) == names);
        while i < self.dependencies.len()
            invariant
                i <= self.dependencies.len(),
                names == texts(self.dependencies@),
                names == self@.dependencies,
                present_prefix(names, dependencies@) == i + present_prefix(
                    names.skip(i as int),
                    dependencies@,
                ),
                values@ == names.take(i as int).map_values(|name: Seq<char>| dependencies@[name]),
            decreases self.dependencies.len() - i,
        {
            match dependencies.get(self.dependencies[i].as_str()) {
                Some(value) => {
                    proof {
                        lemma_present_prefix_step(names, dependencies@, i as int);
                        assert(names.take(i + 1) == names.take(i as int).push(names[i as int]));
                    }
                    values.push(*value);
                },
                None => {
                    return Err(YamlStatError::MissingDependency(self.dependencies[i].clone()));
                },
            }
            i += 1;
        }
        assert(names.take(i as int) == names);
        Ok(values)
    }
}

} // verus!
