//! Plans: what is to be registered with the evaluation engine, and in what
//! order.
//!
//! The library does not hold the engine. Where a configuration is applied,
//! it says which units go to which stat, one after the other, and whether
//! the work came to an end or stopped at an error. What stands in the plan
//! before the error is registered all the same: nothing is rolled back.

use vstd::prelude::*;
use crate::error::{ErrorModel, YamlStatError};
use crate::transform::{SourceUnit, TransformModel, TransformUnit};

verus! {

/// One unit to be registered under a stat.
#[derive(Debug, PartialEq, Eq)]
pub enum Registration {
    Source { stat_id: String, unit: SourceUnit },
    Transform { stat_id: String, unit: TransformUnit },
}

/// What a registration stands for.
pub enum RegistrationModel {
    Source { stat_id: Seq<char>, unit: SourceUnit },
    Transform { stat_id: Seq<char>, unit: TransformModel },
}

impl View for Registration {
    type V = RegistrationModel;

    open spec fn view(&self) -> RegistrationModel {
        match self {
            Registration::Source { stat_id, unit } => RegistrationModel::Source {
                stat_id: stat_id@,
                unit: *unit,
            },
            Registration::Transform { stat_id, unit } => RegistrationModel::Transform {
                stat_id: stat_id@,
                unit: unit@,
            },
        }
    }
}

/// Registrations in the order in which they are to be made, and the error
/// at which the work stopped, if it did.
#[derive(Debug, PartialEq, Eq)]
pub struct Plan {
    pub registrations: Vec<Registration>,
    pub error: Option<YamlStatError>,
}

/// What a plan stands for.
pub struct PlanModel {
    pub registrations: Seq<RegistrationModel>,
    pub error: Option<ErrorModel>,
}

impl View for Plan {
    type V = PlanModel;

    open spec fn view(&self) -> PlanModel {
        PlanModel {
            registrations: self.registrations@.map_values(|r: Registration| r@),
            error: match self.error {
                Some(e) => Some(e@),
                None => None,
            },
        }
    }
}

impl PlanModel {
    /// The plan that registers nothing and has come to its end.
    pub open spec fn nothing() -> PlanModel {
        PlanModel { registrations: Seq::empty(), error: None }
    }

    /// The plan that registers one unit.
    pub open spec fn one(registration: RegistrationModel) -> PlanModel {
        PlanModel { registrations: seq![registration], error: None }
    }

    /// The plan that registers nothing and stops at an error.
    pub open spec fn failed(error: ErrorModel) -> PlanModel {
        PlanModel { registrations: Seq::empty(), error: Some(error) }
    }

    /// This plan, and after it the next one, unless this one stopped.
    pub open spec fn and_next(self, next: PlanModel) -> PlanModel {
        if self.error is Some {
            self
        } else {
            PlanModel {
                registrations: self.registrations + next.registrations,
                error: next.error,
            }
        }
    }
}

/// Putting plans one behind the other does not depend on how they are
/// grouped.
pub proof fn lemma_and_next_assoc(a: PlanModel, b: PlanModel, c: PlanModel)
    ensures
        a.and_next(b).and_next(c) == a.and_next(b.and_next(c)),
{
    if a.error is None && b.error is None {
        assert((a.registrations + b.registrations) + c.registrations == a.registrations + (
        b.registrations + c.registrations));
    }
}

/// The plan that registers nothing changes no plan that it is put before
/// or behind.
pub proof fn lemma_and_next_nothing(a: PlanModel)
    ensures
        a.and_next(PlanModel::nothing()) == a,
        PlanModel::nothing().and_next(a) == a,
{
    assert(a.registrations + Seq::<RegistrationModel>::empty() == a.registrations);
    assert(Seq::<RegistrationModel>::empty() + a.registrations == a.registrations);
}

/// The plans of the items of a list, one after the other, up to the first
/// that stops.
pub open spec fn in_turn<T>(items: Seq<T>, step: spec_fn(T) -> PlanModel) -> PlanModel
    decreases items.len(),
{
    if items.len() == 0 {
        PlanModel::nothing()
    } else {
        in_turn(items.drop_last(), step).and_next(step(items.last()))
    }
}

/// Once the plans of the first items have stopped, the items behind them
/// add nothing.
pub proof fn lemma_in_turn_stops<T>(items: Seq<T>, step: spec_fn(T) -> PlanModel, i: int)
    requires
        0 <= i <= items.len(),
        in_turn(items.take(i), step).error is Some,
    ensures
        in_turn(items, step) == in_turn(items.take(i), step),
    decreases items.len() - i,
{
    if i < items.len() {
        assert(items.take(i + 1).drop_last() == items.take(i));
        lemma_in_turn_stops(items, step, i + 1);
    } else {
        assert(items.take(i) == items);
    }
}

/// The plan of the first items, then the plan of the next one.
pub proof fn lemma_in_turn_next<T>(items: Seq<T>, step: spec_fn(T) -> PlanModel, i: int)
    requires
        0 <= i < items.len(),
    ensures
        in_turn(items.take(i + 1), step) == in_turn(items.take(i), step).and_next(step(items[i])),
{
    assert(items.take(i + 1).drop_last() == items.take(i));
}

/// Where each of the first items registers one unit, the plan of these
/// items registers the units in the order of the items and does not stop.
pub proof fn lemma_in_turn_units<T>(items: Seq<T>, step: spec_fn(T) -> PlanModel, n: int)
    requires
        0 <= n <= items.len(),
        forall|j: int|
            0 <= j < n ==> (#[trigger] step(items[j])).error is None && step(
                items[j],
            ).registrations.len() == 1,
    ensures
        in_turn(items.take(n), step).error is None,
        in_turn(items.take(n), step).registrations.len() == n,
        forall|j: int|
            0 <= j < n ==> in_turn(items.take(n), step).registrations[j] == (#[trigger] step(
                items[j],
            )).registrations[0],
    decreases n,
{
    if n > 0 {
        lemma_in_turn_units(items, step, n - 1);
        lemma_in_turn_next(items, step, n - 1);
    }
}

/// Every registration of the plans taken in turn is a registration of the
/// plan of one of the items.
pub proof fn lemma_in_turn_origin<T>(items: Seq<T>, step: spec_fn(T) -> PlanModel, k: int)
    requires
        0 <= k < in_turn(items, step).registrations.len(),
    ensures
        exists|j: int|
            0 <= j < items.len() && (#[trigger] step(items[j])).registrations.contains(
                in_turn(items, step).registrations[k],
            ),
    decreases items.len(),
{
    if items.len() > 0 {
        let before = in_turn(items.drop_last(), step);
        let wanted = in_turn(items, step).registrations[k];
        if before.error is Some || k < before.registrations.len() {
            lemma_in_turn_origin(items.drop_last(), step, k);
            let j = choose|j: int|
                0 <= j < items.drop_last().len() && (#[trigger] step(
                    items.drop_last()[j],
                )).registrations.contains(before.registrations[k]);
            assert(items.drop_last()[j] == items[j]);
            assert(0 <= j < items.len() && step(items[j]).registrations.contains(wanted));
        } else {
            let j = items.len() - 1;
            let m = k - before.registrations.len();
            assert(step(items[j]).registrations[m] == wanted);
            assert(0 <= j < items.len() && step(items[j]).registrations.contains(wanted));
        }
    }
}

impl Plan {
    /// The plan that registers nothing and has come to its end.
    pub fn new() -> (plan: Plan)
        ensures
            plan@ == PlanModel::nothing(),
    {
        let plan = Plan { registrations: Vec::new(), error: None };
        assert(plan@.registrations == Seq::<RegistrationModel>::empty());
        plan
    }

    /// Whether the work came to its end.
    pub fn is_complete(&self) -> (complete: bool)
        ensures
            complete == (self@.error is None),
    {
        self.error.is_none()
    }

    /// Puts a registration at the end of the plan, unless the plan has
    /// stopped.
    pub fn push(&mut self, registration: Registration)
        ensures
            final(self)@ == old(self)@.and_next(PlanModel::one(registration@)),
    {
        if self.error.is_some() {
            return ;
        }
        let ghost before = self.registrations@;
        self.registrations.push(registration);
        assert(self.registrations@.map_values(|r: Registration| r@) == before.map_values(
            |r: Registration| r@,
        ) + seq![registration@]);
    }

    /// Stops the plan at an error, unless it has stopped before.
    pub fn fail(&mut self, error: YamlStatError)
        ensures
            final(self)@ == old(self)@.and_next(PlanModel::failed(error@)),
    {
        if self.error.is_some() {
            return ;
        }
        self.error = Some(error);
        assert(self@.registrations == old(self)@.registrations + Seq::<RegistrationModel>::empty());
    }
}

} // verus!
