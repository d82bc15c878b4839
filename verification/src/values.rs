//! Per-action containers: utilities, cumulative regret, cumulative strategy
//! mass and strategy vectors. Each holds one number per action of its set,
//! at the action's ordinal.

use vstd::prelude::*;
use crate::action::{Action, ActionSet};
use crate::sums::{constant, lemma_prefix_total_constant, prefix_total, total};

verus! {

/// The utility of each action against one observed action of the other side.
#[derive(Debug)]
pub struct Utilities {
    set: ActionSet,
    vals: Vec<i64>,
}

impl View for Utilities {
    type V = Seq<int>;

    closed spec fn view(&self) -> Seq<int> {
        Seq::new(self.vals@.len(), |i: int| self.vals@[i] as int)
    }
}

impl Utilities {
    /// The action set the utilities range over.
    pub closed spec fn set(&self) -> ActionSet {
        self.set
    }

    /// One entry per action of the set.
    pub open spec fn wf(&self) -> bool {
        self@.len() == self.set().count()
    }

    /// Utilities of zero for every action of `set`.
    pub fn new(set: ActionSet) -> (utilities: Utilities)
        ensures
            utilities.wf(),
            utilities.set() == set,
            utilities@ == constant(set.count(), 0),
    {
        let mut vals: Vec<i64> = Vec::new();
        let n: usize = set.size();
        while vals.len() < n
            invariant
                vals.len() <= n,
                forall|i: int| 0 <= i < vals.len() ==> vals@[i] == 0,
            decreases n - vals.len(),
        {
            vals.push(0);
        }
        let utilities = Utilities { set, vals };
        assert(utilities@ =~= constant(set.count(), 0));
        utilities
    }

    /// The action set the utilities range over.
    pub fn action_set(&self) -> (set: ActionSet)
        ensures
            set == self.set(),
    {
        self.set
    }

    /// The utility of `action`.
    pub fn get_val(&self, action: Action) -> (value: i64)
        requires
            self.wf(),
            self.set().has(action),
        ensures
            value == self@[action.ordinal()],
    {
        self.vals[action.index()]
    }

    /// Sets the utility of `action` to `value` and leaves the others.
    pub fn write_val(&mut self, action: Action, value: i64)
        requires
            old(self).wf(),
            old(self).set().has(action),
        ensures
            final(self).wf(),
            final(self).set() == old(self).set(),
            final(self)@ == old(self)@.update(action.ordinal(), value as int),
    {
        self.vals.set(action.index(), value);
        assert(self@ =~= old(self)@.update(action.ordinal(), value as int));
    }
}

/// The cumulative regret of each action: how much better the action would
/// have done, summed over all rounds so far, than the actions actually played.
#[derive(Debug)]
pub struct RegretAccumulator {
    set: ActionSet,
    vals: Vec<i64>,
}

impl View for RegretAccumulator {
    type V = Seq<int>;

    closed spec fn view(&self) -> Seq<int> {
        Seq::new(self.vals@.len(), |i: int| self.vals@[i] as int)
    }
}

impl RegretAccumulator {
    /// The action set the regrets range over.
    pub closed spec fn set(&self) -> ActionSet {
        self.set
    }

    /// One entry per action of the set.
    pub open spec fn wf(&self) -> bool {
        self@.len() == self.set().count()
    }

    /// Regret of zero for every action of `set`.
    pub fn new(set: ActionSet) -> (regret: RegretAccumulator)
        ensures
            regret.wf(),
            regret.set() == set,
            regret@ == constant(set.count(), 0),
    {
        let mut vals: Vec<i64> = Vec::new();
        let n: usize = set.size();
        while vals.len() < n
            invariant
                vals.len() <= n,
                forall|i: int| 0 <= i < vals.len() ==> vals@[i] == 0,
            decreases n - vals.len(),
        {
            vals.push(0);
        }
        let regret = RegretAccumulator { set, vals };
        assert(regret@ =~= constant(set.count(), 0));
        regret
    }

    /// The action set the regrets range over.
    pub fn action_set(&self) -> (set: ActionSet)
        ensures
            set == self.set(),
    {
        self.set
    }

    /// The cumulative regret of `action`.
    pub fn get_val(&self, action: Action) -> (value: i64)
        requires
            self.wf(),
            self.set().has(action),
        ensures
            value == self@[action.ordinal()],
    {
        self.vals[action.index()]
    }

    /// Sets the cumulative regret of `action` to `value` and leaves the
    /// others.
    pub fn write_val(&mut self, action: Action, value: i64)
        requires
            old(self).wf(),
            old(self).set().has(action),
        ensures
            final(self).wf(),
            final(self).set() == old(self).set(),
            final(self)@ == old(self)@.update(action.ordinal(), value as int),
    {
        self.vals.set(action.index(), value);
        assert(self@ =~= old(self)@.update(action.ordinal(), value as int));
    }
}

/// The cumulative strategy mass of each action, in units of `1 / MASS_UNIT`
/// of one round's probability.
#[derive(Debug)]
pub struct StrategyAccumulator {
    set: ActionSet,
    vals: Vec<u64>,
}

impl View for StrategyAccumulator {
    type V = Seq<int>;

    closed spec fn view(&self) -> Seq<int> {
        Seq::new(self.vals@.len(), |i: int| self.vals@[i] as int)
    }
}

impl StrategyAccumulator {
    /// The action set the masses range over.
    pub closed spec fn set(&self) -> ActionSet {
        self.set
    }

    /// One entry per action of the set.
    pub open spec fn wf(&self) -> bool {
        self@.len() == self.set().count()
    }

    /// The mass of all actions together.
    pub open spec fn total_mass(&self) -> int {
        total(self@)
    }

    /// No mass is ever negative.
    pub proof fn lemma_mass_nonnegative(&self)
        ensures
            forall|i: int| 0 <= i < self@.len() ==> 0 <= #[trigger] self@[i] <= u64::MAX,
    {
    }

    /// Mass of zero for every action of `set`.
    pub fn new(set: ActionSet) -> (mass: StrategyAccumulator)
        ensures
            mass.wf(),
            mass.set() == set,
            mass@ == constant(set.count(), 0),
            mass.total_mass() == 0,
    {
        let mut vals: Vec<u64> = Vec::new();
        let n: usize = set.size();
        while vals.len() < n
            invariant
                vals.len() <= n,
                forall|i: int| 0 <= i < vals.len() ==> vals@[i] == 0,
            decreases n - vals.len(),
        {
            vals.push(0);
        }
        let mass = StrategyAccumulator { set, vals };
        assert(mass@ =~= constant(set.count(), 0));
        proof {
            lemma_prefix_total_constant(set.count(), 0, set.count());
        }
        mass
    }

    /// The action set the masses range over.
    pub fn action_set(&self) -> (set: ActionSet)
        ensures
            set == self.set(),
    {
        self.set
    }

    /// The cumulative mass of `action`.
    pub fn get_val(&self, action: Action) -> (value: u64)
        requires
            self.wf(),
            self.set().has(action),
        ensures
            value == self@[action.ordinal()],
    {
        self.vals[action.index()]
    }

    /// Sets the cumulative mass of `action` to `value` and leaves the others.
    pub fn write_val(&mut self, action: Action, value: u64)
        requires
            old(self).wf(),
            old(self).set().has(action),
        ensures
            final(self).wf(),
            final(self).set() == old(self).set(),
            final(self)@ == old(self)@.update(action.ordinal(), value as int),
    {
        self.vals.set(action.index(), value);
        assert(self@ =~= old(self)@.update(action.ordinal(), value as int));
    }

    /// The mass of all actions together.
    pub fn mass(&self) -> (sum: u128)
        requires
            self.wf(),
        ensures
            sum == self.total_mass(),
    {
        let n: usize = self.vals.len();
        let mut sum: u128 = 0;
        let mut i: usize = 0;
        while i < n
            invariant
                n == self.vals.len(),
                n <= 5,
                i <= n,
                sum == prefix_total(self@, i as int),
                sum <= i * u64::MAX,
            decreases n - i,
        {
            sum = sum + self.vals[i] as u128;
            i = i + 1;
        }
        sum
    }
}

/// The entries of `v` as mathematical integers.
pub open spec fn as_ints(v: Seq<u64>) -> Seq<int> {
    Seq::new(v.len(), |i: int| v[i] as int)
}

/// A strategy: the probability of an action is its weight over the common
/// denominator.
#[derive(Debug)]
pub struct StrategyVector {
    set: ActionSet,
    weights: Vec<u64>,
    denominator: u128,
}

impl StrategyVector {
    /// The action set the strategy ranges over.
    pub closed spec fn set(&self) -> ActionSet {
        self.set
    }

    /// The weight of each action, by ordinal.
    pub closed spec fn weights(&self) -> Seq<int> {
        as_ints(self.weights@)
    }

    /// The common denominator of the weights.
    pub closed spec fn denominator(&self) -> int {
        self.denominator as int
    }

    /// One weight per action of the set.
    pub open spec fn wf(&self) -> bool {
        self.weights().len() == self.set().count()
    }

    /// The probabilities sum to one: the weights sum to the denominator,
    /// which is positive.
    pub open spec fn is_distribution(&self) -> bool {
        &&& self.wf()
        &&& self.denominator() > 0
        &&& total(self.weights()) == self.denominator()
    }

    /// Every action has probability one over the number of actions.
    pub open spec fn is_uniform(&self) -> bool {
        &&& self.weights() == constant(self.set().count(), 1)
        &&& self.denominator() == self.set().count()
    }

    /// No weight is ever negative, and the denominator is never negative.
    pub proof fn lemma_weights_nonnegative(&self)
        ensures
            forall|i: int|
                0 <= i < self.weights().len() ==> 0 <= #[trigger] self.weights()[i] <= u64::MAX,
            0 <= self.denominator() <= u128::MAX,
    {
    }

    /// The uniform strategy over `set`.
    pub fn uniform(set: ActionSet) -> (strategy: StrategyVector)
        ensures
            strategy.set() == set,
            strategy.is_uniform(),
            strategy.is_distribution(),
    {
        let mut weights: Vec<u64> = Vec::new();
        let n: usize = set.size();
        while weights.len() < n
            invariant
                weights.len() <= n,
                forall|i: int| 0 <= i < weights.len() ==> weights@[i] == 1,
            decreases n - weights.len(),
        {
            weights.push(1);
        }
        let strategy = StrategyVector { set, weights, denominator: n as u128 };
        assert(strategy.weights() =~= constant(set.count(), 1));
        proof {
            lemma_prefix_total_constant(set.count(), 1, set.count());
        }
        strategy
    }

    /// The strategy over `set` with the given weights and denominator, if
    /// there is one weight per action. Nothing is asked of the sum of the
    /// weights.
    pub fn from_weights(set: ActionSet, weights: Vec<u64>, denominator: u128) -> (made: Option<
        StrategyVector,
    >)
        ensures
            made.is_some() == (weights@.len() == set.count()),
            made.is_some() ==> {
                &&& made.unwrap().wf()
                &&& made.unwrap().set() == set
                &&& made.unwrap().weights() == as_ints(weights@)
                &&& made.unwrap().denominator() == denominator
            },
    {
        if weights.len() == set.size() {
            Some(StrategyVector { set, weights, denominator })
        } else {
            None
        }
    }

    /// The action set the strategy ranges over.
    pub fn action_set(&self) -> (set: ActionSet)
        ensures
            set == self.set(),
    {
        self.set
    }

    /// The weight of `action`.
    pub fn get_val(&self, action: Action) -> (weight: u64)
        requires
            self.wf(),
            self.set().has(action),
        ensures
            weight == self.weights()[action.ordinal()],
    {
        self.weights[action.index()]
    }

    /// The common denominator of the weights.
    pub fn scale(&self) -> (denominator: u128)
        ensures
            denominator == self.denominator(),
    {
        self.denominator
    }

    /// Whether the probabilities sum to one.
    pub fn sums_to_one(&self) -> (b: bool)
        requires
            self.wf(),
        ensures
            b == self.is_distribution(),
    {
        let n: usize = self.weights.len();
        let mut sum: u128 = 0;
        let mut i: usize = 0;
        while i < n
            invariant
                n == self.weights.len(),
                n <= 5,
                i <= n,
                sum == prefix_total(self.weights(), i as int),
                sum <= i * u64::MAX,
            decreases n - i,
        {
            sum = sum + self.weights[i] as u128;
            i = i + 1;
        }
        self.denominator > 0 && sum == self.denominator
    }
}

} // verus!
