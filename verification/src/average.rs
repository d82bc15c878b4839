//! The average strategy: what a training run has learned.

use vstd::prelude::*;
use crate::action::{Action, ActionSet};
use crate::sums::{constant, total};
use crate::values::{as_ints, StrategyAccumulator, StrategyVector};

verus! {

/// The weights of the average strategy: the masses themselves, or one for
/// every action where there is no mass.
pub open spec fn average_weights(mass: Seq<int>) -> Seq<int> {
    if total(mass) > 0 {
        mass
    } else {
        constant(mass.len() as int, 1)
    }
}

/// The denominator of the average strategy: the total mass, or the number of
/// actions where there is no mass.
pub open spec fn average_denominator(mass: Seq<int>) -> int {
    if total(mass) > 0 {
        total(mass)
    } else {
        mass.len() as int
    }
}

/// Whether `avg_strat` is the average strategy of `strategy_sum`.
pub open spec fn is_average_of(avg_strat: StrategyVector, strategy_sum: StrategyAccumulator) -> bool {
    &&& avg_strat.set() == strategy_sum.set()
    &&& avg_strat.weights() == average_weights(strategy_sum@)
    &&& avg_strat.denominator() == average_denominator(strategy_sum@)
}

/// The time-averaged strategy: the share of each action in the accumulated
/// mass, or the uniform strategy where nothing was accumulated.
pub fn get_average_strategy(strategy_sum: &StrategyAccumulator) -> (avg_strat: StrategyVector)
    requires
        strategy_sum.wf(),
    ensures
        is_average_of(avg_strat, *strategy_sum),
        avg_strat.is_distribution(),
        strategy_sum.total_mass() == 0 ==> avg_strat.is_uniform(),
{
    let set: ActionSet = strategy_sum.action_set();
    let normalizing_sum: u128 = strategy_sum.mass();
    proof {
        strategy_sum.lemma_mass_nonnegative();
        crate::sums::lemma_prefix_total_monotone(strategy_sum@, 0, strategy_sum@.len() as int);
    }
    if normalizing_sum > 0 {
        let n: usize = set.size();
        let mut weights: Vec<u64> = Vec::new();
        let mut k: usize = 0;
        while k < n
            invariant
                k <= n,
                n == set.count(),
                strategy_sum.wf(),
                strategy_sum.set() == set,
                weights.len() == k,
                forall|i: int| 0 <= i < k ==> #[trigger] weights@[i] as int == strategy_sum@[i],
            decreases n - k,
        {
            let throw: Action = set.action_at(k);
            weights.push(strategy_sum.get_val(throw));
            k = k + 1;
        }
        assert(as_ints(weights@) =~= strategy_sum@);
        StrategyVector::from_weights(set, weights, normalizing_sum).unwrap()
    } else {
        StrategyVector::uniform(set)
    }
}

/// Extraction is repeatable: two average strategies taken from one
/// accumulator range over the same set and have the same weights and the same
/// denominator, so every action has the same probability in both.
pub proof fn lemma_extraction_repeats(
    strategy_sum: StrategyAccumulator,
    first: StrategyVector,
    second: StrategyVector,
)
    requires
        is_average_of(first, strategy_sum),
        is_average_of(second, strategy_sum),
    ensures
        first.set() == second.set(),
        first.weights() == second.weights(),
        first.denominator() == second.denominator(),
{
}

} // verus!
