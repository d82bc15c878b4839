//! Counterfactual utilities and the regret update.

use vstd::prelude::*;
use crate::action::{action_of, Action, ActionSet};
use crate::payoff::{game_value, payoff};
use crate::values::{RegretAccumulator, Utilities};

verus! {

/// The payoff of each of the first `n` actions against `opp_action`.
pub open spec fn utilities_against(n: int, opp_action: Action) -> Seq<int> {
    Seq::new(n as nat, |i: int| payoff(action_of(i), opp_action))
}

/// The regrets after a round in which the action with ordinal `taken` was
/// played: every action gains what it would have earned beyond the action
/// played.
pub open spec fn regrets_after(regrets: Seq<int>, utilities: Seq<int>, taken: int) -> Seq<int> {
    Seq::new(regrets.len(), |i: int| regrets[i] + utilities[i] - utilities[taken])
}

/// What each action of `set` would have earned against the observed
/// `opp_action`.
pub fn best_response_utilities(set: ActionSet, opp_action: Action) -> (utilities: Utilities)
    ensures
        utilities.wf(),
        utilities.set() == set,
        utilities@ == utilities_against(set.count(), opp_action),
{
    let mut utilities = Utilities::new(set);
    let n: usize = set.size();
    let mut k: usize = 0;
    while k < n
        invariant
            k <= n,
            n == set.count(),
            utilities.wf(),
            utilities.set() == set,
            forall|i: int|
                0 <= i < k ==> #[trigger] utilities@[i] == payoff(action_of(i), opp_action),
        decreases n - k,
    {
        let throw: Action = set.action_at(k);
        utilities.write_val(throw, game_value(throw, opp_action));
        k = k + 1;
    }
    assert(utilities@ =~= utilities_against(set.count(), opp_action));
    utilities
}

/// Adds to the regret of every action what it would have earned beyond
/// `action`, the action that was played.
pub fn accumulate_regrets(action: Action, utilities: &Utilities, regret_sum: &mut RegretAccumulator)
    requires
        utilities.wf(),
        old(regret_sum).wf(),
        utilities.set() == old(regret_sum).set(),
        utilities.set().has(action),
        forall|i: int|
            0 <= i < utilities@.len() ==> i64::MIN <= #[trigger] old(regret_sum)@[i]
                + utilities@[i] - utilities@[action.ordinal()] <= i64::MAX,
    ensures
        final(regret_sum).wf(),
        final(regret_sum).set() == old(regret_sum).set(),
        final(regret_sum)@ == regrets_after(old(regret_sum)@, utilities@, action.ordinal()),
{
    let set: ActionSet = utilities.action_set();
    let n: usize = set.size();
    let baseline: i64 = utilities.get_val(action);
    let ghost before = regret_sum@;
    let mut k: usize = 0;
    while k < n
        invariant
            k <= n,
            n == set.count(),
            utilities.wf(),
            utilities.set() == set,
            regret_sum.wf(),
            regret_sum.set() == set,
            before.len() == n,
            baseline == utilities@[action.ordinal()],
            forall|i: int|
                0 <= i < n ==> i64::MIN <= #[trigger] before[i] + utilities@[i] - baseline
                    <= i64::MAX,
            forall|i: int|
                0 <= i < k ==> #[trigger] regret_sum@[i] == before[i] + utilities@[i] - baseline,
            forall|i: int| k <= i < n ==> #[trigger] regret_sum@[i] == before[i],
        decreases n - k,
    {
        let throw: Action = set.action_at(k);
        let held: i64 = regret_sum.get_val(throw);
        let gain: i64 = utilities.get_val(throw);
        assert(i64::MIN <= before[k as int] + utilities@[k as int] - baseline <= i64::MAX);
        let updated: i128 = held as i128 + gain as i128 - baseline as i128;
        regret_sum.write_val(throw, updated as i64);
        k = k + 1;
    }
    assert(regret_sum@ =~= regrets_after(before, utilities@, action.ordinal()));
}

} // verus!
