//! Regret matching: the strategy of one round from cumulative regret, and
//! its deposit into the cumulative strategy mass.

use vstd::prelude::*;
use vstd::arithmetic::div_mod::{
    lemma_div_is_ordered,
    lemma_div_multiples_vanish,
    lemma_fundamental_div_mod,
    lemma_mod_bound,
};
use crate::action::{Action, ActionSet};
use crate::sums::{
    constant,
    lemma_entry_at_most_total,
    lemma_prefix_total_bounded,
    lemma_prefix_total_monotone,
    prefix_total,
    total,
};
use crate::values::{as_ints, RegretAccumulator, StrategyAccumulator, StrategyVector};

verus! {

/// The mass that one round deposits over all actions together: one round's
/// whole probability. It is divisible by both action counts, so a uniform
/// strategy is deposited without rounding.
pub const MASS_UNIT: u64 = 4_026_531_840;

/// A regret where it is positive, zero elsewhere.
pub open spec fn positive_part(regret: int) -> int {
    if regret > 0 {
        regret
    } else {
        0
    }
}

/// The positive part of each regret.
pub open spec fn positive_parts(regrets: Seq<int>) -> Seq<int> {
    Seq::new(regrets.len(), |i: int| positive_part(regrets[i]))
}

/// The weights that regret matching gives: the positive parts of the
/// regrets, or one for every action where no regret is positive.
pub open spec fn matched_weights(regrets: Seq<int>) -> Seq<int> {
    if total(positive_parts(regrets)) > 0 {
        positive_parts(regrets)
    } else {
        constant(regrets.len() as int, 1)
    }
}

/// The denominator that regret matching gives: the sum of the positive
/// parts, or the number of actions where no regret is positive.
pub open spec fn matched_denominator(regrets: Seq<int>) -> int {
    if total(positive_parts(regrets)) > 0 {
        total(positive_parts(regrets))
    } else {
        regrets.len() as int
    }
}

/// The mass owed to the first `k` actions together: their share of
/// `MASS_UNIT`, rounded down.
pub open spec fn mass_level(weights: Seq<int>, denominator: int, k: int) -> int {
    (MASS_UNIT * prefix_total(weights, k)) / denominator
}

/// The mass deposited for the action with ordinal `k`: what the first `k + 1`
/// actions are owed beyond what the first `k` are owed.
pub open spec fn mass_share(weights: Seq<int>, denominator: int, k: int) -> int {
    mass_level(weights, denominator, k + 1) - mass_level(weights, denominator, k)
}

/// The mass of each action after a strategy was deposited on top of `mass`.
pub open spec fn deposited(mass: Seq<int>, weights: Seq<int>, denominator: int) -> Seq<int> {
    Seq::new(mass.len(), |k: int| mass[k] + mass_share(weights, denominator, k))
}

/// The levels of a distribution rise from zero to `MASS_UNIT`.
pub proof fn lemma_mass_levels(weights: Seq<int>, denominator: int, j: int, k: int)
    requires
        0 <= j <= k <= weights.len(),
        forall|i: int| 0 <= i < weights.len() ==> weights[i] >= 0,
        denominator > 0,
        total(weights) == denominator,
    ensures
        mass_level(weights, denominator, 0) == 0,
        mass_level(weights, denominator, weights.len() as int) == MASS_UNIT,
        0 <= mass_level(weights, denominator, j) <= mass_level(weights, denominator, k)
            <= MASS_UNIT,
{
    let n = weights.len() as int;
    lemma_prefix_total_monotone(weights, 0, j);
    lemma_prefix_total_monotone(weights, j, k);
    lemma_prefix_total_monotone(weights, k, n);
    let unit = MASS_UNIT as int;
    let pj = prefix_total(weights, j);
    let pk = prefix_total(weights, k);
    assert(0 <= unit * pj <= unit * pk <= unit * denominator) by (nonlinear_arith)
        requires
            0 <= pj <= pk <= denominator,
            unit >= 0,
    ;
    assert(unit * 0 == 0);
    assert(0int / denominator == 0) by {
        vstd::arithmetic::div_mod::lemma_div_basics(denominator);
    }
    lemma_div_is_ordered(0, unit * pj, denominator);
    lemma_div_is_ordered(unit * pj, unit * pk, denominator);
    lemma_div_is_ordered(unit * pk, unit * denominator, denominator);
    lemma_div_multiples_vanish(unit, denominator);
    assert(unit * denominator == denominator * unit) by (nonlinear_arith);
}

/// The shares of the first `k` actions add up to the level at `k`.
pub proof fn lemma_shares_telescope(mass: Seq<int>, weights: Seq<int>, denominator: int, k: int)
    requires
        0 <= k <= mass.len(),
        mass.len() == weights.len(),
        denominator > 0,
    ensures
        prefix_total(deposited(mass, weights, denominator), k) == prefix_total(mass, k)
            + mass_level(weights, denominator, k) - mass_level(weights, denominator, 0),
    decreases k,
{
    if k > 0 {
        lemma_shares_telescope(mass, weights, denominator, k - 1);
    }
}

/// A deposit splits exactly `MASS_UNIT` among the actions: no share is
/// negative and together they are one round's whole mass.
pub proof fn lemma_deposit_adds_one_unit(mass: Seq<int>, weights: Seq<int>, denominator: int)
    requires
        mass.len() == weights.len(),
        forall|i: int| 0 <= i < weights.len() ==> weights[i] >= 0,
        denominator > 0,
        total(weights) == denominator,
    ensures
        total(deposited(mass, weights, denominator)) == total(mass) + MASS_UNIT,
        forall|k: int|
            0 <= k < weights.len() ==> 0 <= #[trigger] mass_share(weights, denominator, k)
                <= MASS_UNIT,
{
    let n = weights.len() as int;
    lemma_shares_telescope(mass, weights, denominator, n);
    lemma_mass_levels(weights, denominator, 0, n);
    assert forall|k: int| 0 <= k < weights.len() implies 0 <= #[trigger] mass_share(
        weights,
        denominator,
        k,
    ) <= MASS_UNIT by {
        lemma_mass_levels(weights, denominator, k, k + 1);
    }
}

/// Rounding moves a share by less than one unit of mass away from the exact
/// share `MASS_UNIT * weight / denominator`, and an action of weight zero
/// gets no mass at all.
pub proof fn lemma_share_is_accurate(weights: Seq<int>, denominator: int, k: int)
    requires
        0 <= k < weights.len(),
        denominator > 0,
    ensures
        mass_share(weights, denominator, k) * denominator > MASS_UNIT * weights[k] - denominator,
        mass_share(weights, denominator, k) * denominator < MASS_UNIT * weights[k] + denominator,
        weights[k] == 0 ==> mass_share(weights, denominator, k) == 0,
{
    let unit = MASS_UNIT as int;
    let below = unit * prefix_total(weights, k);
    let above = unit * prefix_total(weights, k + 1);
    assert(above - below == unit * weights[k]) by (nonlinear_arith)
        requires
            above == unit * (prefix_total(weights, k) + weights[k]),
            below == unit * prefix_total(weights, k),
    ;
    lemma_fundamental_div_mod(below, denominator);
    lemma_fundamental_div_mod(above, denominator);
    lemma_mod_bound(below, denominator);
    lemma_mod_bound(above, denominator);
    let qa = above / denominator;
    let qb = below / denominator;
    assert((qa - qb) * denominator == denominator * qa - denominator * qb) by (nonlinear_arith);
}

impl StrategyAccumulator {
    /// Deposits one round's strategy: every action gains its share of
    /// `MASS_UNIT`, and the shares together are exactly `MASS_UNIT`.
    pub fn add_strategy(&mut self, strategy: &StrategyVector)
        requires
            old(self).wf(),
            strategy.is_distribution(),
            strategy.set() == old(self).set(),
            old(self).total_mass() + MASS_UNIT <= u64::MAX,
        ensures
            final(self).wf(),
            final(self).set() == old(self).set(),
            final(self)@ == deposited(old(self)@, strategy.weights(), strategy.denominator()),
            final(self).total_mass() == old(self).total_mass() + MASS_UNIT,
    {
        let set: ActionSet = strategy.action_set();
        let n: usize = set.size();
        let denominator: u128 = strategy.scale();
        let ghost weights = strategy.weights();
        let ghost before = self@;
        proof {
            strategy.lemma_weights_nonnegative();
            self.lemma_mass_nonnegative();
            lemma_deposit_adds_one_unit(before, weights, denominator as int);
            lemma_mass_levels(weights, denominator as int, 0, 0);
            lemma_prefix_total_bounded(weights, n as int, 0, u64::MAX as int);
            assert(n * u64::MAX <= 5 * u64::MAX) by (nonlinear_arith)
                requires
                    n <= 5,
            ;
            assert forall|i: int| 0 <= i < n implies 0 <= #[trigger] before[i] <= total(
                before,
            ) by {
                lemma_entry_at_most_total(before, i);
            }
        }
        let mut running: u128 = 0;
        let mut level: u128 = 0;
        let mut k: usize = 0;
        while k < n
            invariant
                k <= n,
                n == set.count(),
                self.wf(),
                self.set() == set,
                strategy.set() == set,
                strategy.is_distribution(),
                weights == strategy.weights(),
                denominator == strategy.denominator(),
                before.len() == n,
                forall|i: int| 0 <= i < n ==> 0 <= #[trigger] before[i] <= total(before),
                forall|i: int| 0 <= i < n ==> 0 <= #[trigger] weights[i] <= u64::MAX,
                total(before) + MASS_UNIT <= u64::MAX,
                denominator <= 5 * u64::MAX,
                running == prefix_total(weights, k as int),
                level == mass_level(weights, denominator as int, k as int),
                forall|i: int|
                    0 <= i < k ==> #[trigger] self@[i] == before[i] + mass_share(
                        weights,
                        denominator as int,
                        i,
                    ),
                forall|i: int| k <= i < n ==> #[trigger] self@[i] == before[i],
            decreases n - k,
        {
            let action: Action = set.action_at(k);
            proof {
                lemma_prefix_total_monotone(weights, k as int + 1, n as int);
                lemma_mass_levels(weights, denominator as int, k as int, k as int + 1);
                assert(MASS_UNIT * prefix_total(weights, k as int + 1) <= MASS_UNIT
                    * denominator) by (nonlinear_arith)
                    requires
                        0 <= prefix_total(weights, k as int + 1) <= denominator,
                ;
                assert(MASS_UNIT * denominator <= 0x1_0000_0000 * 0x8_0000_0000_0000_0000)
                    by (nonlinear_arith)
                    requires
                        0 <= denominator <= 5 * u64::MAX,
                ;
            }
            running = running + strategy.get_val(action) as u128;
            let next: u128 = (MASS_UNIT as u128 * running) / denominator;
            let share: u128 = next - level;
            let held: u64 = self.get_val(action);
            self.write_val(action, held + share as u64);
            level = next;
            k = k + 1;
        }
        assert(self@ =~= deposited(before, weights, denominator as int));
    }
}

/// The strategy of the coming round by regret matching, deposited into
/// `strategy_sum`.
///
/// Each action is weighted by the positive part of its cumulative regret;
/// where no regret is positive every action has the same weight. The
/// strategy returned is exact. Its deposit is rounded to whole units of mass
/// and adds up to exactly `MASS_UNIT`, whichever branch gave the weights.
pub fn get_strategy(regret_sum: &RegretAccumulator, strategy_sum: &mut StrategyAccumulator) -> (strategy:
    StrategyVector)
    requires
        regret_sum.wf(),
        old(strategy_sum).wf(),
        old(strategy_sum).set() == regret_sum.set(),
        old(strategy_sum).total_mass() + MASS_UNIT <= u64::MAX,
    ensures
        strategy.set() == regret_sum.set(),
        strategy.weights() == matched_weights(regret_sum@),
        strategy.denominator() == matched_denominator(regret_sum@),
        strategy.is_distribution(),
        (forall|i: int| 0 <= i < regret_sum@.len() ==> regret_sum@[i] <= 0)
            ==> strategy.is_uniform(),
        final(strategy_sum).wf(),
        final(strategy_sum).set() == old(strategy_sum).set(),
        final(strategy_sum)@ == deposited(
            old(strategy_sum)@,
            strategy.weights(),
            strategy.denominator(),
        ),
        final(strategy_sum).total_mass() == old(strategy_sum).total_mass() + MASS_UNIT,
{
    let set: ActionSet = regret_sum.action_set();
    let n: usize = set.size();
    let ghost parts = positive_parts(regret_sum@);
    let mut weights: Vec<u64> = Vec::new();
    let mut normalizing_sum: u128 = 0;
    let mut k: usize = 0;
    while k < n
        invariant
            k <= n,
            n == set.count(),
            regret_sum.wf(),
            regret_sum.set() == set,
            parts == positive_parts(regret_sum@),
            weights.len() == k,
            forall|i: int| 0 <= i < k ==> #[trigger] weights@[i] as int == parts[i],
            normalizing_sum == prefix_total(parts, k as int),
            normalizing_sum <= k * u64::MAX,
        decreases n - k,
    {
        let regret: i64 = regret_sum.get_val(set.action_at(k));
        let weight: u64 = if regret > 0 {
            regret as u64
        } else {
            0
        };
        weights.push(weight);
        normalizing_sum = normalizing_sum + weight as u128;
        k = k + 1;
    }
    assert(as_ints(weights@) =~= parts);
    proof {
        lemma_no_positive_regret(regret_sum@);
    }
    let strategy = if normalizing_sum > 0 {
        StrategyVector::from_weights(set, weights, normalizing_sum).unwrap()
    } else {
        StrategyVector::uniform(set)
    };
    strategy_sum.add_strategy(&strategy);
    strategy
}

/// Where no regret is positive the matched strategy is the uniform one, and
/// only there do the positive parts sum to zero.
pub proof fn lemma_no_positive_regret(regrets: Seq<int>)
    ensures
        (forall|i: int| 0 <= i < regrets.len() ==> regrets[i] <= 0) <==> total(
            positive_parts(regrets),
        ) == 0,
        total(positive_parts(regrets)) >= 0,
        (forall|i: int| 0 <= i < regrets.len() ==> regrets[i] <= 0) ==> {
            &&& matched_weights(regrets) == constant(regrets.len() as int, 1)
            &&& matched_denominator(regrets) == regrets.len()
        },
{
    let parts = positive_parts(regrets);
    let n = regrets.len() as int;
    lemma_prefix_total_monotone(parts, 0, n);
    if forall|i: int| 0 <= i < regrets.len() ==> regrets[i] <= 0 {
        assert(parts =~= constant(n, 0));
        crate::sums::lemma_prefix_total_constant(n, 0, n);
    } else {
        let i = choose|i: int| 0 <= i < regrets.len() && regrets[i] > 0;
        assert(parts[i] > 0);
        lemma_entry_at_most_total(parts, i);
    }
}

/// Regret matching always gives a probability distribution: no weight is
/// negative, the denominator is positive, and the weights sum to it.
pub proof fn lemma_matching_is_normalized(regrets: Seq<int>)
    requires
        regrets.len() > 0,
    ensures
        matched_denominator(regrets) > 0,
        total(matched_weights(regrets)) == matched_denominator(regrets),
        matched_weights(regrets).len() == regrets.len(),
        forall|i: int| 0 <= i < regrets.len() ==> #[trigger] matched_weights(regrets)[i] >= 0,
{
    lemma_no_positive_regret(regrets);
    crate::sums::lemma_prefix_total_constant(regrets.len() as int, 1, regrets.len() as int);
}

} // verus!
