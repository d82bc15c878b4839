//! Sampling one action from a strategy, given a uniform draw.

use vstd::prelude::*;
use crate::action::{Action, ActionSet};
use crate::sums::{prefix_total, total};
use crate::values::StrategyVector;

verus! {

/// The number of equally likely draws. The draw `d` stands for the number
/// `d / DRAW_RANGE` of the unit interval.
pub const DRAW_RANGE: u64 = 0x20_0000_0000_0000;

/// Whether the cumulative probability of the actions up to and including
/// ordinal `k` strictly exceeds the draw.
pub open spec fn exceeds(weights: Seq<int>, denominator: int, draw: int, k: int) -> bool {
    prefix_total(weights, k + 1) * DRAW_RANGE > draw * denominator
}

/// The first ordinal at or after `from` whose cumulative probability exceeds
/// the draw, or the last ordinal if there is none.
pub open spec fn first_exceeding(weights: Seq<int>, denominator: int, draw: int, from: int) -> int
    decreases weights.len() - from,
{
    if from + 1 >= weights.len() {
        weights.len() - 1
    } else if exceeds(weights, denominator, draw, from) {
        from
    } else {
        first_exceeding(weights, denominator, draw, from + 1)
    }
}

/// The ordinal that a draw selects.
pub open spec fn sampled_ordinal(weights: Seq<int>, denominator: int, draw: int) -> int {
    first_exceeding(weights, denominator, draw, 0)
}

/// The draw that rests on 64 random bits: their 53 most significant bits.
pub fn draw_from_bits(bits: u64) -> (draw: u64)
    ensures
        draw == bits / 2048,
        draw < DRAW_RANGE,
{
    let draw: u64 = bits >> 11;
    assert(draw == bits / 2048 && draw < 0x20_0000_0000_0000) by (bit_vector)
        requires
            draw == bits >> 11,
    ;
    draw
}

/// The action that `draw` selects from `strategy`.
///
/// The actions are walked in order while their probabilities are added up,
/// and the first action whose cumulative probability strictly exceeds the
/// draw is returned. Where no cumulative probability exceeds the draw, which
/// happens only if the weights sum to less than the denominator or the draw
/// is not below `DRAW_RANGE`, the last action is returned.
pub fn sample_strategy(strategy: &StrategyVector, draw: u64) -> (action: Action)
    requires
        strategy.wf(),
    ensures
        strategy.set().has(action),
        action.ordinal() == sampled_ordinal(
            strategy.weights(),
            strategy.denominator(),
            draw as int,
        ),
        forall|j: int|
            0 <= j < action.ordinal() ==> !exceeds(
                strategy.weights(),
                strategy.denominator(),
                draw as int,
                j,
            ),
        exceeds(strategy.weights(), strategy.denominator(), draw as int, action.ordinal())
            || action.ordinal() == strategy.set().count() - 1,
{
    let set: ActionSet = strategy.action_set();
    let n: usize = set.size();
    let denominator: u128 = strategy.scale();
    let ghost weights = strategy.weights();
    proof {
        strategy.lemma_weights_nonnegative();
    }
    let mut cum_prob: u128 = 0;
    let mut k: usize = 0;
    while k < n
        invariant
            k <= n,
            n == set.count(),
            strategy.wf(),
            strategy.set() == set,
            weights == strategy.weights(),
            denominator == strategy.denominator(),
            forall|i: int| 0 <= i < n ==> 0 <= #[trigger] weights[i] <= u64::MAX,
            cum_prob == prefix_total(weights, k as int),
            cum_prob <= k * u64::MAX,
            forall|j: int| 0 <= j < k ==> !exceeds(weights, denominator as int, draw as int, j),
            k < n ==> sampled_ordinal(weights, denominator as int, draw as int)
                == first_exceeding(weights, denominator as int, draw as int, k as int),
            k == n ==> sampled_ordinal(weights, denominator as int, draw as int) == n - 1,
        decreases n - k,
    {
        let throw: Action = set.action_at(k);
        cum_prob = cum_prob + strategy.get_val(throw) as u128;
        assert(cum_prob * DRAW_RANGE <= 0x8_0000_0000_0000_0000 * 0x20_0000_0000_0000)
            by (nonlinear_arith)
            requires
                cum_prob <= 5 * u64::MAX,
        ;
        let reached: u128 = cum_prob * (DRAW_RANGE as u128);
        let over: bool = match (draw as u128).checked_mul(denominator) {
            Some(level) => reached > level,
            None => false,
        };
        if over {
            return throw;
        }
        k = k + 1;
    }
    set.last()
}

/// A draw below `DRAW_RANGE` from a probability distribution never falls
/// through: the cumulative probability of the selected action exceeds the
/// draw, and the action has positive weight.
pub proof fn lemma_sample_in_support(weights: Seq<int>, denominator: int, draw: int)
    requires
        weights.len() > 0,
        forall|i: int| 0 <= i < weights.len() ==> weights[i] >= 0,
        denominator > 0,
        total(weights) == denominator,
        0 <= draw < DRAW_RANGE,
    ensures
        0 <= sampled_ordinal(weights, denominator, draw) < weights.len(),
        exceeds(weights, denominator, draw, sampled_ordinal(weights, denominator, draw)),
        weights[sampled_ordinal(weights, denominator, draw)] > 0,
{
    lemma_first_exceeding(weights, denominator, draw, 0);
    let k = sampled_ordinal(weights, denominator, draw);
    let n = weights.len() as int;
    if k == n - 1 {
        assert(prefix_total(weights, n) * DRAW_RANGE > draw * denominator) by (nonlinear_arith)
            requires
                prefix_total(weights, n) == denominator,
                denominator > 0,
                0 <= draw < DRAW_RANGE,
        ;
    }
    if weights[k] == 0 {
        if k == 0 {
            assert(prefix_total(weights, 1) == prefix_total(weights, 0) + weights[0]);
            assert(0 * DRAW_RANGE > draw * denominator);
            assert(draw * denominator >= 0) by (nonlinear_arith)
                requires
                    draw >= 0,
                    denominator > 0,
            ;
        } else {
            assert(!exceeds(weights, denominator, draw, k - 1));
        }
    }
}

/// From `from` on, the selected ordinal is the first that exceeds the draw,
/// or the last ordinal.
pub proof fn lemma_first_exceeding(weights: Seq<int>, denominator: int, draw: int, from: int)
    requires
        0 <= from < weights.len(),
    ensures
        from <= first_exceeding(weights, denominator, draw, from) < weights.len(),
        forall|j: int|
            from <= j < first_exceeding(weights, denominator, draw, from) ==> !exceeds(
                weights,
                denominator,
                draw,
                j,
            ),
        exceeds(
            weights,
            denominator,
            draw,
            first_exceeding(weights, denominator, draw, from),
        ) || first_exceeding(weights, denominator, draw, from) == weights.len() - 1,
    decreases weights.len() - from,
{
    if from + 1 < weights.len() && !exceeds(weights, denominator, draw, from) {
        lemma_first_exceeding(weights, denominator, draw, from + 1);
    }
}

} // verus!
