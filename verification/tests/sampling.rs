use rps_cfr::action::{Action, ActionSet};
use rps_cfr::sampler::{draw_from_bits, sample_strategy, DRAW_RANGE};
use rps_cfr::values::StrategyVector;

fn classic(weights: [u64; 3], denominator: u128) -> StrategyVector {
    StrategyVector::from_weights(ActionSet::Classic, weights.to_vec(), denominator).unwrap()
}

#[test]
fn draw_range_is_two_to_the_53() {
    assert_eq!(DRAW_RANGE, 1u64 << 53);
}

#[test]
fn draw_keeps_the_top_53_bits() {
    assert_eq!(draw_from_bits(0), 0);
    assert_eq!(draw_from_bits(2047), 0);
    assert_eq!(draw_from_bits(2048), 1);
    assert_eq!(draw_from_bits(u64::MAX), DRAW_RANGE - 1);
    assert_eq!(draw_from_bits(1u64 << 63), DRAW_RANGE / 2);
}

#[test]
fn first_action_whose_cumulative_probability_exceeds_the_draw() {
    let strategy = classic([4, 3, 3], 10);
    assert_eq!(sample_strategy(&strategy, 0), Action::Rock);
    assert_eq!(sample_strategy(&strategy, 3_602_879_701_896_396), Action::Rock);
    assert_eq!(sample_strategy(&strategy, 3_602_879_701_896_397), Action::Paper);
    assert_eq!(sample_strategy(&strategy, 6_305_039_478_318_694), Action::Paper);
    assert_eq!(sample_strategy(&strategy, 6_305_039_478_318_695), Action::Scissors);
    assert_eq!(sample_strategy(&strategy, DRAW_RANGE - 1), Action::Scissors);
}

#[test]
fn cumulative_probability_must_exceed_the_draw_strictly() {
    let strategy = classic([1, 1, 2], 4);
    assert_eq!(sample_strategy(&strategy, DRAW_RANGE / 4 - 1), Action::Rock);
    assert_eq!(sample_strategy(&strategy, DRAW_RANGE / 4), Action::Paper);
    assert_eq!(sample_strategy(&strategy, DRAW_RANGE / 2 - 1), Action::Paper);
    assert_eq!(sample_strategy(&strategy, DRAW_RANGE / 2), Action::Scissors);
}

#[test]
fn actions_of_weight_zero_are_never_sampled() {
    let strategy = classic([0, 5, 0], 5);
    assert_eq!(sample_strategy(&strategy, 0), Action::Paper);
    assert_eq!(sample_strategy(&strategy, DRAW_RANGE / 2), Action::Paper);
    assert_eq!(sample_strategy(&strategy, DRAW_RANGE - 1), Action::Paper);
}

#[test]
fn last_action_when_the_weights_fall_short() {
    let strategy = classic([1, 1, 1], 10);
    assert_eq!(sample_strategy(&strategy, 0), Action::Rock);
    assert_eq!(sample_strategy(&strategy, DRAW_RANGE / 10 * 2 + 5), Action::Scissors);
    assert_eq!(sample_strategy(&strategy, DRAW_RANGE / 2), Action::Scissors);
    assert_eq!(sample_strategy(&strategy, DRAW_RANGE - 1), Action::Scissors);
    let empty = classic([0, 0, 0], 1);
    assert_eq!(sample_strategy(&empty, 0), Action::Scissors);
    let extended =
        StrategyVector::from_weights(ActionSet::Extended, vec![0, 0, 0, 0, 0], 7).unwrap();
    assert_eq!(sample_strategy(&extended, 12345), Action::Fire);
}

#[test]
fn last_action_when_the_draw_is_out_of_range() {
    let strategy = classic([4, 3, 3], 10);
    assert_eq!(sample_strategy(&strategy, DRAW_RANGE), Action::Scissors);
    assert_eq!(sample_strategy(&strategy, u64::MAX), Action::Scissors);
}

#[test]
fn sampling_takes_weights_and_denominators_of_any_size() {
    let strategy = StrategyVector::from_weights(
        ActionSet::Extended,
        vec![u64::MAX; 5],
        5 * (u64::MAX as u128),
    )
    .unwrap();
    assert_eq!(sample_strategy(&strategy, 0), Action::Rock);
    assert_eq!(sample_strategy(&strategy, DRAW_RANGE / 5), Action::Rock);
    assert_eq!(sample_strategy(&strategy, DRAW_RANGE / 5 + 1), Action::Paper);
    assert_eq!(sample_strategy(&strategy, DRAW_RANGE - 1), Action::Fire);
    let huge = classic([1, 1, 1], u128::MAX);
    assert_eq!(sample_strategy(&huge, 0), Action::Rock);
    assert_eq!(sample_strategy(&huge, 1), Action::Scissors);
    assert_eq!(sample_strategy(&huge, DRAW_RANGE - 1), Action::Scissors);
}

#[test]
fn uniform_strategy_splits_the_draws_evenly() {
    let strategy = StrategyVector::uniform(ActionSet::Extended);
    let mut counts = [0u32; 5];
    let steps: u64 = 1000;
    for i in 0..steps {
        let draw = (DRAW_RANGE / steps) * i + DRAW_RANGE / (2 * steps);
        counts[sample_strategy(&strategy, draw).index()] += 1;
    }
    assert_eq!(counts, [200, 200, 200, 200, 200]);
}
