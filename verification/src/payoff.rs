//! The zero-sum payoff of one simultaneous round.

use vstd::prelude::*;
use crate::action::Action;

verus! {

/// The dominance relation of the game: `beats(a, b)` holds when `a` wins
/// against `b`.
///
/// Rock, Paper and Scissors dominate one another in a cycle. Fire beats each
/// of those three, Water beats each of those three, and Water beats Fire.
pub open spec fn beats(a: Action, b: Action) -> bool {
    match (a, b) {
        (Action::Rock, Action::Scissors) => true,
        (Action::Scissors, Action::Paper) => true,
        (Action::Paper, Action::Rock) => true,
        (Action::Fire, Action::Rock) => true,
        (Action::Fire, Action::Paper) => true,
        (Action::Fire, Action::Scissors) => true,
        (Action::Water, Action::Rock) => true,
        (Action::Water, Action::Paper) => true,
        (Action::Water, Action::Scissors) => true,
        (Action::Water, Action::Fire) => true,
        _ => false,
    }
}

/// The payoff to the player of `mine` when the other side plays `theirs`:
/// 1 for a win, -1 for a loss, 0 otherwise.
pub open spec fn payoff(mine: Action, theirs: Action) -> int {
    if beats(mine, theirs) {
        1
    } else if beats(theirs, mine) {
        -1
    } else {
        0
    }
}

/// Whether `a` beats `b` by the cycle among Rock, Paper and Scissors.
pub fn beats_in_cycle(a: Action, b: Action) -> (won: bool)
    ensures
        won == (a.ordinal() < 3 && b.ordinal() < 3 && beats(a, b)),
{
    match (a, b) {
        (Action::Rock, Action::Scissors) => true,
        (Action::Scissors, Action::Paper) => true,
        (Action::Paper, Action::Rock) => true,
        _ => false,
    }
}

/// The payoff to the player of `my_throw` against `opp_throw`.
///
/// The chain of cases covers every ordered pair of actions: after the last
/// test nothing is left, so the function is total.
pub fn game_value(my_throw: Action, opp_throw: Action) -> (value: i64)
    ensures
        value == payoff(my_throw, opp_throw),
        -1 <= value <= 1,
{
    if my_throw == opp_throw {
        0
    } else if beats_in_cycle(my_throw, opp_throw) {
        1
    } else if beats_in_cycle(opp_throw, my_throw) {
        -1
    } else if my_throw == Action::Water {
        1
    } else if opp_throw == Action::Water {
        -1
    } else if my_throw == Action::Fire {
        1
    } else {
        assert(opp_throw == Action::Fire && my_throw.ordinal() < 3);
        -1
    }
}

/// The game is zero-sum: what one side wins the other loses, and a tie in
/// actions pays nothing.
pub proof fn lemma_zero_sum(a: Action, b: Action)
    ensures
        payoff(a, b) == -payoff(b, a),
        payoff(a, a) == 0,
{
}

/// Between two different actions exactly one wins, and no action beats
/// itself: the dominance relation leaves no pair undecided.
pub proof fn lemma_dominance_total(a: Action, b: Action)
    ensures
        a != b ==> (beats(a, b) != beats(b, a)),
        !beats(a, a),
        a != b ==> payoff(a, b) == 1 || payoff(a, b) == -1,
{
}

} // verus!
