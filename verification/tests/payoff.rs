use rps_cfr::action::{Action, ActionSet};
use rps_cfr::payoff::{beats_in_cycle, game_value};
use rps_cfr::regret::best_response_utilities;

const ALL: [Action; 5] = [
    Action::Rock,
    Action::Paper,
    Action::Scissors,
    Action::Water,
    Action::Fire,
];

#[test]
fn ordinals_follow_declaration_order() {
    for (i, action) in ALL.iter().enumerate() {
        assert_eq!(action.index(), i);
        assert_eq!(ActionSet::Extended.action_at(i), *action);
    }
    assert_eq!(ActionSet::Classic.size(), 3);
    assert_eq!(ActionSet::Extended.size(), 5);
    assert_eq!(ActionSet::Classic.last(), Action::Scissors);
    assert_eq!(ActionSet::Extended.last(), Action::Fire);
}

#[test]
fn classic_set_holds_the_first_three_actions() {
    assert!(ActionSet::Classic.contains(Action::Rock));
    assert!(ActionSet::Classic.contains(Action::Paper));
    assert!(ActionSet::Classic.contains(Action::Scissors));
    assert!(!ActionSet::Classic.contains(Action::Water));
    assert!(!ActionSet::Classic.contains(Action::Fire));
    for action in ALL {
        assert!(ActionSet::Extended.contains(action));
    }
}

#[test]
fn game_is_zero_sum_on_every_pair() {
    for a in ALL {
        assert_eq!(game_value(a, a), 0);
        for b in ALL {
            assert_eq!(game_value(a, b), -game_value(b, a));
        }
    }
}

#[test]
fn every_pair_of_the_extended_set_has_a_value() {
    let mut decided = 0;
    for a in ALL {
        for b in ALL {
            let value = game_value(a, b);
            assert!(value == -1 || value == 0 || value == 1);
            if a != b {
                assert_ne!(value, 0);
                decided += 1;
            }
        }
    }
    assert_eq!(decided, 20);
}

#[test]
fn rock_paper_scissors_dominate_in_a_cycle() {
    assert_eq!(game_value(Action::Rock, Action::Scissors), 1);
    assert_eq!(game_value(Action::Scissors, Action::Paper), 1);
    assert_eq!(game_value(Action::Paper, Action::Rock), 1);
    assert_eq!(game_value(Action::Scissors, Action::Rock), -1);
    assert_eq!(game_value(Action::Paper, Action::Scissors), -1);
    assert_eq!(game_value(Action::Rock, Action::Paper), -1);
    assert!(beats_in_cycle(Action::Rock, Action::Scissors));
    assert!(!beats_in_cycle(Action::Scissors, Action::Rock));
    assert!(!beats_in_cycle(Action::Fire, Action::Rock));
    assert!(!beats_in_cycle(Action::Rock, Action::Rock));
}

#[test]
fn fire_beats_the_classic_actions_and_loses_to_water() {
    for classic in [Action::Rock, Action::Paper, Action::Scissors] {
        assert_eq!(game_value(Action::Fire, classic), 1);
        assert_eq!(game_value(classic, Action::Fire), -1);
    }
    assert_eq!(game_value(Action::Fire, Action::Water), -1);
    assert_eq!(game_value(Action::Water, Action::Fire), 1);
}

#[test]
fn water_beats_the_classic_actions() {
    for classic in [Action::Rock, Action::Paper, Action::Scissors] {
        assert_eq!(game_value(Action::Water, classic), 1);
        assert_eq!(game_value(classic, Action::Water), -1);
    }
}

#[test]
fn utilities_are_the_payoffs_against_the_observed_action() {
    let utilities = best_response_utilities(ActionSet::Classic, Action::Rock);
    assert_eq!(utilities.action_set(), ActionSet::Classic);
    assert_eq!(utilities.get_val(Action::Rock), 0);
    assert_eq!(utilities.get_val(Action::Paper), 1);
    assert_eq!(utilities.get_val(Action::Scissors), -1);

    let utilities = best_response_utilities(ActionSet::Extended, Action::Water);
    assert_eq!(utilities.get_val(Action::Rock), -1);
    assert_eq!(utilities.get_val(Action::Paper), -1);
    assert_eq!(utilities.get_val(Action::Scissors), -1);
    assert_eq!(utilities.get_val(Action::Water), 0);
    assert_eq!(utilities.get_val(Action::Fire), -1);
}
