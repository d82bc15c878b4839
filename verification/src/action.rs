//! The pure actions of the game and the two action sets built from them.

use vstd::prelude::*;

verus! {

/// A pure action. The declaration order is the order in which every
/// per-action container is indexed and in which the sampler walks.
#[derive(Copy, Clone, Debug, PartialEq, Eq, Structural)]
pub enum Action {
    Rock,
    Paper,
    Scissors,
    Water,
    Fire,
}

/// The ordered set of actions a player may choose from.
#[derive(Copy, Clone, Debug, PartialEq, Eq, Structural)]
pub enum ActionSet {
    /// Rock, Paper, Scissors.
    Classic,
    /// Rock, Paper, Scissors, Water, Fire.
    Extended,
}

/// The action with ordinal `i`; ordinals past the last action name the last.
pub open spec fn action_of(i: int) -> Action {
    if i <= 0 {
        Action::Rock
    } else if i == 1 {
        Action::Paper
    } else if i == 2 {
        Action::Scissors
    } else if i == 3 {
        Action::Water
    } else {
        Action::Fire
    }
}

impl Action {
    /// The ordinal of the action as a mathematical integer.
    pub open spec fn ordinal(self) -> int {
        match self {
            Action::Rock => 0,
            Action::Paper => 1,
            Action::Scissors => 2,
            Action::Water => 3,
            Action::Fire => 4,
        }
    }

    /// The ordinal of the action.
    pub fn index(self) -> (i: usize)
        ensures
            i == self.ordinal(),
            i < 5,
    {
        match self {
            Action::Rock => 0,
            Action::Paper => 1,
            Action::Scissors => 2,
            Action::Water => 3,
            Action::Fire => 4,
        }
    }
}

impl ActionSet {
    /// The number of actions in the set as a mathematical integer.
    pub open spec fn count(self) -> int {
        match self {
            ActionSet::Classic => 3,
            ActionSet::Extended => 5,
        }
    }

    /// Whether `action` belongs to the set.
    pub open spec fn has(self, action: Action) -> bool {
        action.ordinal() < self.count()
    }

    /// The number of actions in the set.
    pub fn size(self) -> (n: usize)
        ensures
            n == self.count(),
            n == 3 || n == 5,
    {
        match self {
            ActionSet::Classic => 3,
            ActionSet::Extended => 5,
        }
    }

    /// Whether `action` belongs to the set.
    pub fn contains(self, action: Action) -> (b: bool)
        ensures
            b == self.has(action),
    {
        action.index() < self.size()
    }

    /// The action at position `i` of the set's order.
    pub fn action_at(self, i: usize) -> (action: Action)
        requires
            i < self.count(),
        ensures
            action == action_of(i as int),
            action.ordinal() == i,
            self.has(action),
    {
        if i == 0 {
            Action::Rock
        } else if i == 1 {
            Action::Paper
        } else if i == 2 {
            Action::Scissors
        } else if i == 3 {
            Action::Water
        } else {
            Action::Fire
        }
    }

    /// The last action of the set's order.
    pub fn last(self) -> (action: Action)
        ensures
            action.ordinal() == self.count() - 1,
            self.has(action),
    {
        match self {
            ActionSet::Classic => Action::Scissors,
            ActionSet::Extended => Action::Fire,
        }
    }
}

/// Ordinals and actions correspond one to one.
pub proof fn lemma_ordinal_round_trip(action: Action, i: int)
    ensures
        action_of(action.ordinal()) == action,
        0 <= action.ordinal() < 5,
        0 <= i < 5 ==> action_of(i).ordinal() == i,
{
}

} // verus!
