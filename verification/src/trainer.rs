//! The training loop, in self-play or against a fixed opponent.

use vstd::prelude::*;
use crate::action::{action_of, lemma_ordinal_round_trip, Action, ActionSet};
use crate::average::{average_denominator, average_weights, get_average_strategy};
use crate::matcher::{
    deposited,
    get_strategy,
    lemma_deposit_adds_one_unit,
    lemma_matching_is_normalized,
    matched_denominator,
    matched_weights,
    MASS_UNIT,
};
use crate::random::next_bits;
use crate::regret::{accumulate_regrets, best_response_utilities, regrets_after, utilities_against};
use crate::sampler::{draw_from_bits, sample_strategy, sampled_ordinal, DRAW_RANGE};
use crate::sums::{constant, total};
use crate::values::{RegretAccumulator, StrategyAccumulator, StrategyVector};

verus! {

/// The most rounds one trainer can run: beyond it the accumulated mass would
/// no longer fit its 64 bits.
pub const ITERATION_LIMIT: u64 = 4_581_298_449;

/// What one learning player has accumulated.
pub struct LearnerModel {
    pub regret: Seq<int>,
    pub mass: Seq<int>,
}

/// What the other side plays by.
pub enum OpponentModel {
    /// The opponent learns as the learner does.
    Adaptive(LearnerModel),
    /// The opponent always plays the same strategy.
    Fixed { weights: Seq<int>, denominator: int },
}

/// A trainer as mathematics sees it.
pub struct TrainerModel {
    pub learner: LearnerModel,
    pub opponent: OpponentModel,
    pub iterations: int,
}

/// The ordinal a learning player plays on `draw`.
pub open spec fn learner_plays(player: LearnerModel, draw: int) -> int {
    sampled_ordinal(matched_weights(player.regret), matched_denominator(player.regret), draw)
}

/// The ordinal the opponent plays on `draw`.
pub open spec fn opponent_plays(opponent: OpponentModel, draw: int) -> int {
    match opponent {
        OpponentModel::Adaptive(player) => learner_plays(player, draw),
        OpponentModel::Fixed { weights, denominator } => sampled_ordinal(
            weights,
            denominator,
            draw,
        ),
    }
}

/// A learning player after a round in which it played `own` and saw `other`:
/// its strategy of the round is deposited, and its regrets are updated
/// against the one action it saw.
pub open spec fn learner_after(player: LearnerModel, own: int, other: int) -> LearnerModel {
    LearnerModel {
        regret: regrets_after(
            player.regret,
            utilities_against(player.regret.len() as int, action_of(other)),
            own,
        ),
        mass: deposited(
            player.mass,
            matched_weights(player.regret),
            matched_denominator(player.regret),
        ),
    }
}

/// The trainer after one round on the two draws.
pub open spec fn step_model(
    model: TrainerModel,
    learner_draw: int,
    opponent_draw: int,
) -> TrainerModel {
    let mine = learner_plays(model.learner, learner_draw);
    let theirs = opponent_plays(model.opponent, opponent_draw);
    TrainerModel {
        learner: learner_after(model.learner, mine, theirs),
        opponent: match model.opponent {
            OpponentModel::Adaptive(player) => OpponentModel::Adaptive(
                learner_after(player, theirs, mine),
            ),
            OpponentModel::Fixed { weights, denominator } => model.opponent,
        },
        iterations: model.iterations + 1,
    }
}

/// The trainer after one round for each pair of draws, in order.
pub open spec fn run_model(model: TrainerModel, draws: Seq<(int, int)>) -> TrainerModel
    decreases draws.len(),
{
    if draws.len() == 0 {
        model
    } else {
        step_model(run_model(model, draws.drop_last()), draws.last().0, draws.last().1)
    }
}

/// Whether every draw of the sequence is below `DRAW_RANGE`.
pub open spec fn draws_in_range(draws: Seq<(int, int)>) -> bool {
    forall|i: int|
        0 <= i < draws.len() ==> 0 <= (#[trigger] draws[i]).0 < DRAW_RANGE && 0 <= draws[i].1
            < DRAW_RANGE
}

/// What holds of a learning player after `iterations` rounds over `n`
/// actions: every round deposited exactly `MASS_UNIT`, and no round moved a
/// regret by more than two.
pub open spec fn learner_inv(player: LearnerModel, n: int, iterations: int) -> bool {
    &&& player.regret.len() == n
    &&& player.mass.len() == n
    &&& total(player.mass) == iterations * MASS_UNIT
    &&& forall|i: int|
        0 <= i < n ==> -2 * iterations <= #[trigger] player.regret[i] <= 2 * iterations
}

/// What holds of every trainer over `n` actions that training can reach.
pub open spec fn trainer_inv(model: TrainerModel, n: int) -> bool {
    &&& n == 3 || n == 5
    &&& 0 <= model.iterations <= ITERATION_LIMIT
    &&& learner_inv(model.learner, n, model.iterations)
    &&& match model.opponent {
        OpponentModel::Adaptive(player) => learner_inv(player, n, model.iterations),
        OpponentModel::Fixed { weights, denominator } => {
            &&& weights.len() == n
            &&& denominator > 0
            &&& total(weights) == denominator
            &&& forall|i: int| 0 <= i < n ==> #[trigger] weights[i] >= 0
        },
    }
}

/// One round keeps a learning player within its invariant.
pub proof fn lemma_learner_after(
    player: LearnerModel,
    n: int,
    iterations: int,
    own: int,
    other: int,
)
    requires
        learner_inv(player, n, iterations),
        n > 0,
        0 <= iterations,
        0 <= own < n,
    ensures
        learner_inv(learner_after(player, own, other), n, iterations + 1),
{
    lemma_matching_is_normalized(player.regret);
    lemma_deposit_adds_one_unit(
        player.mass,
        matched_weights(player.regret),
        matched_denominator(player.regret),
    );
    assert((iterations + 1) * MASS_UNIT == iterations * MASS_UNIT + MASS_UNIT)
        by (nonlinear_arith);
    let after = learner_after(player, own, other);
    let utilities = utilities_against(n, action_of(other));
    assert forall|i: int| 0 <= i < n implies -2 * (iterations + 1) <= #[trigger] after.regret[i]
        <= 2 * (iterations + 1) by {
        assert(-1 <= utilities[i] <= 1);
        assert(-1 <= utilities[own] <= 1);
        assert(-2 * iterations <= player.regret[i] <= 2 * iterations);
    }
}

/// The ordinal a learning player plays is one of its actions.
pub proof fn lemma_learner_plays(player: LearnerModel, draw: int)
    requires
        player.regret.len() > 0,
    ensures
        0 <= learner_plays(player, draw) < player.regret.len(),
{
    lemma_matching_is_normalized(player.regret);
    crate::sampler::lemma_first_exceeding(
        matched_weights(player.regret),
        matched_denominator(player.regret),
        draw,
        0,
    );
}

/// The ordinal the opponent plays is one of its actions.
pub proof fn lemma_opponent_plays(model: TrainerModel, n: int, draw: int)
    requires
        trainer_inv(model, n),
    ensures
        0 <= opponent_plays(model.opponent, draw) < n,
{
    match model.opponent {
        OpponentModel::Adaptive(player) => {
            lemma_learner_plays(player, draw);
        },
        OpponentModel::Fixed { weights, denominator } => {
            crate::sampler::lemma_first_exceeding(weights, denominator, draw, 0);
        },
    }
}

/// One round keeps a trainer within its invariant, as long as the limit of
/// rounds is not passed.
pub proof fn lemma_step_keeps_invariant(
    model: TrainerModel,
    n: int,
    learner_draw: int,
    opponent_draw: int,
)
    requires
        trainer_inv(model, n),
        model.iterations < ITERATION_LIMIT,
    ensures
        trainer_inv(step_model(model, learner_draw, opponent_draw), n),
        step_model(model, learner_draw, opponent_draw).iterations == model.iterations + 1,
{
    let mine = learner_plays(model.learner, learner_draw);
    let theirs = opponent_plays(model.opponent, opponent_draw);
    lemma_learner_plays(model.learner, learner_draw);
    lemma_opponent_plays(model, n, opponent_draw);
    lemma_learner_after(model.learner, n, model.iterations, mine, theirs);
    match model.opponent {
        OpponentModel::Adaptive(player) => {
            lemma_learner_after(player, n, model.iterations, theirs, mine);
        },
        OpponentModel::Fixed { weights, denominator } => {},
    }
}

/// Every round deposits one round's whole mass: after any sequence of rounds
/// the mass of each learning player is exactly `MASS_UNIT` times the number of
/// rounds played, and the trainer is still within its invariant.
pub proof fn lemma_run_keeps_invariant(model: TrainerModel, n: int, draws: Seq<(int, int)>)
    requires
        trainer_inv(model, n),
        model.iterations + draws.len() <= ITERATION_LIMIT,
    ensures
        trainer_inv(run_model(model, draws), n),
        run_model(model, draws).iterations == model.iterations + draws.len(),
        total(run_model(model, draws).learner.mass) == (model.iterations + draws.len())
            * MASS_UNIT,
    decreases draws.len(),
{
    if draws.len() > 0 {
        lemma_run_keeps_invariant(model, n, draws.drop_last());
        lemma_step_keeps_invariant(
            run_model(model, draws.drop_last()),
            n,
            draws.last().0,
            draws.last().1,
        );
    }
}

/// The learning state of one player: its cumulative regret and its cumulative
/// strategy mass. No other player reads or writes it.
#[derive(Debug)]
pub struct TrainingState {
    pub regret_sum: RegretAccumulator,
    pub strategy_sum: StrategyAccumulator,
}

impl View for TrainingState {
    type V = LearnerModel;

    open spec fn view(&self) -> LearnerModel {
        LearnerModel { regret: self.regret_sum@, mass: self.strategy_sum@ }
    }
}

impl TrainingState {
    /// Both accumulators range over `set`.
    pub open spec fn wf(&self, set: ActionSet) -> bool {
        &&& self.regret_sum.wf()
        &&& self.strategy_sum.wf()
        &&& self.regret_sum.set() == set
        &&& self.strategy_sum.set() == set
    }

    /// The state before the first round: no regret and no mass.
    pub fn new(set: ActionSet) -> (state: TrainingState)
        ensures
            state.wf(set),
            state@.regret == constant(set.count(), 0),
            state@.mass == constant(set.count(), 0),
            learner_inv(state@, set.count(), 0),
    {
        TrainingState {
            regret_sum: RegretAccumulator::new(set),
            strategy_sum: StrategyAccumulator::new(set),
        }
    }
}

/// How the other side chooses its actions.
#[derive(Debug)]
pub enum OpponentPolicy {
    /// The opponent learns by regret matching, from a state of its own.
    Adaptive(TrainingState),
    /// The opponent plays a constant strategy and learns nothing.
    Fixed(StrategyVector),
}

impl View for OpponentPolicy {
    type V = OpponentModel;

    open spec fn view(&self) -> OpponentModel {
        match self {
            OpponentPolicy::Adaptive(state) => OpponentModel::Adaptive(state@),
            OpponentPolicy::Fixed(strategy) => OpponentModel::Fixed {
                weights: strategy.weights(),
                denominator: strategy.denominator(),
            },
        }
    }
}

impl OpponentPolicy {
    /// The policy ranges over `set`, and a fixed strategy is a probability
    /// distribution.
    pub open spec fn wf(&self, set: ActionSet) -> bool {
        match self {
            OpponentPolicy::Adaptive(state) => state.wf(set),
            OpponentPolicy::Fixed(strategy) => strategy.is_distribution() && strategy.set() == set,
        }
    }
}

/// A learner, the policy of its opponent, and the number of rounds played.
#[derive(Debug)]
pub struct Trainer {
    pub set: ActionSet,
    pub learner: TrainingState,
    pub opponent: OpponentPolicy,
    pub iterations: u64,
}

impl View for Trainer {
    type V = TrainerModel;

    open spec fn view(&self) -> TrainerModel {
        TrainerModel {
            learner: self.learner@,
            opponent: self.opponent@,
            iterations: self.iterations as int,
        }
    }
}

impl Trainer {
    /// Both sides range over the trainer's action set, and the trainer is in
    /// a state that training can reach.
    pub open spec fn wf(&self) -> bool {
        &&& self.learner.wf(self.set)
        &&& self.opponent.wf(self.set)
        &&& trainer_inv(self@, self.set.count())
    }

    /// A trainer for mutual self-play over `set`, before the first round.
    pub fn self_play(set: ActionSet) -> (trainer: Trainer)
        ensures
            trainer.wf(),
            trainer.set == set,
            trainer.iterations == 0,
            trainer@.learner == (LearnerModel {
                regret: constant(set.count(), 0),
                mass: constant(set.count(), 0),
            }),
            trainer@.opponent == OpponentModel::Adaptive(trainer@.learner),
    {
        Trainer {
            set,
            learner: TrainingState::new(set),
            opponent: OpponentPolicy::Adaptive(TrainingState::new(set)),
            iterations: 0,
        }
    }

    /// A trainer over the action set of `opponent`, for a learner that faces
    /// that strategy in every round; `None` if `opponent` is not a
    /// probability distribution.
    pub fn against_fixed(opponent: StrategyVector) -> (made: Option<Trainer>)
        requires
            opponent.wf(),
        ensures
            made.is_some() == opponent.is_distribution(),
            made.is_some() ==> {
                &&& made.unwrap().wf()
                &&& made.unwrap().set == opponent.set()
                &&& made.unwrap().iterations == 0
                &&& made.unwrap()@.learner == (LearnerModel {
                    regret: constant(opponent.set().count(), 0),
                    mass: constant(opponent.set().count(), 0),
                })
                &&& made.unwrap().opponent == OpponentPolicy::Fixed(opponent)
            },
    {
        if opponent.sums_to_one() {
            let set: ActionSet = opponent.action_set();
            proof {
                opponent.lemma_weights_nonnegative();
            }
            Some(
                Trainer {
                    set,
                    learner: TrainingState::new(set),
                    opponent: OpponentPolicy::Fixed(opponent),
                    iterations: 0,
                },
            )
        } else {
            None
        }
    }

    /// One round on the two draws: the learner plays on `learner_draw`, the
    /// opponent on `opponent_draw`, and every learning side updates its
    /// regrets against the one action it saw the other side play.
    pub fn step(&mut self, learner_draw: u64, opponent_draw: u64)
        requires
            old(self).wf(),
            old(self).iterations < ITERATION_LIMIT,
        ensures
            final(self).wf(),
            final(self).set == old(self).set,
            final(self)@ == step_model(old(self)@, learner_draw as int, opponent_draw as int),
            final(self).iterations == old(self).iterations + 1,
            old(self).opponent is Fixed ==> final(self).opponent == old(self).opponent,
    {
        let set: ActionSet = self.set;
        let ghost before = self@;
        proof {
            lemma_step_keeps_invariant(
                before,
                set.count(),
                learner_draw as int,
                opponent_draw as int,
            );
            lemma_learner_plays(before.learner, learner_draw as int);
            lemma_opponent_plays(before, set.count(), opponent_draw as int);
            assert(ITERATION_LIMIT * MASS_UNIT <= u64::MAX) by (nonlinear_arith);
            assert(before.iterations * MASS_UNIT + MASS_UNIT <= ITERATION_LIMIT * MASS_UNIT)
                by (nonlinear_arith)
                requires
                    0 <= before.iterations < ITERATION_LIMIT,
            ;
        }
        let (my_action, opp_action) = match &mut self.opponent {
            OpponentPolicy::Adaptive(state) => get_action_pair(
                &self.learner.regret_sum,
                &mut self.learner.strategy_sum,
                &state.regret_sum,
                &mut state.strategy_sum,
                learner_draw,
                opponent_draw,
            ),
            OpponentPolicy::Fixed(strategy) => {
                let my_strategy = get_strategy(
                    &self.learner.regret_sum,
                    &mut self.learner.strategy_sum,
                );
                (
                    sample_strategy(&my_strategy, learner_draw),
                    sample_strategy(strategy, opponent_draw),
                )
            },
        };
        let my_utils = best_response_utilities(set, opp_action);
        assert forall|i: int| 0 <= i < my_utils@.len() implies i64::MIN
            <= #[trigger] before.learner.regret[i] + my_utils@[i] - my_utils@[my_action.ordinal()]
            <= i64::MAX by {
            assert(-1 <= my_utils@[i] <= 1);
            assert(-1 <= my_utils@[my_action.ordinal()] <= 1);
        }
        accumulate_regrets(my_action, &my_utils, &mut self.learner.regret_sum);
        match &mut self.opponent {
            OpponentPolicy::Adaptive(state) => {
                let opp_utils = best_response_utilities(set, my_action);
                assert forall|i: int| 0 <= i < opp_utils@.len() implies i64::MIN
                    <= #[trigger] state.regret_sum@[i] + opp_utils@[i]
                    - opp_utils@[opp_action.ordinal()] <= i64::MAX by {
                    assert(-1 <= opp_utils@[i] <= 1);
                    assert(-1 <= opp_utils@[opp_action.ordinal()] <= 1);
                }
                accumulate_regrets(opp_action, &opp_utils, &mut state.regret_sum);
            },
            OpponentPolicy::Fixed(_) => {},
        }
        self.iterations = self.iterations + 1;
        proof {
            lemma_ordinal_round_trip(my_action, 0);
            lemma_ordinal_round_trip(opp_action, 0);
        }
    }

    /// Runs `num_iters` rounds, none if `num_iters` is negative. Each round
    /// takes two draws from `rng`, the learner's before the opponent's.
    ///
    /// Whatever the generator gives, the trainer ends in the state that the
    /// rounds lead to on some sequence of draws below `DRAW_RANGE`, and each
    /// learning side has gained exactly `MASS_UNIT` of mass per round.
    pub fn train_strategy(&mut self, num_iters: i32, rng: &mut rand::rngs::ThreadRng)
        requires
            old(self).wf(),
            old(self).iterations + num_iters <= ITERATION_LIMIT,
        ensures
            final(self).wf(),
            final(self).set == old(self).set,
            final(self).iterations == old(self).iterations + (if num_iters > 0 {
                num_iters as int
            } else {
                0
            }),
            final(self).learner.strategy_sum.total_mass() == final(self).iterations * MASS_UNIT,
            old(self).opponent is Fixed ==> final(self).opponent == old(self).opponent,
            exists|draws: Seq<(int, int)>|
                {
                    &&& draws.len() == final(self).iterations - old(self).iterations
                    &&& draws_in_range(draws)
                    &&& final(self)@ == #[trigger] run_model(old(self)@, draws)
                },
    {
        let ghost start = self@;
        let ghost mut draws: Seq<(int, int)> = Seq::empty();
        let mut i: i32 = 0;
        while i < num_iters
            invariant
                0 <= i,
                i <= num_iters || num_iters < 0,
                num_iters < 0 ==> i == 0,
                self.wf(),
                self.set == old(self).set,
                start == old(self)@,
                start.iterations + num_iters <= ITERATION_LIMIT,
                self.iterations == start.iterations + i,
                old(self).opponent is Fixed ==> self.opponent == old(self).opponent,
                draws.len() == i,
                draws_in_range(draws),
                self@ == run_model(start, draws),
            decreases num_iters - i,
        {
            let learner_bits: u64 = next_bits(rng);
            let opponent_bits: u64 = next_bits(rng);
            let learner_draw: u64 = draw_from_bits(learner_bits);
            let opponent_draw: u64 = draw_from_bits(opponent_bits);
            self.step(learner_draw, opponent_draw);
            proof {
                let pair = (learner_draw as int, opponent_draw as int);
                assert(draws.push(pair).drop_last() =~= draws);
                draws = draws.push(pair);
            }
            i = i + 1;
        }
    }

    /// The average strategy of the learner: what training has found so far.
    pub fn learner_average(&self) -> (avg_strat: StrategyVector)
        requires
            self.wf(),
        ensures
            avg_strat.set() == self.set,
            avg_strat.weights() == average_weights(self@.learner.mass),
            avg_strat.denominator() == average_denominator(self@.learner.mass),
            avg_strat.is_distribution(),
    {
        get_average_strategy(&self.learner.strategy_sum)
    }

    /// The average strategy of a learning opponent, `None` for a fixed one.
    pub fn opponent_average(&self) -> (avg_strat: Option<StrategyVector>)
        requires
            self.wf(),
        ensures
            match self.opponent {
                OpponentPolicy::Adaptive(state) => {
                    &&& avg_strat.is_some()
                    &&& avg_strat.unwrap().set() == self.set
                    &&& avg_strat.unwrap().weights() == average_weights(state@.mass)
                    &&& avg_strat.unwrap().denominator() == average_denominator(state@.mass)
                    &&& avg_strat.unwrap().is_distribution()
                },
                OpponentPolicy::Fixed(_) => avg_strat.is_none(),
            },
    {
        match &self.opponent {
            OpponentPolicy::Adaptive(state) => Some(get_average_strategy(&state.strategy_sum)),
            OpponentPolicy::Fixed(_) => None,
        }
    }
}

/// The actions of one round of self-play: each side's strategy is derived
/// from its own regrets and deposited into its own mass, and each side's
/// action is sampled on its own draw.
pub fn get_action_pair(
    my_regret_sum: &RegretAccumulator,
    my_strategy_sum: &mut StrategyAccumulator,
    opp_regret_sum: &RegretAccumulator,
    opp_strategy_sum: &mut StrategyAccumulator,
    my_draw: u64,
    opp_draw: u64,
) -> (pair: (Action, Action))
    requires
        my_regret_sum.wf(),
        old(my_strategy_sum).wf(),
        old(my_strategy_sum).set() == my_regret_sum.set(),
        old(my_strategy_sum).total_mass() + MASS_UNIT <= u64::MAX,
        opp_regret_sum.wf(),
        old(opp_strategy_sum).wf(),
        old(opp_strategy_sum).set() == opp_regret_sum.set(),
        old(opp_strategy_sum).total_mass() + MASS_UNIT <= u64::MAX,
    ensures
        my_regret_sum.set().has(pair.0),
        opp_regret_sum.set().has(pair.1),
        pair.0.ordinal() == sampled_ordinal(
            matched_weights(my_regret_sum@),
            matched_denominator(my_regret_sum@),
            my_draw as int,
        ),
        pair.1.ordinal() == sampled_ordinal(
            matched_weights(opp_regret_sum@),
            matched_denominator(opp_regret_sum@),
            opp_draw as int,
        ),
        final(my_strategy_sum).wf(),
        final(my_strategy_sum).set() == old(my_strategy_sum).set(),
        final(my_strategy_sum)@ == deposited(
            old(my_strategy_sum)@,
            matched_weights(my_regret_sum@),
            matched_denominator(my_regret_sum@),
        ),
        final(opp_strategy_sum).wf(),
        final(opp_strategy_sum).set() == old(opp_strategy_sum).set(),
        final(opp_strategy_sum)@ == deposited(
            old(opp_strategy_sum)@,
            matched_weights(opp_regret_sum@),
            matched_denominator(opp_regret_sum@),
        ),
{
    let my_strategy = get_strategy(my_regret_sum, my_strategy_sum);
    let my_action = sample_strategy(&my_strategy, my_draw);
    let opp_strategy = get_strategy(opp_regret_sum, opp_strategy_sum);
    let opp_action = sample_strategy(&opp_strategy, opp_draw);
    (my_action, opp_action)
}

} // verus!
