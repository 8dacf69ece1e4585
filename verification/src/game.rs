//! The turn and round state machines.
//!
//! A turn rolls the current pool, takes a kept selection, and scores it; a
//! round repeats turns, accumulating the score, until the player busts
//! (kept nothing, or scored nothing) or banks. Busting forfeits the whole
//! round: the payout is zero no matter what was accumulated before.

use crate::dice::valid_dice;
use crate::dice::valid_die;
use crate::dice::TOTAL_DICE;
use rand::Rng;
use vstd::prelude::*;

verus! {

/// The sum of a sequence of turn scores.
pub open spec fn sum_scores(s: Seq<int>) -> int
    decreases s.len(),
{
    if s.len() == 0 {
        0
    } else {
        sum_scores(s.drop_last()) + s.last()
    }
}

/// A turn busts when the player kept no dice or the kept dice scored
/// nothing.
pub open spec fn busts(turn_score: i16, num_kept: usize) -> bool {
    num_kept == 0 || turn_score == 0
}

/// The pool for the roll after a scoring turn: the dice not yet kept, or
/// all six again when every die was kept ("hot dice").
pub open spec fn next_pool_spec(pool: int, num_kept: int) -> int {
    if pool - num_kept <= 0 {
        6
    } else {
        pool - num_kept
    }
}

/// The state of one round: the accumulated score and the pool to roll
/// next. The ghost history records the score of every completed turn, so
/// the accumulator is provably their exact sum.
#[derive(Clone, Copy)]
pub struct RoundState {
    /// The score accumulated over the round's completed turns.
    pub score: i32,
    /// How many dice the next roll of this round throws.
    pub pool: i8,
    /// The scores of the completed turns, oldest first.
    pub turns: Ghost<Seq<int>>,
}

impl RoundState {
    /// The round invariant: a pool of one to six dice, positive turn
    /// scores, and an accumulator that is exactly their sum.
    pub open spec fn wf(self) -> bool {
        &&& 1 <= self.pool <= 6
        &&& 0 <= self.score
        &&& self.score == sum_scores(self.turns@)
        &&& forall|i: int| 0 <= i < self.turns@.len() ==> #[trigger] self.turns@[i] > 0
    }

    /// A fresh round: nothing accumulated, a full pool of six dice.
    pub fn new() -> (s: Self)
        ensures
            s.wf(),
            s.score == 0,
            s.pool == 6,
            s.turns@ == Seq::<int>::empty(),
    {
        RoundState { score: 0, pool: TOTAL_DICE, turns: Ghost(Seq::empty()) }
    }

    /// Bank the round: the payout is exactly the accumulated sum of the
    /// completed turns' scores.
    pub fn bank(self) -> (payout: i32)
        requires
            self.wf(),
        ensures
            payout == self.score,
            payout == sum_scores(self.turns@),
    {
        self.score
    }
}

/// What one completed turn makes of the round: a bust forfeits everything,
/// otherwise the round goes on with the turn's score added.
pub enum RoundStep {
    /// The round is over; the payout forfeits all accumulated score.
    Busted(i32),
    /// The round continues in the given state.
    Continue(RoundState),
}

/// Advance a round by one completed turn.
///
/// A turn that kept no dice or scored nothing busts the round, and the
/// payout is zero regardless of the prior accumulated turn scores. Any
/// other turn adds its score and shrinks the pool; keeping the whole pool
/// grants hot dice, a fresh pool of six.
pub fn round_step(state: RoundState, turn_score: i16, num_kept: usize) -> (step: RoundStep)
    requires
        state.wf(),
        0 <= turn_score,
        state.score + turn_score <= i32::MAX,
    ensures
        busts(turn_score, num_kept) <==> step matches RoundStep::Busted(0),
        busts(turn_score, num_kept) ==> (step matches RoundStep::Busted(payout) && payout == 0),
        !busts(turn_score, num_kept) ==> (step matches RoundStep::Continue(next)
            && next.wf()
            && next.score == state.score + turn_score
            && next.pool == next_pool_spec(state.pool as int, num_kept as int)
            && next.turns@ == state.turns@.push(turn_score as int)),
{
    if num_kept == 0 || turn_score == 0 {
        return RoundStep::Busted(0);
    }
    let pool = if num_kept >= state.pool as usize {
        TOTAL_DICE
    } else {
        state.pool - num_kept as i8
    };
    let next = RoundState {
        score: state.score + turn_score as i32,
        pool,
        turns: Ghost(state.turns@.push(turn_score as int)),
    };
    proof {
        assert(state.turns@.push(turn_score as int).drop_last() =~= state.turns@);
    }
    RoundStep::Continue(next)
}

/// Hot dice: a scoring turn that keeps the whole pool earns a fresh pool
/// of all six dice for the next roll.
pub proof fn lemma_hot_dice(pool: int, num_kept: int)
    requires
        num_kept >= pool,
    ensures
        next_pool_spec(pool, num_kept) == 6,
{
}

/// Relies on `rand::Rng::gen_range` over `1..=6`: the sampled value lies
/// in that inclusive, non-empty range.
#[verifier::external_body]
fn roll_die() -> (die: i16)
    ensures
        valid_die(die),
{
    rand::thread_rng().gen_range(1..=6)
}

/// Roll a pool of dice: each die drawn from 1..=6 by the random source.
pub fn roll_dice(num: i8) -> (dice: Vec<i16>)
    requires
        0 <= num <= 6,
    ensures
        dice@.len() == num as int,
        valid_dice(dice@),
{
    let mut dice: Vec<i16> = Vec::new();
    let mut i: i8 = 0;
    while i < num
        invariant
            0 <= i <= num <= 6,
            dice@.len() == i as int,
            valid_dice(dice@),
        decreases num - i,
    {
        let die = roll_die();
        dice.push(die);
        i = i + 1;
    }
    dice
}

} // verus!
