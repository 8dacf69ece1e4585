//! The score calculator: points for a kept dice set, by a fixed precedence.
//!
//! Combinations are tried from two triplets down to three of a kind; the
//! patterns that consume all six dice return at once, while a single
//! three-or-more group also scores the leftover single 1s and 5s.

use crate::classify::is_of_a_kind;
use crate::classify::is_straight;
use crate::classify::is_three_pair;
use crate::classify::is_two_triplets;
use crate::classify::keep_repeats;
use crate::classify::of_a_kind_spec;
use crate::classify::straight_spec;
use crate::classify::strip_repeats;
use crate::classify::strip_spec;
use crate::classify::three_pair_spec;
use crate::classify::two_triplets_spec;
use crate::dice::count_val;
use crate::dice::valid_dice;
use crate::dice::valid_die;
use vstd::prelude::*;

verus! {

/// The error a scoring entry point reports when handed an out-of-domain
/// dice set: more than six dice, or a value outside 1..=6.
#[derive(Clone, Copy, Debug, PartialEq, Eq, Structural)]
pub enum FarkleError {
    InvalidInput,
}

/// Points a single leftover die is worth: 100 for a 1, 50 for a 5.
pub open spec fn single_die_points(v: i16) -> int {
    if v == 1 {
        100
    } else if v == 5 {
        50
    } else {
        0
    }
}

/// The leftover points of the dice in `s`, summed die by die.
pub open spec fn dice_points(s: Seq<i16>) -> int
    decreases s.len(),
{
    if s.len() == 0 {
        0
    } else {
        dice_points(s.drop_last()) + single_die_points(s.last())
    }
}

/// Leftover scoring: the single 1s and 5s outside any three-or-more group.
pub open spec fn leftover_points(s: Seq<i16>) -> int {
    dice_points(strip_spec(s))
}

/// Points for one three-of-a-kind group of the face `v`: 1000 for ones,
/// a hundredfold the face otherwise.
pub open spec fn triple_face_points(v: int) -> int {
    if v == 1 {
        1000
    } else {
        100 * v
    }
}

/// The triple points of every face 1..=`hi` with multiplicity three or
/// more. Under the precedence order at most one face qualifies, so this is
/// the score of the single group.
pub open spec fn triple_points_upto(s: Seq<i16>, hi: int) -> int
    decreases hi,
{
    if hi <= 0 {
        0
    } else {
        triple_points_upto(s, hi - 1) + if count_val(s, hi as i16) >= 3 {
            triple_face_points(hi)
        } else {
            0int
        }
    }
}

/// The score of a kept dice set, by the precedence order: two triplets,
/// three pairs, straight, then six, five, four and three of a kind with
/// leftover 1s and 5s, then leftovers alone. Zero means a Farkle.
pub open spec fn score_spec(s: Seq<i16>) -> int {
    if two_triplets_spec(s) {
        2500
    } else if three_pair_spec(s) {
        1500
    } else if straight_spec(s) {
        1500
    } else if of_a_kind_spec(s, 6) {
        5000
    } else if of_a_kind_spec(s, 5) {
        3000 + leftover_points(s)
    } else if of_a_kind_spec(s, 4) {
        2000 + leftover_points(s)
    } else if of_a_kind_spec(s, 3) {
        triple_points_upto(s, 6) + leftover_points(s)
    } else {
        leftover_points(s)
    }
}

/// Die-by-die points stay between zero and 100 per die.
pub proof fn lemma_dice_points_bounds(s: Seq<i16>)
    ensures
        0 <= dice_points(s) <= 100 * s.len(),
    decreases s.len(),
{
    if s.len() > 0 {
        lemma_dice_points_bounds(s.drop_last());
    }
}

/// Appending a die adds exactly its own points.
pub proof fn lemma_dice_points_push(s: Seq<i16>, x: i16)
    ensures
        dice_points(s.push(x)) == dice_points(s) + single_die_points(x),
{
    assert(s.push(x).drop_last() =~= s);
}

/// Triple points are never negative.
pub proof fn lemma_triple_points_nonneg(s: Seq<i16>, hi: int)
    ensures
        0 <= triple_points_upto(s, hi),
    decreases hi,
{
    if hi > 0 {
        lemma_triple_points_nonneg(s, hi - 1);
    }
}

/// When the face `v0` holds the only three-or-more group, the triple
/// points are exactly that group's points.
pub proof fn lemma_triple_points_single(s: Seq<i16>, hi: int, v0: i16)
    requires
        hi <= 6,
        1 <= v0 <= 6,
        count_val(s, v0) >= 3,
        forall|w: i16| 1 <= w <= 6 && w != v0 ==> count_val(s, w) < 3,
    ensures
        triple_points_upto(s, hi) == if v0 <= hi {
            triple_face_points(v0 as int)
        } else {
            0int
        },
    decreases hi,
{
    if hi > 0 {
        lemma_triple_points_single(s, hi - 1, v0);
        if hi != v0 {
            assert(count_val(s, hi as i16) < 3);
        }
    }
}

/// A score is never negative, whatever the dice.
pub proof fn lemma_score_nonneg(s: Seq<i16>)
    ensures
        score_spec(s) >= 0,
{
    lemma_dice_points_bounds(strip_spec(s));
    lemma_triple_points_nonneg(s, 6);
}

/// Under the precedence order, a three-of-a-kind verdict on at most six
/// dice singles out one face: no second face reaches multiplicity three.
pub proof fn lemma_unique_triple_face(s: Seq<i16>, v0: i16)
    requires
        valid_dice(s),
        !two_triplets_spec(s),
        1 <= v0 <= 6,
        count_val(s, v0) >= 3,
    ensures
        forall|w: i16| 1 <= w <= 6 && w != v0 ==> count_val(s, w) < 3,
{
    crate::dice::lemma_sum_counts_len(s);
    crate::classify::lemma_triples_bounded_by_len(s, 6);
    crate::classify::lemma_faces_at_least_witness(s, 6, 3, v0);
    assert forall|w: i16| 1 <= w <= 6 && w != v0 implies count_val(s, w) < 3 by {
        if count_val(s, w) >= 3 {
            crate::classify::lemma_faces_at_least_pair(s, 6, 3, v0, w);
        }
    }
}

/// Die-by-die points come to 100 per 1 and 50 per 5, whatever the order.
pub proof fn lemma_dice_points_value(s: Seq<i16>)
    ensures
        dice_points(s) == 100 * count_val(s, 1) + 50 * count_val(s, 5),
    decreases s.len(),
{
    if s.len() > 0 {
        lemma_dice_points_value(s.drop_last());
    }
}

/// Triple points read nothing but the face multiplicities.
proof fn lemma_triple_points_congruent(s1: Seq<i16>, s2: Seq<i16>, hi: int)
    requires
        forall|v: i16| count_val(s1, v) == count_val(s2, v),
    ensures
        triple_points_upto(s1, hi) == triple_points_upto(s2, hi),
    decreases hi,
{
    if hi > 0 {
        lemma_triple_points_congruent(s1, s2, hi - 1);
        assert(count_val(s1, hi as i16) == count_val(s2, hi as i16));
    }
}

/// Scoring is order-blind: two dice sets holding the same dice as a
/// multiset — any permutation of one another, in particular — have the
/// same face multiplicities, classify alike, and score alike.
pub proof fn lemma_score_permutation_invariant(s1: Seq<i16>, s2: Seq<i16>)
    requires
        s1.to_multiset() == s2.to_multiset(),
    ensures
        forall|v: i16| count_val(s1, v) == count_val(s2, v),
        two_triplets_spec(s1) == two_triplets_spec(s2),
        three_pair_spec(s1) == three_pair_spec(s2),
        straight_spec(s1) == straight_spec(s2),
        forall|n: int| of_a_kind_spec(s1, n) == of_a_kind_spec(s2, n),
        score_spec(s1) == score_spec(s2),
{
    assert forall|v: i16| #[trigger] count_val(s1, v) == count_val(s2, v) by {
        crate::dice::lemma_count_val_is_multiset_count(s1, v);
        crate::dice::lemma_count_val_is_multiset_count(s2, v);
    }
    crate::classify::lemma_classify_congruence(s1, s2);
    lemma_triple_points_congruent(s1, s2, 6);
    crate::classify::lemma_count_filtered_counts(s1, s1, true, 1);
    crate::classify::lemma_count_filtered_counts(s1, s1, true, 5);
    crate::classify::lemma_count_filtered_counts(s2, s2, true, 1);
    crate::classify::lemma_count_filtered_counts(s2, s2, true, 5);
    lemma_dice_points_value(strip_spec(s1));
    lemma_dice_points_value(strip_spec(s2));
}

/// Returns the score for a given set of kept dice.
///
/// The result is a pure function of the dice: the same set always scores
/// the same, and never negatively. A result of zero is a Farkle, a roll
/// with no scoring dice.
pub fn get_score(dice: &Vec<i16>) -> (score: i16)
    requires
        valid_dice(dice@),
    ensures
        score == score_spec(dice@),
        0 <= score,
{
    let ghost s = dice@;
    let mut score: i16 = 0;
    if is_two_triplets(dice) {
        return 2500;
    } else if is_three_pair(dice) {
        return 1500;
    } else if is_straight(dice.as_slice()) {
        return 1500;
    } else if is_of_a_kind(6, dice) {
        return 5000;
    } else if is_of_a_kind(5, dice) {
        score = score + 3000;
    } else if is_of_a_kind(4, dice) {
        score = score + 2000;
    } else if is_of_a_kind(3, dice) {
        let grouped = keep_repeats(dice);
        let v0 = grouped[0];
        proof {
            assert(valid_die(v0)) by {
                assert(crate::dice::all_valid_values(grouped@));
            }
            lemma_unique_triple_face(s, v0);
            lemma_triple_points_single(s, 6, v0);
            lemma_triple_points_nonneg(s, 6);
        }
        if v0 == 1 {
            score = score + 1000;
        } else {
            score = score + v0 * 100;
        }
        assert(score == triple_points_upto(s, 6));
    }
    let leftovers = strip_repeats(dice);
    proof {
        lemma_dice_points_bounds(leftovers@);
    }
    let ghost base = score as int;
    let mut i: usize = 0;
    while i < leftovers.len()
        invariant
            i <= leftovers@.len(),
            leftovers@.len() <= 6,
            0 <= base <= 3000,
            score == base + dice_points(leftovers@.subrange(0, i as int)),
            0 <= dice_points(leftovers@.subrange(0, i as int)) <= 100 * i,
        decreases leftovers@.len() - i,
    {
        let die = leftovers[i];
        proof {
            let pre = leftovers@.subrange(0, i as int);
            assert(leftovers@.subrange(0, i as int + 1) =~= pre.push(leftovers@[i as int]));
            lemma_dice_points_push(pre, leftovers@[i as int]);
        }
        if die == 1 {
            score = score + 100;
        } else if die == 5 {
            score = score + 50;
        }
        i = i + 1;
    }
    proof {
        assert(leftovers@.subrange(0, leftovers@.len() as int) =~= leftovers@);
    }
    score
}

/// Returns the score for a given set of dice, after checking the domain:
/// an oversized set or an out-of-range value is rejected as invalid input
/// rather than scored wrongly.
pub fn try_get_score(dice: &Vec<i16>) -> (r: Result<i16, FarkleError>)
    ensures
        valid_dice(dice@) ==> (r matches Ok(score) && score == score_spec(dice@) && 0 <= score),
        !valid_dice(dice@) ==> (r matches Err(e) && e == FarkleError::InvalidInput),
{
    if dice.len() > 6 {
        return Err(FarkleError::InvalidInput);
    }
    let mut i: usize = 0;
    while i < dice.len()
        invariant
            i <= dice@.len(),
            forall|k: int| 0 <= k < i ==> valid_die(#[trigger] dice@[k]),
        decreases dice@.len() - i,
    {
        let die = dice[i];
        if die < 1 || die > 6 {
            return Err(FarkleError::InvalidInput);
        }
        i = i + 1;
    }
    Ok(get_score(dice))
}

} // verus!
