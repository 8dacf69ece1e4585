//! The combination classifier: which named scoring pattern a dice set shows.
//!
//! Each detector is a pure predicate over a dice set, specified through the
//! face multiplicities of `crate::dice::count_val`. The score calculator
//! applies them in a fixed precedence order; see `crate::score`.

use crate::counting::count_dice;
use crate::dice::all_valid_values;
use crate::dice::count_val;
use crate::dice::valid_dice;
use crate::dice::valid_die;
use vstd::prelude::*;

verus! {

/// How many faces among 1..=`hi` have multiplicity exactly `c` in `s`.
pub open spec fn faces_with_count_exactly(s: Seq<i16>, hi: int, c: nat) -> int
    decreases hi,
{
    if hi <= 0 {
        0
    } else {
        faces_with_count_exactly(s, hi - 1, c) + if count_val(s, hi as i16) == c {
            1int
        } else {
            0int
        }
    }
}

/// How many faces among 1..=`hi` have multiplicity at least `c` in `s`.
pub open spec fn faces_with_count_at_least(s: Seq<i16>, hi: int, c: nat) -> int
    decreases hi,
{
    if hi <= 0 {
        0
    } else {
        faces_with_count_at_least(s, hi - 1, c) + if count_val(s, hi as i16) >= c {
            1int
        } else {
            0int
        }
    }
}

/// Exactly two distinct faces have multiplicity three or more.
pub open spec fn two_triplets_spec(s: Seq<i16>) -> bool {
    faces_with_count_at_least(s, 6, 3) == 2
}

/// Exactly three distinct faces have multiplicity exactly two.
pub open spec fn three_pair_spec(s: Seq<i16>) -> bool {
    faces_with_count_exactly(s, 6, 2) == 3
}

/// Every face from 1 to 6 occurs at least once.
pub open spec fn straight_spec(s: Seq<i16>) -> bool {
    forall|v: i16| valid_die(v) ==> #[trigger] s.contains(v)
}

/// Some face that occurs in `s` has multiplicity at least `n`.
pub open spec fn of_a_kind_spec(s: Seq<i16>, n: int) -> bool {
    exists|v: i16| valid_die(v) && 0 < #[trigger] count_val(s, v) && count_val(s, v) >= n
}

/// The sub-sequence of `s`, in its order, holding the dice whose face has
/// multiplicity in `full` below three (`small` true) or three and above
/// (`small` false).
pub open spec fn count_filtered(full: Seq<i16>, s: Seq<i16>, small: bool) -> Seq<i16>
    decreases s.len(),
{
    if s.len() == 0 {
        Seq::empty()
    } else {
        count_filtered(full, s.drop_last(), small) + if (count_val(full, s.last()) < 3)
            == small {
            seq![s.last()]
        } else {
            Seq::empty()
        }
    }
}

/// What `strip_repeats` returns: the sub-sequence of the dice outside any
/// three-or-more group, in their order.
pub open spec fn strip_spec(s: Seq<i16>) -> Seq<i16> {
    count_filtered(s, s, true)
}

/// What `keep_repeats` returns: the sub-sequence of the dice inside a
/// three-or-more group, in their order.
pub open spec fn keep_spec(s: Seq<i16>) -> Seq<i16> {
    count_filtered(s, s, false)
}

/// A face's multiplicity in a filtered sub-sequence: unchanged for the
/// faces the filter selects, zero for all others.
pub proof fn lemma_count_filtered_counts(full: Seq<i16>, s: Seq<i16>, small: bool, v: i16)
    ensures
        count_val(count_filtered(full, s, small), v) == if (count_val(full, v) < 3) == small {
            count_val(s, v)
        } else {
            0nat
        },
    decreases s.len(),
{
    if s.len() > 0 {
        lemma_count_filtered_counts(full, s.drop_last(), small, v);
        let x = s.last();
        let chunk = if (count_val(full, x) < 3) == small {
            seq![x]
        } else {
            Seq::<i16>::empty()
        };
        crate::dice::lemma_count_val_concat(count_filtered(full, s.drop_last(), small), chunk, v);
        crate::dice::lemma_count_val_singleton(x, v);
    }
}

/// A filtered sub-sequence of a dice set is no larger, and its dice show
/// the faces the set showed.
pub proof fn lemma_count_filtered_valid(full: Seq<i16>, s: Seq<i16>, small: bool)
    requires
        all_valid_values(s),
    ensures
        count_filtered(full, s, small).len() <= s.len(),
        all_valid_values(count_filtered(full, s, small)),
    decreases s.len(),
{
    if s.len() > 0 {
        assert(all_valid_values(s.drop_last())) by {
            assert forall|k: int| 0 <= k < s.drop_last().len() implies valid_die(
                #[trigger] s.drop_last()[k],
            ) by {
                assert(s.drop_last()[k] == s[k]);
            }
        }
        lemma_count_filtered_valid(full, s.drop_last(), small);
        let pre = count_filtered(full, s.drop_last(), small);
        let f = count_filtered(full, s, small);
        assert forall|i: int| 0 <= i < f.len() implies valid_die(#[trigger] f[i]) by {
            if i < pre.len() {
                assert(f[i] == pre[i]);
            } else {
                assert(f[i] == s.last());
                assert(valid_die(s[s.len() - 1]));
            }
        }
    }
}

/// A filter that selects every die hands the sequence back unchanged.
pub proof fn lemma_count_filtered_identity(full: Seq<i16>, s: Seq<i16>)
    requires
        forall|v: i16| count_val(full, v) < 3,
    ensures
        count_filtered(full, s, true) == s,
    decreases s.len(),
{
    if s.len() > 0 {
        lemma_count_filtered_identity(full, s.drop_last());
        assert(count_val(full, s.last()) < 3);
        assert(count_filtered(full, s, true) =~= s);
    }
}

/// Returns true if the dice contain three pairs: exactly three distinct
/// faces, each appearing exactly twice.
pub fn is_three_pair(dice: &Vec<i16>) -> (r: bool)
    requires
        valid_dice(dice@),
    ensures
        r == three_pair_spec(dice@),
{
    let m = count_dice(dice);
    let mut pairs: i16 = 0;
    let mut v: i16 = 1;
    while v <= 6
        invariant
            m.wf(),
            1 <= v <= 7,
            forall|w: int| 1 <= w <= 6 ==> m.spec_count(w) == count_val(dice@, w as i16),
            0 <= pairs <= v - 1,
            pairs == faces_with_count_exactly(dice@, v - 1, 2),
        decreases 7 - v,
    {
        if m.count(v) == 2 {
            pairs = pairs + 1;
        }
        v = v + 1;
    }
    pairs == 3
}

/// Returns true if the dice contain a straight: every face from 1 to 6.
pub fn is_straight(dice: &[i16]) -> (r: bool)
    requires
        valid_dice(dice@),
    ensures
        r == straight_spec(dice@),
{
    let mut v: i16 = 1;
    while v <= 6
        invariant
            1 <= v <= 7,
            forall|w: i16| 1 <= w < v ==> dice@.contains(w),
        decreases 7 - v,
    {
        if !slice_contains(dice, v) {
            proof {
                assert(valid_die(v) && !dice@.contains(v));
            }
            return false;
        }
        v = v + 1;
    }
    proof {
        assert forall|w: i16| valid_die(w) implies #[trigger] dice@.contains(w) by {
            assert(1 <= w < v);
        }
    }
    true
}

/// Returns true if some face appears at least `num` times among the dice.
pub fn is_of_a_kind(num: i16, dice: &Vec<i16>) -> (r: bool)
    requires
        valid_dice(dice@),
    ensures
        r == of_a_kind_spec(dice@, num as int),
{
    let m = count_dice(dice);
    let mut found = false;
    let mut v: i16 = 1;
    while v <= 6
        invariant
            m.wf(),
            1 <= v <= 7,
            forall|w: int| 1 <= w <= 6 ==> m.spec_count(w) == count_val(dice@, w as i16),
            found == exists|w: i16|
                1 <= w < v && 0 < count_val(dice@, w) && count_val(dice@, w) >= num,
        decreases 7 - v,
    {
        let c = m.count(v);
        if c > 0 && c >= num {
            found = true;
            assert(0 < count_val(dice@, v) && count_val(dice@, v) >= num);
        }
        v = v + 1;
    }
    proof {
        if found {
            let w = choose|w: i16|
                1 <= w < v && 0 < #[trigger] count_val(dice@, w) && count_val(dice@, w) >= num;
            assert(valid_die(w) && 0 < count_val(dice@, w) && count_val(dice@, w) >= num);
        } else if of_a_kind_spec(dice@, num as int) {
            let w = choose|w: i16|
                valid_die(w) && 0 < #[trigger] count_val(dice@, w) && count_val(dice@, w)
                    >= num as int;
            assert(1 <= w < v && 0 < count_val(dice@, w) && count_val(dice@, w) >= num);
        }
    }
    found
}

/// Returns true if the dice contain two triplets: exactly two distinct
/// faces, each appearing three or more times.
pub fn is_two_triplets(dice: &Vec<i16>) -> (r: bool)
    requires
        valid_dice(dice@),
    ensures
        r == two_triplets_spec(dice@),
{
    let m = count_dice(dice);
    let mut triplets: i16 = 0;
    let mut v: i16 = 1;
    while v <= 6
        invariant
            m.wf(),
            1 <= v <= 7,
            forall|w: int| 1 <= w <= 6 ==> m.spec_count(w) == count_val(dice@, w as i16),
            0 <= triplets <= v - 1,
            triplets == faces_with_count_at_least(dice@, v - 1, 3),
        decreases 7 - v,
    {
        if m.count(v) >= 3 {
            triplets = triplets + 1;
        }
        v = v + 1;
    }
    triplets == 2
}

/// Returns the sub-sequence of the dice whose face appears fewer than
/// three times: the singles and pairs, in their original order, with any
/// three-or-more group removed entirely.
pub fn strip_repeats(dice: &Vec<i16>) -> (r: Vec<i16>)
    requires
        valid_dice(dice@),
    ensures
        r@ == strip_spec(dice@),
        valid_dice(r@),
        r@.len() <= dice@.len(),
        forall|v: i16| count_val(r@, v) == if count_val(dice@, v) < 3 {
            count_val(dice@, v)
        } else {
            0nat
        },
{
    let r = count_filtered_dice(dice, true);
    proof {
        assert forall|v: i16|
            count_val(r@, v) == (if count_val(dice@, v) < 3 {
                count_val(dice@, v)
            } else {
                0nat
            }) by {
            lemma_count_filtered_counts(dice@, dice@, true, v);
        }
    }
    r
}

/// Returns the sub-sequence of the dice whose face appears three or more
/// times, in their original order: the groups that `strip_repeats`
/// removes.
pub fn keep_repeats(dice: &Vec<i16>) -> (r: Vec<i16>)
    requires
        valid_dice(dice@),
    ensures
        r@ == keep_spec(dice@),
        valid_dice(r@),
        r@.len() <= dice@.len(),
        forall|v: i16| count_val(r@, v) == if count_val(dice@, v) >= 3 {
            count_val(dice@, v)
        } else {
            0nat
        },
        of_a_kind_spec(dice@, 3) ==> r@.len() >= 3,
        r@.len() > 0 ==> count_val(dice@, r@[0]) >= 3,
{
    let r = count_filtered_dice(dice, false);
    proof {
        assert forall|v: i16|
            count_val(r@, v) == (if count_val(dice@, v) >= 3 {
                count_val(dice@, v)
            } else {
                0nat
            }) by {
            lemma_count_filtered_counts(dice@, dice@, false, v);
        }
        if of_a_kind_spec(dice@, 3) {
            let w = choose|w: i16|
                valid_die(w) && 0 < count_val(dice@, w) && count_val(dice@, w) >= 3;
            assert(count_val(r@, w) >= 3);
            crate::dice::lemma_count_val_le_len(r@, w);
        }
        if r@.len() > 0 {
            let v0 = r@[0];
            assert(r@.contains(v0));
            crate::dice::lemma_count_val_contains(r@, v0);
        }
    }
    r
}

/// Walk the dice in order, keeping each die whose multiplicity falls on
/// the asked side of three.
fn count_filtered_dice(dice: &Vec<i16>, small: bool) -> (r: Vec<i16>)
    requires
        valid_dice(dice@),
    ensures
        r@ == count_filtered(dice@, dice@, small),
        valid_dice(r@),
        r@.len() <= dice@.len(),
{
    let m = count_dice(dice);
    let mut r: Vec<i16> = Vec::new();
    let mut i: usize = 0;
    while i < dice.len()
        invariant
            m.wf(),
            valid_dice(dice@),
            forall|w: int| 1 <= w <= 6 ==> m.spec_count(w) == count_val(dice@, w as i16),
            i <= dice@.len(),
            r@ == count_filtered(dice@, dice@.subrange(0, i as int), small),
            r@.len() <= i,
        decreases dice@.len() - i,
    {
        let die = dice[i];
        assert(valid_die(dice@[i as int])) by {
            assert(all_valid_values(dice@));
        }
        let c = m.count(die);
        proof {
            let pre = dice@.subrange(0, i as int);
            let next = dice@.subrange(0, i as int + 1);
            assert(next.drop_last() =~= pre);
            assert(next.last() == dice@[i as int]);
            if (count_val(dice@, die) < 3) == small {
                assert(count_filtered(dice@, next, small) =~= count_filtered(
                    dice@,
                    pre,
                    small,
                ).push(die));
            } else {
                assert(count_filtered(dice@, next, small) =~= count_filtered(dice@, pre, small));
            }
        }
        if (c < 3) == small {
            r.push(die);
        }
        i = i + 1;
    }
    proof {
        assert(dice@.subrange(0, dice@.len() as int) =~= dice@);
        lemma_count_filtered_valid(dice@, dice@, small);
    }
    r
}

/// Whether the slice holds the value `v`.
fn slice_contains(dice: &[i16], v: i16) -> (r: bool)
    ensures
        r == dice@.contains(v),
{
    let mut i: usize = 0;
    while i < dice.len()
        invariant
            i <= dice@.len(),
            forall|k: int| 0 <= k < i ==> dice@[k] != v,
        decreases dice@.len() - i,
    {
        if dice[i] == v {
            return true;
        }
        i = i + 1;
    }
    false
}

/// No face count survives stripping at three or above: re-classifying the
/// output of `strip_repeats` never yields a three-or-more-group verdict.
pub proof fn lemma_strip_repeats_no_groups(s: Seq<i16>)
    ensures
        forall|v: i16| count_val(strip_spec(s), v) < 3,
        !of_a_kind_spec(strip_spec(s), 3),
        !two_triplets_spec(strip_spec(s)),
        strip_spec(strip_spec(s)) == strip_spec(s),
{
    assert forall|v: i16| count_val(strip_spec(s), v) < 3 by {
        lemma_count_filtered_counts(s, s, true, v);
    }
    lemma_faces_at_least_none(strip_spec(s), 6, 3);
    lemma_count_filtered_identity(strip_spec(s), strip_spec(s));
}

/// With every multiplicity below `c`, no face counts toward `c`-groups.
pub proof fn lemma_faces_at_least_none(s: Seq<i16>, hi: int, c: nat)
    requires
        forall|v: i16| count_val(s, v) < c,
    ensures
        faces_with_count_at_least(s, hi, c) == 0,
    decreases hi,
{
    if hi > 0 {
        lemma_faces_at_least_none(s, hi - 1, c);
        assert(count_val(s, hi as i16) < c);
    }
}

/// A face with multiplicity at least `c` makes the `c`-group tally positive.
pub proof fn lemma_faces_at_least_witness(s: Seq<i16>, hi: int, c: nat, v: i16)
    requires
        1 <= v <= hi,
        count_val(s, v) >= c,
    ensures
        faces_with_count_at_least(s, hi, c) >= 1,
    decreases hi,
{
    lemma_faces_at_least_nonneg(s, hi - 1, c);
    if v < hi {
        lemma_faces_at_least_witness(s, hi - 1, c, v);
    } else {
        assert(count_val(s, hi as i16) >= c);
    }
}

/// Two distinct faces with multiplicity at least `c` make the tally two.
pub proof fn lemma_faces_at_least_pair(s: Seq<i16>, hi: int, c: nat, v: i16, w: i16)
    requires
        1 <= v <= hi,
        1 <= w <= hi,
        v != w,
        count_val(s, v) >= c,
        count_val(s, w) >= c,
    ensures
        faces_with_count_at_least(s, hi, c) >= 2,
    decreases hi,
{
    if v < hi && w < hi {
        lemma_faces_at_least_pair(s, hi - 1, c, v, w);
    } else {
        let lo = if v < w {
            v
        } else {
            w
        };
        lemma_faces_at_least_witness(s, hi - 1, c, lo);
    }
}

/// The `c`-group tally is never negative.
pub proof fn lemma_faces_at_least_nonneg(s: Seq<i16>, hi: int, c: nat)
    ensures
        faces_with_count_at_least(s, hi, c) >= 0,
    decreases hi,
{
    if hi > 0 {
        lemma_faces_at_least_nonneg(s, hi - 1, c);
    }
}

/// The tally of faces with one exact multiplicity reads nothing but the
/// multiplicities.
proof fn lemma_faces_exactly_congruent(s1: Seq<i16>, s2: Seq<i16>, hi: int, c: nat)
    requires
        forall|v: i16| count_val(s1, v) == count_val(s2, v),
    ensures
        faces_with_count_exactly(s1, hi, c) == faces_with_count_exactly(s2, hi, c),
    decreases hi,
{
    if hi > 0 {
        lemma_faces_exactly_congruent(s1, s2, hi - 1, c);
        assert(count_val(s1, hi as i16) == count_val(s2, hi as i16));
    }
}

/// The tally of faces at or above one multiplicity reads nothing but the
/// multiplicities.
proof fn lemma_faces_at_least_congruent(s1: Seq<i16>, s2: Seq<i16>, hi: int, c: nat)
    requires
        forall|v: i16| count_val(s1, v) == count_val(s2, v),
    ensures
        faces_with_count_at_least(s1, hi, c) == faces_with_count_at_least(s2, hi, c),
    decreases hi,
{
    if hi > 0 {
        lemma_faces_at_least_congruent(s1, s2, hi - 1, c);
        assert(count_val(s1, hi as i16) == count_val(s2, hi as i16));
    }
}

/// Classification is order-blind: two dice sets with the same face
/// multiplicities get the same verdict from every detector.
pub proof fn lemma_classify_congruence(s1: Seq<i16>, s2: Seq<i16>)
    requires
        forall|v: i16| count_val(s1, v) == count_val(s2, v),
    ensures
        two_triplets_spec(s1) == two_triplets_spec(s2),
        three_pair_spec(s1) == three_pair_spec(s2),
        straight_spec(s1) == straight_spec(s2),
        forall|n: int| of_a_kind_spec(s1, n) == of_a_kind_spec(s2, n),
{
    lemma_faces_exactly_congruent(s1, s2, 6, 2);
    lemma_faces_at_least_congruent(s1, s2, 6, 3);
    if straight_spec(s1) {
        assert forall|v: i16| valid_die(v) implies #[trigger] s2.contains(v) by {
            crate::dice::lemma_count_val_contains(s1, v);
            crate::dice::lemma_count_val_contains(s2, v);
            assert(s1.contains(v));
        }
    }
    if straight_spec(s2) {
        assert forall|v: i16| valid_die(v) implies #[trigger] s1.contains(v) by {
            crate::dice::lemma_count_val_contains(s1, v);
            crate::dice::lemma_count_val_contains(s2, v);
            assert(s2.contains(v));
        }
    }
    assert forall|n: int| of_a_kind_spec(s1, n) == of_a_kind_spec(s2, n) by {
        if of_a_kind_spec(s1, n) {
            let v = choose|v: i16|
                valid_die(v) && 0 < #[trigger] count_val(s1, v) && count_val(s1, v) >= n;
            assert(valid_die(v) && 0 < count_val(s2, v) && count_val(s2, v) >= n);
        }
        if of_a_kind_spec(s2, n) {
            let v = choose|v: i16|
                valid_die(v) && 0 < #[trigger] count_val(s2, v) && count_val(s2, v) >= n;
            assert(valid_die(v) && 0 < count_val(s1, v) && count_val(s1, v) >= n);
        }
    }
}

/// Three-or-more groups tie down dice: each counted face stands for at
/// least three of them, so the tally is bounded by the pool.
pub proof fn lemma_triples_bounded_by_len(s: Seq<i16>, hi: int)
    requires
        0 <= hi <= 6,
    ensures
        3 * faces_with_count_at_least(s, hi, 3) <= crate::dice::sum_counts(s, hi),
    decreases hi,
{
    if hi > 0 {
        lemma_triples_bounded_by_len(s, hi - 1);
    }
}

} // verus!
