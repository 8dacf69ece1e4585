//! The dice model: die values, dice sets, and value multiplicities.
//!
//! A die shows a face from 1 to 6, and a dice set holds at most six dice
//! (the standing pool size). Every combination and score in this crate is
//! defined in terms of `count_val`, the multiplicity of a face in a set.

use vstd::multiset::Multiset;
use vstd::prelude::*;

verus! {

/// The number of dice in a full pool.
pub const TOTAL_DICE: i8 = 6;

/// A die shows a face from 1 to 6.
pub open spec fn valid_die(v: i16) -> bool {
    1 <= v <= 6
}

/// Every die in the set shows a face from 1 to 6.
pub open spec fn all_valid_values(s: Seq<i16>) -> bool {
    forall|i: int| 0 <= i < s.len() ==> valid_die(#[trigger] s[i])
}

/// A dice set: at most six dice, each showing a face from 1 to 6.
pub open spec fn valid_dice(s: Seq<i16>) -> bool {
    s.len() <= 6 && all_valid_values(s)
}

/// How many dice in `s` show the face `v`.
pub open spec fn count_val(s: Seq<i16>, v: i16) -> nat
    decreases s.len(),
{
    if s.len() == 0 {
        0
    } else {
        count_val(s.drop_last(), v) + if s.last() == v {
            1nat
        } else {
            0nat
        }
    }
}

/// The total multiplicity of the faces 1 through `hi` in `s`.
pub open spec fn sum_counts(s: Seq<i16>, hi: int) -> int
    decreases hi,
{
    if hi <= 0 {
        0
    } else {
        sum_counts(s, hi - 1) + count_val(s, hi as i16)
    }
}

/// Appending a die raises exactly the count of its own face, by one.
pub proof fn lemma_count_val_push(s: Seq<i16>, x: i16, v: i16)
    ensures
        count_val(s.push(x), v) == count_val(s, v) + if x == v {
            1nat
        } else {
            0nat
        },
{
    assert(s.push(x).drop_last() =~= s);
}

/// A face's multiplicity never exceeds the size of the set.
pub proof fn lemma_count_val_le_len(s: Seq<i16>, v: i16)
    ensures
        count_val(s, v) <= s.len(),
    decreases s.len(),
{
    if s.len() > 0 {
        lemma_count_val_le_len(s.drop_last(), v);
    }
}

/// A face has positive multiplicity exactly when the set contains it.
pub proof fn lemma_count_val_contains(s: Seq<i16>, v: i16)
    ensures
        count_val(s, v) > 0 <==> s.contains(v),
    decreases s.len(),
{
    if s.len() > 0 {
        lemma_count_val_contains(s.drop_last(), v);
        if s.last() == v {
            assert(s[s.len() - 1] == v);
        } else if count_val(s.drop_last(), v) > 0 {
            let i = choose|i: int| 0 <= i < s.drop_last().len() && s.drop_last()[i] == v;
            assert(s[i] == v);
        } else if s.contains(v) {
            let i = choose|i: int| 0 <= i < s.len() && s[i] == v;
            assert(i < s.len() - 1 && s.drop_last()[i] == v);
        }
    }
}

/// Multiplicities add up across concatenation.
pub proof fn lemma_count_val_concat(a: Seq<i16>, b: Seq<i16>, v: i16)
    ensures
        count_val(a + b, v) == count_val(a, v) + count_val(b, v),
    decreases b.len(),
{
    if b.len() == 0 {
        assert(a + b =~= a);
    } else {
        lemma_count_val_concat(a, b.drop_last(), v);
        assert((a + b).drop_last() =~= a + b.drop_last());
        assert((a + b).last() == b.last());
    }
}

/// A single die counts once for its own face and not at all for others.
pub proof fn lemma_count_val_singleton(x: i16, v: i16)
    ensures
        count_val(seq![x], v) == if x == v {
            1nat
        } else {
            0nat
        },
{
    let s = seq![x];
    assert(s.drop_last() =~= Seq::<i16>::empty());
    assert(count_val(Seq::<i16>::empty(), v) == 0);
    assert(s.len() == 1 && s.last() == x);
}

/// Appending a die in range raises the running total of counts by one.
pub proof fn lemma_sum_counts_push(s: Seq<i16>, x: i16, hi: int)
    requires
        hi <= 6,
    ensures
        sum_counts(s.push(x), hi) == sum_counts(s, hi) + if 1 <= x <= hi {
            1int
        } else {
            0int
        },
    decreases hi,
{
    if hi > 0 {
        lemma_sum_counts_push(s, x, hi - 1);
        lemma_count_val_push(s, x, hi as i16);
    }
}

/// The multiplicities of the six faces account for every die in the set.
pub proof fn lemma_sum_counts_len(s: Seq<i16>)
    requires
        all_valid_values(s),
    ensures
        sum_counts(s, 6) == s.len(),
    decreases s.len(),
{
    if s.len() == 0 {
        assert(sum_counts(s, 6) == 0) by {
            reveal_with_fuel(sum_counts, 7);
        }
    } else {
        let t = s.drop_last();
        assert(all_valid_values(t));
        lemma_sum_counts_len(t);
        assert(s =~= t.push(s.last()));
        lemma_sum_counts_push(t, s.last(), 6);
        assert(valid_die(s[s.len() - 1]));
    }
}

/// A set with pointwise smaller multiplicities has a smaller running total.
pub proof fn lemma_sum_counts_le(a: Seq<i16>, b: Seq<i16>, hi: int)
    requires
        hi <= 6,
        forall|v: i16| 1 <= v <= hi ==> count_val(a, v) <= count_val(b, v),
    ensures
        sum_counts(a, hi) <= sum_counts(b, hi),
    decreases hi,
{
    if hi > 0 {
        lemma_sum_counts_le(a, b, hi - 1);
        assert(count_val(a, hi as i16) <= count_val(b, hi as i16));
    }
}

/// `count_val` agrees with the multiset view of the sequence, so two
/// sequences with the same multiset have the same multiplicities.
pub proof fn lemma_count_val_is_multiset_count(s: Seq<i16>, v: i16)
    ensures
        count_val(s, v) == s.to_multiset().count(v),
    decreases s.len(),
{
    broadcast use vstd::seq_lib::group_to_multiset_ensures;

    if s.len() == 0 {
        assert(s.to_multiset() =~= Multiset::empty());
    } else {
        let t = s.drop_last();
        lemma_count_val_is_multiset_count(t, v);
        assert(s =~= t.push(s.last()));
        assert(t.push(s.last()).to_multiset() =~= t.to_multiset().insert(s.last()));
    }
}

} // verus!
