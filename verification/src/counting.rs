//! The dice counter: builds a face-to-multiplicity mapping from a dice set.

use crate::dice::all_valid_values;
use crate::dice::count_val;
use crate::dice::valid_dice;
use crate::dice::valid_die;
use vstd::prelude::*;

verus! {

/// The count map of a dice set: for each face 1..=6, how many dice show it.
///
/// Derived from a dice set by `count_dice`, never persisted. The sum of the
/// six multiplicities equals the length of the set it was derived from
/// (`crate::dice::lemma_sum_counts_len`).
pub struct DiceCounts {
    counts: Vec<i16>,
}

impl DiceCounts {
    /// The map holds one slot per face.
    pub closed spec fn wf(self) -> bool {
        self.counts@.len() == 6
    }

    /// The multiplicity recorded for the face `v`.
    pub closed spec fn spec_count(self, v: int) -> int {
        self.counts@[v - 1] as int
    }

    /// The multiplicity recorded for the face `v`.
    pub fn count(&self, v: i16) -> (c: i16)
        requires
            self.wf(),
            1 <= v <= 6,
        ensures
            c == self.spec_count(v as int),
    {
        self.counts[(v - 1) as usize]
    }
}

/// Count dice values: the multiplicity of each face in the given dice set.
pub fn count_dice(dice: &Vec<i16>) -> (m: DiceCounts)
    requires
        valid_dice(dice@),
    ensures
        m.wf(),
        forall|v: int| 1 <= v <= 6 ==> m.spec_count(v) == count_val(dice@, v as i16),
{
    let mut counts: Vec<i16> = Vec::new();
    let mut slot: usize = 0;
    while slot < 6
        invariant
            counts@.len() == slot,
            slot <= 6,
            forall|k: int| 0 <= k < slot ==> counts@[k] == 0,
        decreases 6 - slot,
    {
        counts.push(0);
        slot = slot + 1;
    }
    let ghost s = dice@;
    let mut i: usize = 0;
    while i < dice.len()
        invariant
            valid_dice(s),
            dice@ == s,
            i <= s.len(),
            counts@.len() == 6,
            forall|v: int| #![trigger counts@[v - 1]] 1 <= v <= 6 ==> counts@[v - 1] == count_val(
                s.subrange(0, i as int),
                v as i16,
            ),
        decreases dice.len() - i,
    {
        let die = dice[i];
        assert(valid_die(s[i as int])) by {
            assert(all_valid_values(s));
        }
        let idx = (die - 1) as usize;
        proof {
            crate::dice::lemma_count_val_le_len(s.subrange(0, i as int), die);
        }
        let c = counts[idx];
        counts.set(idx, c + 1);
        proof {
            let pre = s.subrange(0, i as int);
            assert(s.subrange(0, i as int + 1) =~= pre.push(s[i as int]));
            assert forall|v: int| #![trigger counts@[v - 1]] 1 <= v <= 6 implies counts@[v - 1]
                == count_val(
                s.subrange(0, i as int + 1),
                v as i16,
            ) by {
                crate::dice::lemma_count_val_push(pre, s[i as int], v as i16);
            }
        }
        i = i + 1;
    }
    proof {
        assert(s.subrange(0, s.len() as int) =~= s);
    }
    DiceCounts { counts }
}

} // verus!
