//! Selections and decisions handed in by the input collaborator.
//!
//! The console shell around the library reads lines; this module holds the
//! validated logic: turning a digit selection into a keep mask, filtering a
//! roll by that mask, and reading a banking answer. Quitting is only
//! reported; the shell decides how to terminate.

use crate::dice::valid_dice;
use vstd::prelude::*;

verus! {

/// What a keep-selection line means.
pub enum KeepCommand {
    /// A valid selection: one mask entry per die of the pool, true where
    /// the die at that position is kept.
    Selection(Vec<bool>),
    /// The player asked to quit.
    Quit,
    /// A malformed line: a repeated digit, or a character outside 1..=6.
    Invalid,
}

/// What a banking line means.
pub enum BankCommand {
    /// Whether the player banks the round's score.
    Bank(bool),
    /// The player asked to quit.
    Quit,
}

/// The digit character that names the 1-indexed position `p`.
pub open spec fn digit_char(p: int) -> char {
    if p == 1 {
        '1'
    } else if p == 2 {
        '2'
    } else if p == 3 {
        '3'
    } else if p == 4 {
        '4'
    } else if p == 5 {
        '5'
    } else {
        '6'
    }
}

/// A character that may appear in a keep selection.
pub open spec fn is_keep_digit(c: char) -> bool {
    c == '1' || c == '2' || c == '3' || c == '4' || c == '5' || c == '6'
}

/// Some character occurs twice in the line.
pub open spec fn has_duplicate(s: Seq<char>) -> bool {
    exists|i: int, j: int| 0 <= i < j < s.len() && s[i] == s[j]
}

/// The dice of `dice` at the positions `keep` marks, in order.
pub open spec fn masked_values(dice: Seq<i16>, keep: Seq<bool>) -> Seq<i16>
    decreases dice.len(),
{
    if dice.len() == 0 {
        Seq::empty()
    } else {
        masked_values(dice.drop_last(), keep.drop_last()) + if keep.last() {
            seq![dice.last()]
        } else {
            Seq::empty()
        }
    }
}

/// A masked selection is no larger than the roll, and its dice show the
/// faces the roll showed.
pub proof fn lemma_masked_values_valid(dice: Seq<i16>, keep: Seq<bool>)
    requires
        dice.len() == keep.len(),
        crate::dice::all_valid_values(dice),
    ensures
        masked_values(dice, keep).len() <= dice.len(),
        crate::dice::all_valid_values(masked_values(dice, keep)),
    decreases dice.len(),
{
    if dice.len() > 0 {
        assert(crate::dice::all_valid_values(dice.drop_last())) by {
            assert forall|k: int| 0 <= k < dice.drop_last().len() implies crate::dice::valid_die(
                #[trigger] dice.drop_last()[k],
            ) by {
                assert(dice.drop_last()[k] == dice[k]);
            }
        }
        lemma_masked_values_valid(dice.drop_last(), keep.drop_last());
        let pre = masked_values(dice.drop_last(), keep.drop_last());
        let m = masked_values(dice, keep);
        assert forall|i: int| 0 <= i < m.len() implies crate::dice::valid_die(#[trigger] m[i]) by {
            if i < pre.len() {
                assert(m[i] == pre[i]);
            } else {
                assert(m[i] == dice.last());
                assert(crate::dice::valid_die(dice[dice.len() - 1]));
            }
        }
    }
}

/// Returns the dice kept by a selection mask: the dice whose position the
/// mask marks true, in their rolled order.
pub fn keep_dice(dice: &Vec<i16>, keep: &Vec<bool>) -> (kept: Vec<i16>)
    requires
        keep@.len() == dice@.len(),
    ensures
        kept@ == masked_values(dice@, keep@),
        kept@.len() <= dice@.len(),
        valid_dice(dice@) ==> valid_dice(kept@),
{
    let mut kept: Vec<i16> = Vec::new();
    let mut i: usize = 0;
    while i < dice.len()
        invariant
            keep@.len() == dice@.len(),
            i <= dice@.len(),
            kept@ == masked_values(dice@.subrange(0, i as int), keep@.subrange(0, i as int)),
            kept@.len() <= i,
        decreases dice@.len() - i,
    {
        proof {
            let dpre = dice@.subrange(0, i as int);
            let kpre = keep@.subrange(0, i as int);
            let dnext = dice@.subrange(0, i as int + 1);
            let knext = keep@.subrange(0, i as int + 1);
            assert(dnext.drop_last() =~= dpre);
            assert(knext.drop_last() =~= kpre);
            if keep@[i as int] {
                assert(masked_values(dnext, knext) =~= masked_values(dpre, kpre).push(
                    dice@[i as int],
                ));
            } else {
                assert(masked_values(dnext, knext) =~= masked_values(dpre, kpre));
            }
        }
        if keep[i] {
            kept.push(dice[i]);
        }
        i = i + 1;
    }
    proof {
        assert(dice@.subrange(0, dice@.len() as int) =~= dice@);
        assert(keep@.subrange(0, keep@.len() as int) =~= keep@);
        if valid_dice(dice@) {
            lemma_masked_values_valid(dice@, keep@);
        }
    }
    kept
}

/// Parse a keep-selection line, already trimmed, for a pool of `pool`
/// dice.
///
/// A line holding `q` asks to quit. A line with a repeated character or a
/// character outside the digits 1 to 6 is invalid and is to be re-prompted
/// by the shell. Any other line selects, for each position of the pool,
/// whether its digit occurs; digits beyond the pool select nothing. An
/// empty selection is legal.
pub fn parse_keep_selection(input: &Vec<char>, pool: usize) -> (cmd: KeepCommand)
    requires
        pool <= 6,
    ensures
        input@.contains('q') <==> cmd is Quit,
        !input@.contains('q') ==> ((cmd is Invalid) <==> (has_duplicate(input@) || exists|k: int|
            0 <= k < input@.len() && !is_keep_digit(#[trigger] input@[k]))),
        cmd matches KeepCommand::Selection(keep) ==> keep@.len() == pool as int && forall|p: int|
            0 <= p < pool ==> #[trigger] keep@[p] == input@.contains(digit_char(p + 1)),
{
    if contains_char(input, 'q') {
        return KeepCommand::Quit;
    }
    if has_duplicate_char(input) {
        return KeepCommand::Invalid;
    }
    let mut k: usize = 0;
    while k < input.len()
        invariant
            k <= input@.len(),
            !input@.contains('q'),
            !has_duplicate(input@),
            forall|j: int| 0 <= j < k ==> is_keep_digit(#[trigger] input@[j]),
        decreases input@.len() - k,
    {
        let c = input[k];
        if !(c == '1' || c == '2' || c == '3' || c == '4' || c == '5' || c == '6') {
            proof {
                assert(!is_keep_digit(input@[k as int]));
            }
            return KeepCommand::Invalid;
        }
        k = k + 1;
    }
    let mut keep: Vec<bool> = Vec::new();
    let mut p: usize = 0;
    while p < pool
        invariant
            p <= pool <= 6,
            keep@.len() == p as int,
            forall|q: int| 0 <= q < p ==> #[trigger] keep@[q] == input@.contains(digit_char(q + 1)),
        decreases pool - p,
    {
        let digit = position_digit(p + 1);
        let marked = contains_char(input, digit);
        keep.push(marked);
        p = p + 1;
    }
    KeepCommand::Selection(keep)
}

/// Parse a banking line, already trimmed: a `y` banks, otherwise a `q`
/// asks to quit, and anything else declines.
pub fn parse_bank_input(input: &Vec<char>) -> (cmd: BankCommand)
    ensures
        input@.contains('y') ==> (cmd matches BankCommand::Bank(b) && b),
        !input@.contains('y') && input@.contains('q') ==> cmd is Quit,
        !input@.contains('y') && !input@.contains('q') ==> (cmd matches BankCommand::Bank(b) && !b),
{
    if contains_char(input, 'y') {
        return BankCommand::Bank(true);
    }
    if contains_char(input, 'q') {
        return BankCommand::Quit;
    }
    BankCommand::Bank(false)
}

/// The digit character for a 1-indexed pool position.
fn position_digit(p: usize) -> (c: char)
    requires
        1 <= p <= 6,
    ensures
        c == digit_char(p as int),
{
    if p == 1 {
        '1'
    } else if p == 2 {
        '2'
    } else if p == 3 {
        '3'
    } else if p == 4 {
        '4'
    } else if p == 5 {
        '5'
    } else {
        '6'
    }
}

/// Whether the line holds the character `c`.
fn contains_char(input: &Vec<char>, c: char) -> (r: bool)
    ensures
        r == input@.contains(c),
{
    let mut i: usize = 0;
    while i < input.len()
        invariant
            i <= input@.len(),
            forall|k: int| 0 <= k < i ==> input@[k] != c,
        decreases input@.len() - i,
    {
        if input[i] == c {
            return true;
        }
        i = i + 1;
    }
    false
}

/// Whether some character occurs twice in the line.
fn has_duplicate_char(input: &Vec<char>) -> (r: bool)
    ensures
        r == has_duplicate(input@),
{
    let mut i: usize = 0;
    while i < input.len()
        invariant
            i <= input@.len(),
            forall|a: int, b: int| 0 <= a < b < input@.len() && b < i ==> input@[a] != input@[b],
        decreases input@.len() - i,
    {
        let mut j: usize = 0;
        while j < i
            invariant
                j <= i < input@.len(),
                forall|a: int| 0 <= a < j ==> input@[a] != input@[i as int],
            decreases i - j,
        {
            if input[j] == input[i] {
                return true;
            }
            j = j + 1;
        }
        i = i + 1;
    }
    false
}

} // verus!
