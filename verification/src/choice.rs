//! The restricted-choice rule: a trimmed line is matched case-insensitively
//! against an ordered list of allowed words, and the first match wins.  The
//! caller gets back the allowed entry itself, so user input is normalised
//! to the canonical spelling, whatever casing was typed.
//!
//! Matching compares the Unicode lowercase mappings of the line and of
//! each entry (see [`crate::text::lower_of`]), so it is case-insensitive
//! beyond ASCII, as a console user would expect.

use crate::text::lower_of;
use vstd::prelude::*;

verus! {

/// `t` and `w` are the same word up to case: their lowercase mappings
/// agree.
pub open spec fn matches_fold(t: Seq<char>, w: Seq<char>) -> bool {
    lower_of(t) == lower_of(w)
}

/// The position of the first entry of `allowed` that `t` equals up to
/// case, if any.
pub open spec fn choice_of(allowed: Seq<String>, t: Seq<char>) -> Option<int>
    decreases allowed.len(),
{
    if allowed.len() == 0 {
        None
    } else if matches_fold(t, allowed[0]@) {
        Some(0)
    } else {
        match choice_of(allowed.drop_first(), t) {
            Some(k) => Some(k + 1),
            None => None,
        }
    }
}

/// `choice_of` returns exactly the least matching position.
pub proof fn lemma_choice_of_found(allowed: Seq<String>, t: Seq<char>, k: int)
    requires
        0 <= k < allowed.len(),
        matches_fold(t, allowed[k]@),
        forall|j: int| 0 <= j < k ==> !matches_fold(t, #[trigger] allowed[j]@),
    ensures
        choice_of(allowed, t) == Some(k),
    decreases k,
{
    if k > 0 {
        assert(!matches_fold(t, allowed[0]@));
        assert(forall|j: int| 0 <= j < k - 1 ==> !matches_fold(
            t,
            #[trigger] allowed.drop_first()[j]@,
        ));
        lemma_choice_of_found(allowed.drop_first(), t, k - 1);
    }
}

/// Where no entry matches, `choice_of` finds nothing.
pub proof fn lemma_choice_of_none(allowed: Seq<String>, t: Seq<char>)
    requires
        forall|j: int| 0 <= j < allowed.len() ==> !matches_fold(t, #[trigger] allowed[j]@),
    ensures
        choice_of(allowed, t) is None,
    decreases allowed.len(),
{
    if allowed.len() > 0 {
        assert(forall|j: int| 0 <= j < allowed.len() - 1 ==> !matches_fold(
            t,
            #[trigger] allowed.drop_first()[j]@,
        ));
        lemma_choice_of_none(allowed.drop_first(), t);
    }
}

/// Whatever `choice_of` returns is a matching position, and the least one.
pub proof fn lemma_choice_of_sound(allowed: Seq<String>, t: Seq<char>)
    ensures
        (match choice_of(allowed, t) {
            Some(k) => 0 <= k < allowed.len() && matches_fold(t, allowed[k]@) && (forall|j: int|
                0 <= j < k ==> !matches_fold(t, #[trigger] allowed[j]@)),
            None => forall|j: int| 0 <= j < allowed.len() ==> !matches_fold(
                t,
                #[trigger] allowed[j]@,
            ),
        }),
    decreases allowed.len(),
{
    if allowed.len() > 0 {
        lemma_choice_of_sound(allowed.drop_first(), t);
        if !matches_fold(t, allowed[0]@) {
            match choice_of(allowed.drop_first(), t) {
                Some(k0) => {
                    assert(allowed.drop_first()[k0] == allowed[k0 + 1]);
                    assert forall|j: int| 0 <= j < k0 + 1 implies !matches_fold(
                        t,
                        #[trigger] allowed[j]@,
                    ) by {
                        if j > 0 {
                            assert(allowed.drop_first()[j - 1] == allowed[j]);
                        }
                    }
                },
                None => {
                    assert forall|j: int| 0 <= j < allowed.len() implies !matches_fold(
                        t,
                        #[trigger] allowed[j]@,
                    ) by {
                        if j > 0 {
                            assert(allowed.drop_first()[j - 1] == allowed[j]);
                        }
                    }
                },
            }
        }
    }
}

/// Finds the first entry of `allowed` that the trimmed line `t` equals up
/// to case, and returns its position.
pub fn find_choice(allowed: &Vec<String>, t: &str) -> (r: Option<usize>)
    ensures
        (match r {
            Some(k) => k < allowed@.len() && choice_of(allowed@, t@) == Some(k as int),
            None => choice_of(allowed@, t@) is None,
        }),
{
    let folded = crate::text::lowercase(t);
    let mut k: usize = 0;
    while k < allowed.len()
        invariant
            k <= allowed@.len(),
            folded@ == lower_of(t@),
            forall|j: int| 0 <= j < k ==> !matches_fold(t@, #[trigger] allowed@[j]@),
        decreases allowed@.len() - k,
    {
        let entry_folded = crate::text::lowercase(allowed[k].as_str());
        if folded == entry_folded {
            proof {
                lemma_choice_of_found(allowed@, t@, k as int);
            }
            return Some(k);
        }
        k += 1;
    }
    proof {
        lemma_choice_of_none(allowed@, t@);
    }
    None
}

} // verus!
