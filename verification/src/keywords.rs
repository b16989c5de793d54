//! The fixed boolean vocabulary: a trimmed line means `true` when it is a
//! case-variant of "yes", "y", "true" or "1", and `false` when it is a
//! case-variant of "no", "n", "false" or "0".  Anything else is rejected.
//!
//! Case-variants are taken up to ASCII case here: on this fixed ASCII
//! vocabulary the ASCII fold coincides with the full Unicode lowercase
//! mapping, since no other character lowercases to one of its words.

use crate::text::chars_eq_ci;
use crate::text::matches_ci;
use vstd::prelude::*;

verus! {

/// `s` is a case-variant of one of the affirmative words.
pub open spec fn is_true_word(s: Seq<char>) -> bool {
    ||| matches_ci(s, "yes"@)
    ||| matches_ci(s, "y"@)
    ||| matches_ci(s, "true"@)
    ||| matches_ci(s, "1"@)
}

/// `s` is a case-variant of one of the negative words.
pub open spec fn is_false_word(s: Seq<char>) -> bool {
    ||| matches_ci(s, "no"@)
    ||| matches_ci(s, "n"@)
    ||| matches_ci(s, "false"@)
    ||| matches_ci(s, "0"@)
}

/// The boolean a trimmed line denotes, if it belongs to the vocabulary.
pub open spec fn bool_of(s: Seq<char>) -> Option<bool> {
    if is_true_word(s) {
        Some(true)
    } else if is_false_word(s) {
        Some(false)
    } else {
        None
    }
}

/// No string is both an affirmative and a negative word, so the two
/// branches of the vocabulary never compete.
pub proof fn lemma_bool_words_disjoint(s: Seq<char>)
    ensures
        !(is_true_word(s) && is_false_word(s)),
{
    reveal_strlit("yes");
    reveal_strlit("y");
    reveal_strlit("true");
    reveal_strlit("1");
    reveal_strlit("no");
    reveal_strlit("n");
    reveal_strlit("false");
    reveal_strlit("0");
    if s.len() == 1 {
        if matches_ci(s, "y"@) {
            assert(chars_eq_ci(s[0], "y"@[0]));
        }
        if matches_ci(s, "1"@) {
            assert(chars_eq_ci(s[0], "1"@[0]));
        }
        if matches_ci(s, "n"@) {
            assert(chars_eq_ci(s[0], "n"@[0]));
        }
        if matches_ci(s, "0"@) {
            assert(chars_eq_ci(s[0], "0"@[0]));
        }
    }
}

/// The boolean vocabulary, stated whole: a string denotes `true` exactly
/// when it is a case-variant of an affirmative word, `false` exactly when
/// it is a case-variant of a negative word, and nothing otherwise.
pub proof fn lemma_bool_vocabulary(s: Seq<char>)
    ensures
        bool_of(s) == Some(true) <==> is_true_word(s),
        bool_of(s) == Some(false) <==> is_false_word(s),
        bool_of(s) is None <==> !is_true_word(s) && !is_false_word(s),
{
    lemma_bool_words_disjoint(s);
}

/// Decides which boolean, if any, the trimmed line `t` denotes.
pub fn classify_bool(t: &str) -> (r: Option<bool>)
    ensures
        r == bool_of(t@),
{
    if crate::text::str_eq_ci(t, "yes") || crate::text::str_eq_ci(t, "y")
        || crate::text::str_eq_ci(t, "true") || crate::text::str_eq_ci(t, "1") {
        Some(true)
    } else if crate::text::str_eq_ci(t, "no") || crate::text::str_eq_ci(t, "n")
        || crate::text::str_eq_ci(t, "false") || crate::text::str_eq_ci(t, "0") {
        Some(false)
    } else {
        None
    }
}

} // verus!
