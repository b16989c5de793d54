//! The retry state machine shared by every validated read: lines of the
//! input transcript are judged one at a time, a rejected line costs one
//! diagnostic, and the first accepted line ends the session.  A session is
//! described by the sequence of per-line verdicts; the laws below say that
//! this description admits exactly one outcome.

use crate::choice::choice_of;
use crate::keywords::bool_of;
use crate::numeric::TextParsable;
use crate::text::trim_spec;
use vstd::prelude::*;

verus! {

/// The session accepts value `v` at line `i`: every earlier line is
/// rejected (and so prints one diagnostic), and line `i` yields `v`.
pub open spec fn accepts_at<V>(verdicts: Seq<Option<V>>, v: V, i: int) -> bool {
    &&& 0 <= i < verdicts.len()
    &&& verdicts[i] == Some(v)
    &&& forall|j: int| 0 <= j < i ==> verdicts[j] is None
}

/// Every line of the transcript is rejected: the session runs out of
/// input without producing a value.
pub open spec fn rejects_all<V>(verdicts: Seq<Option<V>>) -> bool {
    forall|i: int| 0 <= i < verdicts.len() ==> verdicts[i] is None
}

/// What a validated read returns over a transcript with the given
/// verdicts: the value of the first accepted line, or nothing when every
/// line is rejected.
pub open spec fn session_outcome<V>(verdicts: Seq<Option<V>>, r: Option<V>) -> bool {
    &&& (r is Some ==> exists|i: int| #[trigger] accepts_at(verdicts, r->0, i))
    &&& (r is None ==> rejects_all(verdicts))
}

/// The verdicts an integer (or other parse-driven) read passes over a
/// transcript: each line is trimmed and parsed under the grammar of `T`.
pub open spec fn parse_verdicts<T: TextParsable>(lines: Seq<String>) -> Seq<Option<T>> {
    lines.map_values(|l: String| T::parse_spec(trim_spec(l@)))
}

/// The verdicts an optional (or defaulted) read passes: an empty trimmed
/// line is accepted as the skip signal, a parseable line as its value.
pub open spec fn optional_verdicts<T: TextParsable>(lines: Seq<String>) -> Seq<Option<Option<T>>> {
    lines.map_values(
        |l: String|
            {
                if trim_spec(l@).len() == 0 {
                    Some(None::<T>)
                } else {
                    match T::parse_spec(trim_spec(l@)) {
                        Some(v) => Some(Some(v)),
                        None => None,
                    }
                }
            },
    )
}

/// The verdicts a boolean read passes: each trimmed line is looked up in
/// the fixed yes/no vocabulary.
pub open spec fn bool_verdicts(lines: Seq<String>) -> Seq<Option<bool>> {
    lines.map_values(|l: String| bool_of(trim_spec(l@)))
}

/// The verdicts a character read passes: the first character of each
/// trimmed line, where there is one.
pub open spec fn char_verdicts(lines: Seq<String>) -> Seq<Option<char>> {
    lines.map_values(
        |l: String|
            {
                if trim_spec(l@).len() > 0 {
                    Some(trim_spec(l@)[0])
                } else {
                    None
                }
            },
    )
}

/// The verdicts a restricted-choice read passes: the position in `allowed`
/// of the first case-insensitive match of each trimmed line.
pub open spec fn choice_verdicts(allowed: Seq<String>, lines: Seq<String>) -> Seq<Option<int>> {
    lines.map_values(|l: String| choice_of(allowed, trim_spec(l@)))
}

/// A session has at most one outcome: two results drawn from the same
/// verdicts are the same value, accepted at the same line.  In particular
/// two readers given identical prompt text and identical input lines
/// return identical values and print identical diagnostics — the verdicts,
/// and with them the outcome and the count of rejected lines, are a
/// function of the transcript alone.
pub proof fn lemma_session_deterministic<V>(verdicts: Seq<Option<V>>, r1: Option<V>, r2: Option<V>)
    requires
        session_outcome(verdicts, r1),
        session_outcome(verdicts, r2),
    ensures
        r1 == r2,
{
    match (r1, r2) {
        (Some(v1), Some(v2)) => {
            let i1 = choose|i: int| accepts_at(verdicts, v1, i);
            let i2 = choose|i: int| accepts_at(verdicts, v2, i);
            if i1 < i2 {
                assert(verdicts[i1] is None);
            } else if i2 < i1 {
                assert(verdicts[i2] is None);
            }
        },
        (Some(v1), None) => {
            let i1 = choose|i: int| accepts_at(verdicts, v1, i);
            assert(verdicts[i1] is None);
        },
        (None, Some(v2)) => {
            let i2 = choose|i: int| accepts_at(verdicts, v2, i);
            assert(verdicts[i2] is None);
        },
        (None, None) => {},
    }
}

/// A line that is accepted on its own terms decides the session: where
/// the `k` earlier lines are all rejected — `k` diagnostics — and line `k`
/// yields `v`, the one possible outcome is `v`.  With `k == 0` this says a
/// valid first line is returned at once, with no diagnostic printed.
pub proof fn lemma_session_accepts<V>(verdicts: Seq<Option<V>>, r: Option<V>, v: V, k: int)
    requires
        session_outcome(verdicts, r),
        accepts_at(verdicts, v, k),
    ensures
        r == Some(v),
{
    lemma_session_deterministic(verdicts, r, Some(v));
}

/// A valid literal on the first line decides an integer read at once: a
/// transcript whose first trimmed line parses as `v` under the grammar of
/// `T` can only return `v`, accepted at line zero — so with no diagnostic
/// printed.
pub proof fn lemma_valid_literal_first<T: TextParsable>(lines: Seq<String>, r: Option<T>, v: T)
    requires
        session_outcome(parse_verdicts::<T>(lines), r),
        lines.len() > 0,
        T::parse_spec(trim_spec(lines[0]@)) == Some(v),
    ensures
        r == Some(v),
        accepts_at(parse_verdicts::<T>(lines), v, 0),
{
    assert(parse_verdicts::<T>(lines)[0] == T::parse_spec(trim_spec(lines[0]@)));
    lemma_session_accepts(parse_verdicts::<T>(lines), r, v, 0);
}

/// Invalid tokens before a valid one are each rejected — one diagnostic
/// per invalid line — and the eventual valid line's value is returned:
/// where the `k` first trimmed lines fail the grammar of `T` and line `k`
/// parses as `v`, the read returns `v`, accepted at line `k`.
pub proof fn lemma_retry_until_valid<T: TextParsable>(lines: Seq<String>, r: Option<T>, v: T, k: int)
    requires
        session_outcome(parse_verdicts::<T>(lines), r),
        0 <= k < lines.len(),
        forall|j: int| 0 <= j < k ==> T::parse_spec(trim_spec(#[trigger] lines[j]@)) is None,
        T::parse_spec(trim_spec(lines[k]@)) == Some(v),
    ensures
        r == Some(v),
        accepts_at(parse_verdicts::<T>(lines), v, k),
{
    let vs = parse_verdicts::<T>(lines);
    assert(vs[k] == T::parse_spec(trim_spec(lines[k]@)));
    assert forall|j: int| 0 <= j < k implies vs[j] is None by {
        assert(vs[j] == T::parse_spec(trim_spec(lines[j]@)));
    }
    lemma_session_accepts(vs, r, v, k);
}

/// A transcript whose every line is rejected leaves the session without a
/// value.
pub proof fn lemma_session_exhausted<V>(verdicts: Seq<Option<V>>, r: Option<V>)
    requires
        session_outcome(verdicts, r),
        rejects_all(verdicts),
    ensures
        r is None,
{
    if r is Some {
        let v = r->0;
        let i = choose|i: int| accepts_at(verdicts, v, i);
        assert(verdicts[i] is None);
    }
}

} // verus!
