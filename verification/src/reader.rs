//! The prompt reader: an [`Input`] is bound to a fixed prompt string and
//! offers one typed read operation per logical input request.  Each
//! operation takes the transcript of raw lines supplied to it, rejects
//! lines until one satisfies the requested rule, and returns the value of
//! the first accepted line — or `None` when the transcript runs out, the
//! fail-fast answer to an input stream that has closed.
//!
//! The surrounding program owns the console: it prints the prompt before
//! reading each line and prints the operation's diagnostic (see
//! [`crate::messages`]) for each line an operation rejects.

use crate::choice::choice_of;
use crate::choice::find_choice;
use crate::keywords::classify_bool;
use crate::numeric::TextParsable;
use crate::session::accepts_at;
use crate::session::bool_verdicts;
use crate::session::char_verdicts;
use crate::session::choice_verdicts;
use crate::session::optional_verdicts;
use crate::session::parse_verdicts;
use crate::session::rejects_all;
use crate::session::session_outcome;
use crate::text::trim_spec;
use crate::text::trim_str;
use vstd::prelude::*;

verus! {

/// A reader bound to one prompt string.  The prompt is stored verbatim at
/// construction and never changed; the reader itself is stateless, so one
/// reader may serve any number of read operations.
pub struct Input {
    pub prompt: String,
}

/// The engine of every parse-driven read: trim each line in turn, return
/// the first value the grammar of `T` accepts.
fn parse_session<T: TextParsable>(lines: &Vec<String>) -> (r: Option<T>)
    ensures
        session_outcome(parse_verdicts::<T>(lines@), r),
{
    let mut i: usize = 0;
    while i < lines.len()
        invariant
            i <= lines@.len(),
            forall|j: int| 0 <= j < i ==> T::parse_spec(trim_spec(#[trigger] lines@[j]@)) is None,
        decreases lines@.len() - i,
    {
        let t = trim_str(lines[i].as_str());
        match T::parse_text(t) {
            Some(v) => {
                proof {
                    let vs = parse_verdicts::<T>(lines@);
                    assert forall|j: int| 0 <= j < i implies vs[j] is None by {
                        assert(vs[j] == T::parse_spec(trim_spec(lines@[j]@)));
                    }
                    assert(vs[i as int] == T::parse_spec(trim_spec(lines@[i as int]@)));
                    assert(accepts_at(parse_verdicts::<T>(lines@), v, i as int));
                }
                return Some(v);
            },
            None => {
                i += 1;
            },
        }
    }
    proof {
        let vs = parse_verdicts::<T>(lines@);
        assert forall|j: int| 0 <= j < vs.len() implies vs[j] is None by {
            assert(vs[j] == T::parse_spec(trim_spec(lines@[j]@)));
        }
    }
    None
}

impl Input {
    /// Binds a reader to `prompt`, stored verbatim; no I/O happens here.
    pub fn new(prompt: &str) -> (r: Self)
        ensures
            r.prompt@ == prompt@,
    {
        Input { prompt: prompt.to_owned() }
    }

    /// Reads an integer of type `T`: lines are trimmed and parsed under
    /// the integer grammar of `T`, and the first line that parses decides.
    pub fn integer<T: TextParsable>(&self, lines: &Vec<String>) -> (r: Option<T>)
        ensures
            session_outcome(parse_verdicts::<T>(lines@), r),
    {
        parse_session::<T>(lines)
    }

    /// Reads a string: one line, trimmed of surrounding whitespace.  Every
    /// line is accepted, the empty one included.
    pub fn string(&self, line: &str) -> (r: String)
        ensures
            r@ == trim_spec(line@),
    {
        trim_str(line).to_owned()
    }

    /// Reads a single character: the first character of the first line
    /// that is non-empty once trimmed; whatever follows it is discarded.
    pub fn char(&self, lines: &Vec<String>) -> (r: Option<char>)
        ensures
            session_outcome(char_verdicts(lines@), r),
    {
        let mut i: usize = 0;
        while i < lines.len()
            invariant
                i <= lines@.len(),
                forall|j: int| 0 <= j < i ==> trim_spec(#[trigger] lines@[j]@).len() == 0,
            decreases lines@.len() - i,
        {
            let t = trim_str(lines[i].as_str());
            if t.unicode_len() > 0 {
                let c = t.get_char(0);
                proof {
                    let vs = char_verdicts(lines@);
                    assert forall|j: int| 0 <= j < i implies vs[j] is None by {
                        assert(trim_spec(lines@[j]@).len() == 0);
                    }
                    assert(vs[i as int] == Some(trim_spec(lines@[i as int]@)[0]));
                    assert(accepts_at(char_verdicts(lines@), c, i as int));
                    assert(Some(c)->0 == c);
                }
                return Some(c);
            }
            i += 1;
        }
        proof {
            let vs = char_verdicts(lines@);
            assert forall|j: int| 0 <= j < vs.len() implies vs[j] is None by {
                assert(trim_spec(lines@[j]@).len() == 0);
            }
        }
        None
    }

    /// Reads a boolean: the first trimmed line that is a case-variant of
    /// "yes", "y", "true" or "1" gives `true`, of "no", "n", "false" or
    /// "0" gives `false`; every other line is rejected.
    pub fn bool(&self, lines: &Vec<String>) -> (r: Option<bool>)
        ensures
            session_outcome(bool_verdicts(lines@), r),
    {
        let mut i: usize = 0;
        while i < lines.len()
            invariant
                i <= lines@.len(),
                forall|j: int| 0 <= j < i ==> crate::keywords::bool_of(
                    trim_spec(#[trigger] lines@[j]@),
                ) is None,
            decreases lines@.len() - i,
        {
            let t = trim_str(lines[i].as_str());
            match classify_bool(t) {
                Some(b) => {
                    proof {
                        let vs = bool_verdicts(lines@);
                        assert forall|j: int| 0 <= j < i implies vs[j] is None by {
                            assert(vs[j] == crate::keywords::bool_of(trim_spec(lines@[j]@)));
                        }
                        assert(vs[i as int] == crate::keywords::bool_of(
                            trim_spec(lines@[i as int]@),
                        ));
                        assert(accepts_at(bool_verdicts(lines@), b, i as int));
                    }
                    return Some(b);
                },
                None => {
                    i += 1;
                },
            }
        }
        proof {
            let vs = bool_verdicts(lines@);
            assert forall|j: int| 0 <= j < vs.len() implies vs[j] is None by {
                assert(vs[j] == crate::keywords::bool_of(trim_spec(lines@[j]@)));
            }
        }
        None
    }

    /// Reads an optional value: an empty trimmed line is the skip signal
    /// and yields `Some(None)` at once; a line that parses as `T` yields
    /// its value; any other line is rejected.  `None` means the transcript
    /// itself ran out.
    pub fn optional<T: TextParsable>(&self, lines: &Vec<String>) -> (r: Option<Option<T>>)
        ensures
            session_outcome(optional_verdicts::<T>(lines@), r),
    {
        let mut i: usize = 0;
        while i < lines.len()
            invariant
                i <= lines@.len(),
                forall|j: int| 0 <= j < i ==> trim_spec(#[trigger] lines@[j]@).len() != 0
                    && T::parse_spec(trim_spec(lines@[j]@)) is None,
            decreases lines@.len() - i,
        {
            let t = trim_str(lines[i].as_str());
            if t.unicode_len() == 0 {
                proof {
                    let vs = optional_verdicts::<T>(lines@);
                    assert forall|j: int| 0 <= j < i implies vs[j] is None by {
                        assert(vs[j] == (if trim_spec(lines@[j]@).len() == 0 {
                            Some(None::<T>)
                        } else {
                            match T::parse_spec(trim_spec(lines@[j]@)) {
                                Some(v) => Some(Some(v)),
                                None => None,
                            }
                        }));
                    }
                    assert(vs[i as int] == Some(None::<T>));
                    assert(accepts_at(optional_verdicts::<T>(lines@), None::<T>, i as int));
                    assert(Some(None::<T>)->0 == None::<T>);
                }
                return Some(None);
            }
            match T::parse_text(t) {
                Some(v) => {
                    proof {
                        let vs = optional_verdicts::<T>(lines@);
                        assert forall|j: int| 0 <= j < i implies vs[j] is None by {
                            assert(vs[j] == (if trim_spec(lines@[j]@).len() == 0 {
                                Some(None::<T>)
                            } else {
                                match T::parse_spec(trim_spec(lines@[j]@)) {
                                    Some(v0) => Some(Some(v0)),
                                    None => None,
                                }
                            }));
                        }
                        assert(vs[i as int] == Some(Some(v)));
                        assert(accepts_at(optional_verdicts::<T>(lines@), Some(v), i as int));
                        assert(Some(Some(v))->0 == Some(v));
                    }
                    return Some(Some(v));
                },
                None => {
                    i += 1;
                },
            }
        }
        proof {
            let vs = optional_verdicts::<T>(lines@);
            assert forall|j: int| 0 <= j < vs.len() implies vs[j] is None by {
                assert(vs[j] == (if trim_spec(lines@[j]@).len() == 0 {
                    Some(None::<T>)
                } else {
                    match T::parse_spec(trim_spec(lines@[j]@)) {
                        Some(v0) => Some(Some(v0)),
                        None => None,
                    }
                }));
            }
        }
        None
    }

    /// Reads a value or falls back: the same loop as [`Input::optional`],
    /// except that the skip signal returns the caller-supplied `fallback`.
    pub fn default<T: TextParsable>(&self, fallback: T, lines: &Vec<String>) -> (r: Option<T>)
        ensures
            (match r {
                Some(v) => exists|i: int, w: Option<T>|
                    accepts_at(optional_verdicts::<T>(lines@), w, i) && v == (match w {
                        Some(x) => x,
                        None => fallback,
                    }),
                None => rejects_all(optional_verdicts::<T>(lines@)),
            }),
    {
        match self.optional::<T>(lines) {
            Some(w) => {
                proof {
                    let vs = optional_verdicts::<T>(lines@);
                    let i = choose|i: int| accepts_at(vs, w, i);
                    assert(accepts_at(vs, w, i));
                }
                match w {
                    Some(v) => Some(v),
                    None => Some(fallback),
                }
            },
            None => None,
        }
    }

    /// Reads one of the allowed words: the first trimmed line that equals
    /// an entry of `allowed` up to case is normalised to that
    /// entry's own spelling — the first matching entry, in the order the
    /// caller gave them.
    pub fn choices(&self, allowed: &Vec<String>, lines: &Vec<String>) -> (r: Option<String>)
        requires
            allowed@.len() > 0,
        ensures
            (match r {
                Some(s) => exists|i: int, k: int|
                    accepts_at(choice_verdicts(allowed@, lines@), k, i) && 0 <= k < allowed@.len()
                        && s == allowed@[k],
                None => rejects_all(choice_verdicts(allowed@, lines@)),
            }),
    {
        let mut i: usize = 0;
        while i < lines.len()
            invariant
                i <= lines@.len(),
                forall|j: int| 0 <= j < i ==> choice_of(
                    allowed@,
                    trim_spec(#[trigger] lines@[j]@),
                ) is None,
            decreases lines@.len() - i,
        {
            let t = trim_str(lines[i].as_str());
            match find_choice(allowed, t) {
                Some(k) => {
                    let s = allowed[k].clone();
                    proof {
                        let vs = choice_verdicts(allowed@, lines@);
                        assert forall|j: int| 0 <= j < i implies vs[j] is None by {
                            assert(vs[j] == choice_of(allowed@, trim_spec(lines@[j]@)));
                        }
                        assert(vs[i as int] == choice_of(allowed@, trim_spec(lines@[i as int]@)));
                        assert(accepts_at(vs, k as int, i as int));
                    }
                    return Some(s);
                },
                None => {
                    i += 1;
                },
            }
        }
        proof {
            let vs = choice_verdicts(allowed@, lines@);
            assert forall|j: int| 0 <= j < vs.len() implies vs[j] is None by {
                assert(vs[j] == choice_of(allowed@, trim_spec(lines@[j]@)));
            }
        }
        None
    }
}

/// Binds a reader to `prompt`: a short-hand for [`Input::new`].
pub fn input(prompt: &str) -> (r: Input)
    ensures
        r.prompt@ == prompt@,
{
    Input::new(prompt)
}

} // verus!
