//! The textual integer grammar shared by every integer read operation: an
//! optional sign followed by one or more ASCII decimal digits, with the
//! value required to fit the target type.  One range-checked parser serves
//! all widths; the [`TextParsable`] trait dispatches a read operation to the
//! grammar of the requested type.

use vstd::arithmetic::div_mod::lemma_fundamental_div_mod;
use vstd::prelude::*;

verus! {

/// `c` is an ASCII decimal digit.
pub open spec fn is_digit(c: char) -> bool {
    48 <= c as u32 <= 57
}

/// The numeric value of the digit `c`.
pub open spec fn digit_val(c: char) -> int {
    c as u32 - 48
}

/// Every character of `s` is an ASCII decimal digit.
pub open spec fn all_digits(s: Seq<char>) -> bool {
    forall|i: int| 0 <= i < s.len() ==> is_digit(s[i])
}

/// The value of a digit string read in base ten.
pub open spec fn digits_val(s: Seq<char>) -> int
    decreases s.len(),
{
    if s.len() == 0 {
        0
    } else {
        digits_val(s.drop_last()) * 10 + digit_val(s.last())
    }
}

/// The integer denoted by `s` under the standard textual integer grammar —
/// an optional `+` or `-` sign followed by one or more decimal digits —
/// provided the value lies in `[lo, hi]`; `None` where `s` breaks the
/// grammar or the value falls outside the range.  A `-` sign is only part
/// of the grammar of types that can hold a negative value (`lo < 0`), as it
/// is for the standard library's integer types.
pub open spec fn parse_int_spec(s: Seq<char>, lo: int, hi: int) -> Option<int> {
    let signed_neg = s.len() > 0 && s[0] == '-';
    let signed_pos = s.len() > 0 && s[0] == '+';
    let ds = if signed_neg || signed_pos {
        s.drop_first()
    } else {
        s
    };
    if ds.len() > 0 && all_digits(ds) && (signed_neg ==> lo < 0) {
        let v = if signed_neg {
            -digits_val(ds)
        } else {
            digits_val(ds)
        };
        if lo <= v <= hi {
            Some(v)
        } else {
            None
        }
    } else {
        None
    }
}

proof fn lemma_digits_val_nonneg(s: Seq<char>)
    requires
        all_digits(s),
    ensures
        digits_val(s) >= 0,
    decreases s.len(),
{
    if s.len() > 0 {
        assert(forall|i: int| 0 <= i < s.len() - 1 ==> is_digit(#[trigger] s.drop_last()[i]));
        lemma_digits_val_nonneg(s.drop_last());
    }
}

/// Appending digits never decreases the value of a digit string.
proof fn lemma_digits_val_prefix(s: Seq<char>, k: int)
    requires
        all_digits(s),
        0 <= k <= s.len(),
    ensures
        digits_val(s) >= digits_val(s.take(k)),
    decreases s.len() - k,
{
    if k < s.len() {
        assert(forall|i: int| 0 <= i < k + 1 ==> is_digit(#[trigger] s.take(k + 1)[i]));
        assert(s.take(k + 1).drop_last() =~= s.take(k));
        lemma_digits_val_nonneg(s.take(k));
        assert(digits_val(s.take(k + 1)) == digits_val(s.take(k)) * 10 + digit_val(s.take(k + 1).last()));
        assert(digits_val(s.take(k + 1)) >= digits_val(s.take(k)));
        lemma_digits_val_prefix(s, k + 1);
    } else {
        assert(s.take(k) =~= s);
    }
}

/// Reads the digit run that must make up `s` from position `start` on:
/// its value, where every remaining character is an ASCII digit, there is
/// at least one, and the value does not exceed `bound`.
fn scan_digits(s: &str, start: usize, bound: u128) -> (r: Option<u128>)
    requires
        start <= s@.len(),
    ensures
        (match r {
            Some(m) => s@.skip(start as int).len() > 0 && all_digits(s@.skip(start as int))
                && digits_val(s@.skip(start as int)) == m && m <= bound,
            None => s@.skip(start as int).len() == 0 || !all_digits(s@.skip(start as int))
                || digits_val(s@.skip(start as int)) > bound,
        }),
{
    let n: usize = s.unicode_len();
    if n == start {
        return None;
    }
    let ghost ds = s@.skip(start as int);
    let q: u128 = bound / 10;
    let rm: u128 = bound % 10;
    proof {
        lemma_fundamental_div_mod(bound as int, 10);
    }
    let mut acc: u128 = 0;
    let mut i: usize = start;
    while i < n
        invariant
            n == s@.len(),
            start <= i <= n,
            n > start,
            ds == s@.skip(start as int),
            ds.len() == n - start,
            forall|j: int| 0 <= j < ds.len() ==> ds[j] == s@[j + start],
            forall|j: int| 0 <= j < i - start ==> is_digit(ds[j]),
            acc == digits_val(ds.take(i - start)),
            acc <= bound,
            bound == 10 * q + rm,
            rm < 10,
            q == bound / 10,
        decreases n - i,
    {
        let c = s.get_char(i);
        let u: u32 = c as u32;
        if u < 48 || u > 57 {
            // A non-digit breaks the grammar for the whole run, whatever
            // follows.
            assert(!is_digit(ds[i - start]));
            return None;
        }
        let d: u128 = (u - 48) as u128;
        if acc > q || (acc == q && d > rm) {
            // The value read so far already exceeds the bound; further
            // digits can only increase it.
            proof {
                let k = i - start;
                assert(ds.take(k + 1).drop_last() =~= ds.take(k));
                assert(forall|j: int| 0 <= j < k + 1 ==> is_digit(#[trigger] ds.take(k + 1)[j]));
                assert(digits_val(ds.take(k + 1)) == acc * 10 + d);
                assert(acc * 10 + d > bound);
                if all_digits(ds) {
                    lemma_digits_val_prefix(ds, k + 1);
                    assert(digits_val(ds) > bound);
                }
            }
            return None;
        }
        proof {
            let k = i - start;
            assert(ds.take(k + 1).drop_last() =~= ds.take(k));
            assert(acc * 10 + d <= 10 * q + rm);
        }
        acc = acc * 10 + d;
        i += 1;
    }
    proof {
        assert(ds.take(n - start) =~= ds);
    }
    Some(acc)
}

/// Parses `s` as a decimal integer constrained to `[lo, hi]`.
///
/// This is the executable parser behind every signed width and every
/// unsigned width up to `u64` of [`TextParsable`]; each calls it with its
/// own bounds and narrows the result.  (`u128` needs the full magnitude of
/// the accumulator and goes to [`scan_digits`] directly.)
pub fn parse_in_range(s: &str, lo: i128, hi: i128) -> (r: Option<i128>)
    requires
        lo <= 0 <= hi,
    ensures
        (match r {
            Some(v) => parse_int_spec(s@, lo as int, hi as int) == Some(v as int),
            None => parse_int_spec(s@, lo as int, hi as int) is None,
        }),
{
    let n: usize = s.unicode_len();
    if n == 0 {
        return None;
    }
    let c0 = s.get_char(0);
    let neg = c0 == '-';
    let pos = c0 == '+';
    let start: usize = if neg || pos {
        1
    } else {
        0
    };
    let ghost ds = if neg || pos {
        s@.drop_first()
    } else {
        s@
    };
    proof {
        assert(ds =~= s@.skip(start as int));
    }
    if neg && lo >= 0 {
        return None;
    }
    // The largest magnitude the range admits: -lo for a negative literal
    // (computed in two steps so that lo == i128::MIN does not overflow),
    // hi otherwise.
    let bound: u128 = if neg {
        ((-(lo + 1)) as u128) + 1
    } else {
        hi as u128
    };
    proof {
        assert(bound == (if neg { -(lo as int) } else { hi as int }));
    }
    match scan_digits(s, start, bound) {
        Some(m) => {
            if neg {
                if m == 0 {
                    Some(0)
                } else {
                    Some(-((m - 1) as i128) - 1)
                }
            } else {
                Some(m as i128)
            }
        },
        None => None,
    }
}

/// A type whose values can be read from the text of one input line.
///
/// `parse_spec` is the type's textual grammar; `parse_text` is the
/// executable parser, proved to decide exactly that grammar.
pub trait TextParsable: Sized {
    /// The value denoted by `s` in this type's textual grammar, if any.
    spec fn parse_spec(s: Seq<char>) -> Option<Self>;

    /// Parses a whole string as one value of this type.
    fn parse_text(s: &str) -> (r: Option<Self>)
        ensures
            r == Self::parse_spec(s@),
    ;
}

impl TextParsable for i8 {
    open spec fn parse_spec(s: Seq<char>) -> Option<i8> {
        match parse_int_spec(s, i8::MIN as int, i8::MAX as int) {
            Some(v) => Some(v as i8),
            None => None,
        }
    }

    fn parse_text(s: &str) -> (r: Option<i8>) {
        match parse_in_range(s, i8::MIN as i128, i8::MAX as i128) {
            Some(v) => Some(v as i8),
            None => None,
        }
    }
}

impl TextParsable for i16 {
    open spec fn parse_spec(s: Seq<char>) -> Option<i16> {
        match parse_int_spec(s, i16::MIN as int, i16::MAX as int) {
            Some(v) => Some(v as i16),
            None => None,
        }
    }

    fn parse_text(s: &str) -> (r: Option<i16>) {
        match parse_in_range(s, i16::MIN as i128, i16::MAX as i128) {
            Some(v) => Some(v as i16),
            None => None,
        }
    }
}

impl TextParsable for i32 {
    open spec fn parse_spec(s: Seq<char>) -> Option<i32> {
        match parse_int_spec(s, i32::MIN as int, i32::MAX as int) {
            Some(v) => Some(v as i32),
            None => None,
        }
    }

    fn parse_text(s: &str) -> (r: Option<i32>) {
        match parse_in_range(s, i32::MIN as i128, i32::MAX as i128) {
            Some(v) => Some(v as i32),
            None => None,
        }
    }
}

impl TextParsable for i64 {
    open spec fn parse_spec(s: Seq<char>) -> Option<i64> {
        match parse_int_spec(s, i64::MIN as int, i64::MAX as int) {
            Some(v) => Some(v as i64),
            None => None,
        }
    }

    fn parse_text(s: &str) -> (r: Option<i64>) {
        match parse_in_range(s, i64::MIN as i128, i64::MAX as i128) {
            Some(v) => Some(v as i64),
            None => None,
        }
    }
}

impl TextParsable for isize {
    open spec fn parse_spec(s: Seq<char>) -> Option<isize> {
        match parse_int_spec(s, isize::MIN as int, isize::MAX as int) {
            Some(v) => Some(v as isize),
            None => None,
        }
    }

    fn parse_text(s: &str) -> (r: Option<isize>) {
        match parse_in_range(s, isize::MIN as i128, isize::MAX as i128) {
            Some(v) => Some(v as isize),
            None => None,
        }
    }
}

impl TextParsable for i128 {
    open spec fn parse_spec(s: Seq<char>) -> Option<i128> {
        match parse_int_spec(s, i128::MIN as int, i128::MAX as int) {
            Some(v) => Some(v as i128),
            None => None,
        }
    }

    fn parse_text(s: &str) -> (r: Option<i128>) {
        parse_in_range(s, i128::MIN, i128::MAX)
    }
}

impl TextParsable for u8 {
    open spec fn parse_spec(s: Seq<char>) -> Option<u8> {
        match parse_int_spec(s, 0, u8::MAX as int) {
            Some(v) => Some(v as u8),
            None => None,
        }
    }

    fn parse_text(s: &str) -> (r: Option<u8>) {
        match parse_in_range(s, 0, u8::MAX as i128) {
            Some(v) => Some(v as u8),
            None => None,
        }
    }
}

impl TextParsable for u16 {
    open spec fn parse_spec(s: Seq<char>) -> Option<u16> {
        match parse_int_spec(s, 0, u16::MAX as int) {
            Some(v) => Some(v as u16),
            None => None,
        }
    }

    fn parse_text(s: &str) -> (r: Option<u16>) {
        match parse_in_range(s, 0, u16::MAX as i128) {
            Some(v) => Some(v as u16),
            None => None,
        }
    }
}

impl TextParsable for u32 {
    open spec fn parse_spec(s: Seq<char>) -> Option<u32> {
        match parse_int_spec(s, 0, u32::MAX as int) {
            Some(v) => Some(v as u32),
            None => None,
        }
    }

    fn parse_text(s: &str) -> (r: Option<u32>) {
        match parse_in_range(s, 0, u32::MAX as i128) {
            Some(v) => Some(v as u32),
            None => None,
        }
    }
}

impl TextParsable for u64 {
    open spec fn parse_spec(s: Seq<char>) -> Option<u64> {
        match parse_int_spec(s, 0, u64::MAX as int) {
            Some(v) => Some(v as u64),
            None => None,
        }
    }

    fn parse_text(s: &str) -> (r: Option<u64>) {
        match parse_in_range(s, 0, u64::MAX as i128) {
            Some(v) => Some(v as u64),
            None => None,
        }
    }
}

impl TextParsable for u128 {
    open spec fn parse_spec(s: Seq<char>) -> Option<u128> {
        match parse_int_spec(s, 0, u128::MAX as int) {
            Some(v) => Some(v as u128),
            None => None,
        }
    }

    fn parse_text(s: &str) -> (r: Option<u128>) {
        let n: usize = s.unicode_len();
        if n == 0 {
            return None;
        }
        let c0 = s.get_char(0);
        if c0 == '-' {
            return None;
        }
        let start: usize = if c0 == '+' {
            1
        } else {
            0
        };
        let ghost ds = if c0 == '+' {
            s@.drop_first()
        } else {
            s@
        };
        proof {
            assert(ds =~= s@.skip(start as int));
        }
        scan_digits(s, start, u128::MAX)
    }
}

impl TextParsable for usize {
    open spec fn parse_spec(s: Seq<char>) -> Option<usize> {
        match parse_int_spec(s, 0, usize::MAX as int) {
            Some(v) => Some(v as usize),
            None => None,
        }
    }

    fn parse_text(s: &str) -> (r: Option<usize>) {
        match parse_in_range(s, 0, usize::MAX as i128) {
            Some(v) => Some(v as usize),
            None => None,
        }
    }
}

} // verus!
