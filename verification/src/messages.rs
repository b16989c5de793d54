//! The fixed diagnostic lines a validated read prints when it rejects an
//! input line.  Each read operation has one diagnostic, printed once per
//! rejected line; the restricted-choice diagnostic also lists the allowed
//! words, joined in the order and casing the caller gave them.

use vstd::prelude::*;
use vstd::string::StringExecFns;

verus! {

/// The diagnostic an integer read prints for a rejected line.
pub fn int_invalid_message() -> (m: &'static str)
    ensures
        m@ == "Invalid input, enter a valid integer."@,
{
    "Invalid input, enter a valid integer."
}

/// The diagnostic a floating-point read prints for a rejected line.
pub fn float_invalid_message() -> (m: &'static str)
    ensures
        m@ == "Invalid input, enter a valid number."@,
{
    "Invalid input, enter a valid number."
}

/// The diagnostic a character read prints for an empty line.
pub fn char_invalid_message() -> (m: &'static str)
    ensures
        m@ == "Please enter at least one character."@,
{
    "Please enter at least one character."
}

/// The diagnostic a boolean read prints for a line outside the vocabulary.
pub fn bool_invalid_message() -> (m: &'static str)
    ensures
        m@ == "Please enter yes/no or true/false"@,
{
    "Please enter yes/no or true/false"
}

/// The diagnostic an optional read prints for a non-empty line that does
/// not parse.
pub fn optional_invalid_message() -> (m: &'static str)
    ensures
        m@ == "Invalid input, try again or press Enter to skip."@,
{
    "Invalid input, try again or press Enter to skip."
}

/// The diagnostic a defaulted read prints for a non-empty line that does
/// not parse.
pub fn default_invalid_message() -> (m: &'static str)
    ensures
        m@ == "Invalid input, try again or press Enter for default."@,
{
    "Invalid input, try again or press Enter for default."
}

/// The words of `items` joined with ", ", in their given order.
pub open spec fn join_spec(items: Seq<String>) -> Seq<char>
    decreases items.len(),
{
    if items.len() == 0 {
        Seq::empty()
    } else if items.len() == 1 {
        items[0]@
    } else {
        join_spec(items.drop_last()) + ", "@ + items.last()@
    }
}

/// The diagnostic a restricted-choice read prints for a line that matches
/// no allowed word: the fixed prefix followed by the allowed words joined
/// with ", ".
pub fn choices_invalid_message(allowed: &Vec<String>) -> (m: String)
    ensures
        m@ == "Invalid choice. Allowed: "@ + join_spec(allowed@),
{
    let mut m: String = "Invalid choice. Allowed: ".to_owned();
    proof {
        assert(m@ + join_spec(allowed@.take(0)) =~= m@);
    }
    let mut k: usize = 0;
    while k < allowed.len()
        invariant
            k <= allowed@.len(),
            m@ == "Invalid choice. Allowed: "@ + join_spec(allowed@.take(k as int)),
        decreases allowed@.len() - k,
    {
        if k > 0 {
            m.append(", ");
        }
        m.append(allowed[k].as_str());
        proof {
            let pre = "Invalid choice. Allowed: "@;
            let kk = k as int;
            assert(allowed@.take(kk + 1).drop_last() =~= allowed@.take(kk));
            assert(allowed@.take(kk + 1).last() == allowed@[kk]);
            if k == 0 {
                assert(join_spec(allowed@.take(0)) =~= Seq::<char>::empty());
                assert(m@ =~= pre + join_spec(allowed@.take(1)));
            } else {
                assert(join_spec(allowed@.take(kk + 1)) == join_spec(allowed@.take(kk)) + ", "@
                    + allowed@[kk]@);
                assert(m@ =~= pre + join_spec(allowed@.take(kk + 1)));
            }
        }
        k += 1;
    }
    proof {
        assert(allowed@.take(allowed@.len() as int) =~= allowed@);
    }
    m
}

} // verus!
