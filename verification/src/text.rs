//! Character classification and the two conversions between strings and
//! character vectors.
//!
//! These are the only trusted items of the crate: the Unicode character
//! classes are named rather than written out, and the two conversions
//! wrap standard-library iteration that `vstd` gives no specification.

use vstd::prelude::*;
use vstd::string::StringExecFns;

verus! {

/// Whether `c` has the Unicode `Alphabetic` property, as decided by
/// `char::is_alphabetic`. The class is far too large to write out, and
/// it depends on the character alone, so it is only named.
pub uninterp spec fn char_alpha(c: char) -> bool;

/// Whether `c` has one of the Unicode numeric general categories, as
/// decided by `char::is_numeric`. Named for the same reason.
pub uninterp spec fn char_num(c: char) -> bool;

/// Relies on `char::is_alphabetic`: the result depends on the character
/// alone.
pub assume_specification[ char::is_alphabetic ](c: char) -> (r: bool)
    ensures
        r == char_alpha(c),
;

/// Relies on `char::is_numeric`: the result depends on the character
/// alone.
pub assume_specification[ char::is_numeric ](c: char) -> (r: bool)
    ensures
        r == char_num(c),
;

/// Relies on `char::is_alphanumeric`, which its documentation defines
/// as `is_alphabetic() || is_numeric()`.
pub assume_specification[ char::is_alphanumeric ](c: char) -> (r: bool)
    ensures
        r == (char_alpha(c) || char_num(c)),
;

/// Whether a string equals a literal, decided character for
/// character.
pub fn eq_lit(s: &String, lit: &str) -> (r: bool)
    ensures
        r == (s@ == lit@),
{
    let l = String::from_str(lit);
    *s == l
}

/// Relies on `str::chars`: the characters of the string, in order.
#[verifier::external_body]
pub fn str_to_chars(s: &str) -> (v: Vec<char>)
    ensures
        v@ == s@,
{
    s.chars().collect()
}

/// Copies the characters of `v` between `from` and `to` into a new
/// string.
pub fn chars_slice_string(v: &Vec<char>, from: usize, to: usize) -> (s: String)
    requires
        from <= to <= v@.len(),
    ensures
        s@ == v@.subrange(from as int, to as int),
{
    let mut out: Vec<char> = Vec::new();
    let mut i: usize = from;
    while i < to
        invariant
            from <= i <= to <= v@.len(),
            out@ == v@.subrange(from as int, i as int),
        decreases to - i,
    {
        out.push(v[i]);
        proof {
            assert(out@ =~= v@.subrange(from as int, i as int + 1));
        }
        i = i + 1;
    }
    chars_to_string(&out)
}

/// Relies on `String`'s `FromIterator<char>`: the string made of the
/// characters, in order.
#[verifier::external_body]
pub fn chars_to_string(v: &Vec<char>) -> (s: String)
    ensures
        s@ == v@,
{
    v.iter().collect()
}

} // verus!
