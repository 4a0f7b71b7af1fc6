//! What the rest of the crate needs of strings.

use vstd::prelude::*;

verus! {

/// `String::push` appends exactly one character to the end of the string.
pub assume_specification[ String::push ](s: &mut String, ch: char)
    ensures
        final(s)@ == old(s)@.push(ch),
;

/// Whether a fragment counts as markup: it begins with `<`.
pub open spec fn is_markup(fragment: Seq<char>) -> bool {
    fragment.len() > 0 && fragment[0] == '<'
}

/// Tests whether `s` begins with `<`.
pub fn starts_with_angle(s: &str) -> (b: bool)
    ensures
        b == is_markup(s@),
{
    let mut it = s.chars();
    match it.next() {
        Some(c) => c == '<',
        None => false,
    }
}

} // verus!
