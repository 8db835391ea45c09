//! What this crate assumes of the standard library's `String` beyond the
//! specifications that vstd ships.

use vstd::prelude::*;

verus! {

/// `String::push` appends the one character to the end of the string and
/// leaves what was there untouched. Assumed of the standard library, not
/// proved.
pub assume_specification[ String::push ](s: &mut String, ch: char)
    ensures
        final(s)@ == old(s)@.push(ch),
;

} // verus!
