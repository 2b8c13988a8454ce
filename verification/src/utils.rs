//! Small text helpers shared by the emitters.

use vstd::prelude::*;
use vstd::string::*;

verus! {

/// The text `s` with `", "` put in front of it, or the empty text where `s` is empty.
pub open spec fn spec_with_prefix_comma(s: Seq<char>) -> Seq<char> {
    if s.len() == 0 {
        s
    } else {
        ", "@ + s
    }
}

/// Puts `", "` in front of a non-empty text, so that it can follow a first argument.
pub fn with_prefix_comma_if_not_empty(s: &str) -> (r: String)
    ensures
        r@ == spec_with_prefix_comma(s@),
{
    if !s.is_empty() {
        let mut r = String::from_str(", ");
        r.append(s);
        r
    } else {
        String::from_str(s)
    }
}

} // verus!
