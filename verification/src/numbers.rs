use vstd::prelude::*;

verus! {

/// What `numberkit::is_number` answers for a text.
pub uninterp spec fn numberkit_number(text: Seq<char>) -> bool;

/// Calls `numberkit::is_number`, which tells whether a text reads as a
/// number literal: an optional leading `-`, then digits with at most one
/// `.`, then an optional type suffix that must be exactly one of `i8` to
/// `i128`, `isize`, `u8` to `u128`, `usize`, `f32`, `f64`; an `i` suffix
/// rules out a `.`, a `u` suffix rules out a `.` and a `-`. The empty text
/// counts as a number.
///
/// The contract claims only that the answer is a function of the text; it
/// does not restate that grammar.
#[verifier::external_body]
pub(crate) fn is_number(text: &str) -> (r: bool)
    ensures
        r == numberkit_number(text@),
{
    numberkit::is_number(text)
}

} // verus!
