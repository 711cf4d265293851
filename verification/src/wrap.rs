use vstd::prelude::*;

verus! {

/// What textwrap::fill returns for a given text and width: a function of
/// the two arguments alone.
pub uninterp spec fn wrap_of(text: Seq<char>, width: int) -> Seq<char>;

/// Relies on textwrap::fill: the text wrapped to the width, lines joined
/// with newlines.
#[verifier::external_body]
pub fn fill_text(text: &str, width: usize) -> (r: String)
    ensures
        r@ == wrap_of(text@, width as int),
{
    textwrap::fill(text, width)
}

} // verus!
