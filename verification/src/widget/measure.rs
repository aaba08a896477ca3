//! How wide texts are on the terminal.

use vstd::prelude::*;

verus! {

/// The columns that a text takes on the terminal, escape codes aside.
pub uninterp spec fn text_width(s: Seq<char>) -> usize;

/// Whether each character is one that ASCII prints.
pub open spec fn printable(s: Seq<char>) -> bool {
    forall|i: int| 0 <= i < s.len() ==> ' ' <= #[trigger] s[i] <= '~'
}

/// `console::measure_text_width`. The text determines the width; printable ASCII takes a column
/// for each character.
#[verifier::external_body]
pub(crate) fn measure_text_width(s: &str) -> (r: usize)
    ensures
        r == text_width(s@),
        printable(s@) ==> r == s@.len(),
{
    console::measure_text_width(s)
}

/// A text cut down to a width, with a tail where something was cut off.
pub uninterp spec fn cut_text(s: Seq<char>, width: usize, tail: Seq<char>) -> Seq<char>;

/// `console::truncate_str`. A text that is not too wide is left as it is; what is left of another
/// is a function of the three arguments.
#[verifier::external_body]
pub(crate) fn truncate_str(s: &str, width: usize, tail: &str) -> (r: String)
    ensures
        r@ == cut_text(s@, width, tail@),
        text_width(s@) <= width ==> r@ == s@,
{
    console::truncate_str(s, width, tail).to_string()
}

} // verus!
