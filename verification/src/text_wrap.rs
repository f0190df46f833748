//! Prefixing the lines of a text, done by the `textwrap` crate.
use vstd::prelude::*;

use crate::util::text::{final_newline, joined, terminated_lines};

verus! {

/// Whether every character of `s` is a newline or a printable ASCII character (a space
/// included).
pub open spec fn printable_text(s: Seq<char>) -> bool {
    forall|i: int| 0 <= i < s.len() ==> s[i] == '\n' || (' ' <= #[trigger] s[i] && s[i] <= '~')
}

/// Whether every character of `s` is printable ASCII (a space included).
pub open spec fn printable_line(s: Seq<char>) -> bool {
    forall|i: int| 0 <= i < s.len() ==> ' ' <= #[trigger] s[i] && s[i] <= '~'
}

/// Whether `s` holds spaces alone (or nothing).
pub open spec fn blank(s: Seq<char>) -> bool {
    forall|i: int| 0 <= i < s.len() ==> #[trigger] s[i] == ' '
}

/// `s` without its trailing spaces.
pub open spec fn trim_end_spaces(s: Seq<char>) -> Seq<char>
    decreases s.len(),
{
    if s.len() > 0 && s.last() == ' ' {
        trim_end_spaces(s.drop_last())
    } else {
        s
    }
}

/// The lines of `s`, each after `prefix` (a blank line after `prefix` without its
/// trailing spaces), joined by newlines, with the final newline of `s` if it has one.
pub open spec fn prefixed_lines(s: Seq<char>, prefix: Seq<char>) -> Seq<char> {
    let ls = terminated_lines(s).map_values(
        |l: Seq<char>|
            if blank(l) {
                trim_end_spaces(prefix) + l
            } else {
                prefix + l
            },
    );
    joined(ls, seq!['\n']) + final_newline(s)
}

/// What `textwrap::indent` returns for the text `s` and the prefix `prefix`.
pub uninterp spec fn textwrap_indent(s: Seq<char>, prefix: Seq<char>) -> Seq<char>;

/// Calls `textwrap::indent`, which puts `prefix` before each line of `s`, and before a
/// line of whitespace alone `prefix` without its trailing whitespace. Claimed: the result
/// depends on the two texts alone, and is named `textwrap_indent(s@, prefix@)`; for
/// texts of printable ASCII characters and newlines (where a space is the only
/// whitespace), it is `prefixed_lines(s@, prefix@)`. What whitespace means for other
/// characters (Unicode's `White_Space`) is left unsaid.
#[verifier::external_body]
pub(crate) fn indent_lines(s: &str, prefix: &str) -> (r: String)
    ensures
        r@ == textwrap_indent(s@, prefix@),
        printable_text(s@) && printable_line(prefix@) ==> r@ == prefixed_lines(s@, prefix@),
{
    textwrap::indent(s, prefix)
}

} // verus!
