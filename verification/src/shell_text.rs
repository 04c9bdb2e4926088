//! Shell arguments shown to the user.

use vstd::prelude::*;
use crate::terminal_text::{self, display_text};

verus! {

/// What `shlex::try_quote` returns for a word it can quote.
pub uninterp spec fn shell_quoted(word: Seq<char>) -> Seq<char>;

/// `shlex::try_quote`: quotes a word for a shell. It fails on exactly those
/// words that hold a NUL; the quoted form is named, not described.
#[verifier::external_body]
fn try_quote(word: &str) -> (r: Option<String>)
    ensures
        r is None <==> word@.contains('\0'),
        r matches Some(q) ==> q@ == shell_quoted(word@),
{
    shlex::try_quote(word).ok().map(|q| q.into_owned())
}

/// What is shown for an argument given the outcome of quoting it.
pub open spec fn shown_quoted(quoted: Option<Seq<char>>) -> Seq<char> {
    match quoted {
        Some(q) => terminal_text::escaped(q),
        None => "<unrepresentable>"@,
    }
}

/// The quoted argument made safe to print, or a marker where there is none.
pub fn show_quoted(quoted: Option<String>) -> (r: String)
    ensures
        r@ == shown_quoted(
            match quoted {
                Some(q) => Some(q@),
                None => None,
            },
        ),
{
    match quoted {
        Some(q) => display_text(q.as_str()),
        None => "<unrepresentable>".to_owned(),
    }
}

/// The value as a shell argument, with terminal controls escaped after quoting.
pub fn shell_display_arg(value: &str) -> (r: String)
    ensures
        value@.contains('\0') ==> r@ == "<unrepresentable>"@,
        !value@.contains('\0') ==> r@ == terminal_text::escaped(shell_quoted(value@)),
{
    show_quoted(try_quote(value))
}

/// No shown argument holds a terminal control.
pub proof fn shown_argument_is_safe(quoted: Option<Seq<char>>)
    ensures
        terminal_text::all_safe(shown_quoted(quoted)),
{
    match quoted {
        Some(q) => terminal_text::display_is_safe(q),
        None => {
            reveal_strlit("<unrepresentable>");
        },
    }
}

} // verus!
