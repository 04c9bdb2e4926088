//! Which pager long output goes through.

use vstd::prelude::*;
use crate::cli::{self, is_switched_on};
use crate::strmap;
use crate::text::{self, same, to_lower, trim};

verus! {

/// The pager that is used where none is named: colors are kept, and the end of
/// the output is shown first.
pub const DEFAULT_PAGER: &'static str = "less -R +G";

/// The first of the texts that is there.
pub open spec fn first_of(
    a: Option<Seq<char>>,
    b: Option<Seq<char>>,
    c: Option<Seq<char>>,
    d: Seq<char>,
) -> Seq<char> {
    match a {
        Some(s) => s,
        None => match b {
            Some(s) => s,
            None => match c {
                Some(s) => s,
                None => d,
            },
        },
    }
}

/// The pager: `ATC_PAGER`, else the configured one, else `PAGER`, else the
/// default. An empty one, or `cat`, stands for none.
pub open spec fn pager_of(
    atc_pager: Option<Seq<char>>,
    configured: Option<Seq<char>>,
    pager: Option<Seq<char>>,
) -> Option<Seq<char>> {
    let p = text::trimmed(first_of(atc_pager, configured, pager, DEFAULT_PAGER@));
    if p.len() == 0 || text::lowered(p) == "cat"@ {
        None
    } else {
        Some(p)
    }
}

/// Resolve the effective pager command.
pub fn resolve_pager(
    atc_pager: &Option<String>,
    configured: &Option<String>,
    pager: &Option<String>,
) -> (r: Option<String>)
    ensures
        strmap::opt_view(r) == pager_of(
            strmap::opt_view(*atc_pager),
            strmap::opt_view(*configured),
            strmap::opt_view(*pager),
        ),
{
    let chosen = match atc_pager {
        Some(s) => s.as_str(),
        None => match configured {
            Some(s) => s.as_str(),
            None => match pager {
                Some(s) => s.as_str(),
                None => DEFAULT_PAGER,
            },
        },
    };
    let p = trim(chosen);
    if p.as_str().unicode_len() == 0 || same(to_lower(p.as_str()).as_str(), "cat") {
        None
    } else {
        Some(p)
    }
}

/// Whether the environment forbids paging: `ATC_NO_PAGER` is set to anything,
/// or `ATC_CI` is switched on.
pub fn pager_blocked_by_env(no_pager_set: bool, ci: &Option<String>) -> (r: bool)
    ensures
        r == (no_pager_set || cli::switched_on(strmap::opt_view(*ci))),
{
    no_pager_set || is_switched_on(ci)
}

/// The pager to start, if output is paged at all: never where it does not go to
/// a terminal.
pub fn choose_pager(
    stdout_is_terminal: bool,
    blocked: bool,
    resolved: Option<String>,
) -> (r: Option<String>)
    ensures
        r == if stdout_is_terminal && !blocked {
            resolved
        } else {
            None
        },
{
    if stdout_is_terminal && !blocked {
        resolved
    } else {
        None
    }
}

/// What `ATC_PAGER` says goes before what is configured, and that before `PAGER`.
/// A pager is taken without the space around it, and one that is blank, or `cat`
/// in whatever case, means that nothing is paged.
pub proof fn pagers_come_in_order(
    atc_pager: Option<Seq<char>>,
    configured: Option<Seq<char>>,
    pager: Option<Seq<char>>,
    named: Seq<char>,
)
    ensures
        pager_of(Some(named), configured, pager) == pager_of(Some(named), None, None),
        pager_of(None, Some(named), pager) == pager_of(Some(named), None, None),
        pager_of(None, None, Some(named)) == pager_of(Some(named), None, None),
        pager_of(None, None, None) == pager_of(Some("less -R +G"@), None, None),
        text::trimmed(named).len() == 0 ==> pager_of(Some(named), configured, pager) is None,
        text::lowered(text::trimmed(named)) == "cat"@ ==> pager_of(Some(named), configured, pager)
            is None,
        text::trimmed(named).len() > 0 && text::lowered(text::trimmed(named)) != "cat"@ ==> pager_of(
            Some(named),
            configured,
            pager,
        ) == Some(text::trimmed(named)),
{
}

} // verus!
