//! `atc post-complete` - wraps a dispatch up after its agent has exited.

use vstd::prelude::*;
use crate::text::{concat, push_str};
use crate::types::{DispatchRecord, Status};

verus! {

/// The dispatch to wrap up: the one that is named, or else the first one that
/// runs.
pub fn choose_dispatch(id: Option<&str>, running: &Vec<DispatchRecord>) -> (r: Result<
    String,
    String,
>)
    ensures
        match id {
            Some(id) => r matches Ok(d) && d@ == id@,
            None => if running@.len() > 0 {
                r matches Ok(d) && d@ == running@[0].id@
            } else {
                r matches Err(e) && e@ == "no running dispatches found; specify --id"@
            },
        },
{
    match id {
        Some(id) => Ok(id.to_owned()),
        None => if running.len() > 0 {
            Ok(running[0].id.clone())
        } else {
            Err("no running dispatches found; specify --id".to_owned())
        },
    }
}

/// What is said of a dispatch that was wrapped up.
pub fn completed_message(id: &str, status: Status, pr_url: Option<&str>) -> (r: String)
    ensures
        r@ == "post-complete: "@ + id@ + " \u{2192} "@ + status.name() + " (PR: "@ + (
        match pr_url {
            Some(u) => u@,
            None => "none"@,
        }) + ")"@,
{
    let mut out = concat("post-complete: ", id);
    push_str(&mut out, " \u{2192} ");
    push_str(&mut out, status.as_str());
    push_str(&mut out, " (PR: ");
    push_str(
        &mut out,
        match pr_url {
            Some(u) => u,
            None => "none",
        },
    );
    push_str(&mut out, ")");
    out
}

} // verus!
