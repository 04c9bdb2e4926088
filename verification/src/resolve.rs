//! Finding the record that a command is about.

use vstd::prelude::*;
use crate::terminal_text::{self, display_text};
use crate::text::{concat, same};
use crate::types::{DispatchRecord, Status};

verus! {

/// Resolve a dispatch record by ID or task slug. `by_id` is the record with
/// that name, and `latest` the latest one for a task of that name.
pub fn resolve_record(
    by_id: Option<DispatchRecord>,
    latest: Option<DispatchRecord>,
    arg: &str,
) -> (r: Result<DispatchRecord, String>)
    ensures
        match by_id {
            Some(record) => r == Ok::<DispatchRecord, String>(record),
            None => match latest {
                Some(record) => r == Ok::<DispatchRecord, String>(record),
                None => r matches Err(e) && e@ == "no dispatch record found for: "@
                    + terminal_text::escaped(arg@),
            },
        },
{
    if let Some(record) = by_id {
        return Ok(record);
    }
    if let Some(record) = latest {
        return Ok(record);
    }
    Err(concat("no dispatch record found for: ", display_text(arg).as_str()))
}

/// Another record than the given one is still at work.
pub open spec fn other_live(records: Seq<DispatchRecord>, id: Seq<char>) -> bool {
    exists|i: int|
        0 <= i < records.len() && (#[trigger] records[i]).id@ != id && !records[i].status.ended()
}

pub fn has_other_live(records: &Vec<DispatchRecord>, id: &str) -> (r: bool)
    ensures
        r == other_live(records@, id@),
{
    let mut i: usize = 0;
    while i < records.len()
        invariant
            i <= records.len(),
            forall|j: int|
                0 <= j < i ==> (#[trigger] records@[j]).id@ == id@ || records@[j].status.ended(),
        decreases records.len() - i,
    {
        if !same(records[i].id.as_str(), id) && !records[i].status.is_terminal() {
            return true;
        }
        i += 1;
    }
    false
}

/// There is another record than the given one.
pub open spec fn other(records: Seq<DispatchRecord>, id: Seq<char>) -> bool {
    exists|i: int| 0 <= i < records.len() && (#[trigger] records[i]).id@ != id
}

pub fn has_other(records: &Vec<DispatchRecord>, id: &str) -> (r: bool)
    ensures
        r == other(records@, id@),
{
    let mut i: usize = 0;
    while i < records.len()
        invariant
            i <= records.len(),
            forall|j: int| 0 <= j < i ==> (#[trigger] records@[j]).id@ == id@,
        decreases records.len() - i,
    {
        if !same(records[i].id.as_str(), id) {
            return true;
        }
        i += 1;
    }
    false
}

/// Another record counts as at work exactly where it runs or is about to run again, under
/// another name; one record alone never counts against itself.
pub proof fn live_records_are_those_at_work(records: Seq<DispatchRecord>, id: Seq<char>)
    ensures
        other_live(records, id) <==> exists|i: int|
            0 <= i < records.len() && (#[trigger] records[i]).id@ != id && (records[i].status
                == Status::Running || records[i].status == Status::Retrying),
        other_live(records, id) ==> other(records, id),
        (forall|i: int| 0 <= i < records.len() ==> (#[trigger] records[i]).id@ == id) <==> !other(
            records,
            id,
        ),
{
}

} // verus!
