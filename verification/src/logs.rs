//! `atc logs` - replays and follows the log of a dispatch.

use vstd::prelude::*;
use crate::paths::{self, file_name, join_path};
use crate::status;
use crate::strmap;
use crate::text::{self, concat, lines, push_str, same, split, trim_end, write_u64};
use crate::types::DispatchRecord;

verus! {

/// Where a log is looked for.
pub enum LogPlace {
    /// In the log file of a record.
    Recorded(String),
    /// In the log directory, under the name that was given.
    Fallback(String),
}

/// The log file of the first record from `i` on with the given session.
pub open spec fn log_of_session(
    records: Seq<DispatchRecord>,
    session: Seq<char>,
    i: int,
) -> Option<Seq<char>>
    decreases records.len() - i,
{
    if i < 0 || i >= records.len() {
        None
    } else if records[i].session@ == session {
        Some(records[i].log_file@)
    } else {
        log_of_session(records, session, i + 1)
    }
}

fn find_session_log(records: &Vec<DispatchRecord>, session: &str) -> (r: Option<String>)
    ensures
        strmap::opt_view(r) == log_of_session(records@, session@, 0),
{
    let mut i: usize = 0;
    while i < records.len()
        invariant
            i <= records.len(),
            log_of_session(records@, session@, 0) == log_of_session(
                records@,
                session@,
                i as int,
            ),
        decreases records.len() - i,
    {
        if same(records[i].session.as_str(), session) {
            return Some(records[i].log_file.clone());
        }
        i += 1;
    }
    None
}

/// The log of a record that goes by the argument: as its name, its task or its
/// session, in this order.
pub open spec fn recorded_log(
    by_id: Option<DispatchRecord>,
    latest: Option<DispatchRecord>,
    records: Seq<DispatchRecord>,
    arg: Seq<char>,
) -> Option<Seq<char>> {
    match by_id {
        Some(r) => Some(r.log_file@),
        None => match latest {
            Some(r) => Some(r.log_file@),
            None => log_of_session(records, arg, 0),
        },
    }
}

/// The log that an argument names in the log directory: only its last part
/// counts, so that it cannot lead elsewhere.
pub open spec fn fallback_log(log_dir: Seq<char>, arg: Seq<char>) -> Option<Seq<char>> {
    match paths::file_name_of(arg) {
        Some(name) => Some(paths::joined_path(log_dir, name + ".jsonl"@)),
        None => None,
    }
}

/// Resolve the log file from an id, task or session. `by_id` is the record with
/// that name, `latest` the latest one for a task of that name, and `records`
/// are all records.
pub fn resolve_log_path(
    by_id: &Option<DispatchRecord>,
    latest: &Option<DispatchRecord>,
    records: &Vec<DispatchRecord>,
    log_dir: &str,
    arg: &str,
) -> (r: Result<LogPlace, String>)
    ensures
        match recorded_log(*by_id, *latest, records@, arg@) {
            Some(path) => r matches Ok(LogPlace::Recorded(p)) && p@ == path,
            None => match fallback_log(log_dir@, arg@) {
                Some(path) => r matches Ok(LogPlace::Fallback(p)) && p@ == path,
                None => r matches Err(e) && e@ == "invalid log argument: "@ + arg@,
            },
        },
{
    if let Some(record) = by_id {
        return Ok(LogPlace::Recorded(record.log_file.clone()));
    }
    if let Some(record) = latest {
        return Ok(LogPlace::Recorded(record.log_file.clone()));
    }
    if let Some(path) = find_session_log(records, arg) {
        return Ok(LogPlace::Recorded(path));
    }
    match file_name(arg) {
        Some(name) => {
            let file = concat(name.as_str(), ".jsonl");
            Ok(LogPlace::Fallback(join_path(log_dir, file.as_str())))
        },
        None => Err(concat("invalid log argument: ", arg)),
    }
}

/// A log that is named by its argument lies in the log directory itself.
pub proof fn fallback_stays_in_log_dir(log_dir: Seq<char>, arg: Seq<char>)
    requires
        fallback_log(log_dir, arg) is Some,
    ensures
        text::starts(fallback_log(log_dir, arg)->0, log_dir),
        !paths::file_name_of(arg)->0.contains('/'),
        paths::file_name_of(arg)->0 != ".."@,
{
    let name = paths::file_name_of(arg)->0;
    paths::file_name_is_plain(arg);
    let file = name + ".jsonl"@;
    assert(file[0] == name[0]);
    assert(name.contains(name[0]));
    assert(!paths::absolute(file));
    let path = paths::joined_path(log_dir, file);
    assert(path.subrange(0, log_dir.len() as int) =~= log_dir);
}

/// The error for a log that is not there.
pub fn missing_fallback_message(path: &str) -> (r: String)
    ensures
        r@ == "No log file: "@ + path@,
{
    concat("No log file: ", path)
}

/// The error for a log that is recorded but not there.
pub fn missing_log_message(path: &str, arg: &str) -> (r: String)
    ensures
        r@ == "No log file: "@ + path@ + "\nhint: try `atc info "@ + arg@
            + "` to verify the dispatch exists."@,
{
    let mut out = concat("No log file: ", path);
    push_str(&mut out, "\nhint: try `atc info ");
    push_str(&mut out, arg);
    push_str(&mut out, "` to verify the dispatch exists.");
    out
}

/// How an agent ended. The cost is as it is written.
pub struct ResultEvent {
    pub subtype: String,
    pub total_cost: Option<String>,
    pub num_turns: Option<u32>,
    pub duration_ms: Option<u64>,
}

/// What an agent says and does.
pub enum StreamEvent {
    AssistantText(String),
    ToolUse { name: String, input: String },
    Result(ResultEvent),
    Skip,
}

/// The last line on an agent.
pub open spec fn result_line(r: ResultEvent) -> Seq<char> {
    "=== RESULT: "@ + r.subtype@ + " | cost="@ + (match r.total_cost {
        Some(c) => "$"@ + c@,
        None => "-"@,
    }) + " | turns="@ + (match r.num_turns {
        Some(n) => text::decimal(n as nat),
        None => "-"@,
    }) + " | duration="@ + (match r.duration_ms {
        Some(ms) => text::decimal((ms / 1000) as nat) + "s"@,
        None => "-"@,
    }) + " ==="@
}

fn write_result(r: &ResultEvent) -> (out: String)
    ensures
        out@ == result_line(*r),
{
    let cost = match &r.total_cost {
        Some(c) => concat("$", c.as_str()),
        None => "-".to_owned(),
    };
    let turns = match r.num_turns {
        Some(n) => write_u64(n as u64),
        None => "-".to_owned(),
    };
    let duration = match r.duration_ms {
        Some(ms) => concat(write_u64(ms / 1000).as_str(), "s"),
        None => "-".to_owned(),
    };
    let mut out = concat("=== RESULT: ", r.subtype.as_str());
    push_str(&mut out, " | cost=");
    push_str(&mut out, cost.as_str());
    push_str(&mut out, " | turns=");
    push_str(&mut out, turns.as_str());
    push_str(&mut out, " | duration=");
    push_str(&mut out, duration.as_str());
    push_str(&mut out, " ===");
    out
}

/// The lines that are printed of an event.
pub open spec fn event_lines(e: StreamEvent) -> Seq<Seq<char>> {
    match e {
        StreamEvent::AssistantText(t) => text::lines_of(t@).map_values(
            |l: Seq<char>| ">>> "@ + l,
        ),
        StreamEvent::ToolUse { name, input } => seq![
            "  [tool] "@ + name@ + ": "@ + status::truncated(input@, 120),
        ],
        StreamEvent::Result(r) => seq![""@, result_line(r)],
        StreamEvent::Skip => Seq::empty(),
    }
}

fn quoted_lines(t: &str) -> (r: Vec<String>)
    ensures
        text::views(r@) == text::lines_of(t@).map_values(|l: Seq<char>| ">>> "@ + l),
{
    let all_lines = lines(t);
    let ghost all = text::lines_of(t@).map_values(|l: Seq<char>| ">>> "@ + l);
    let mut out: Vec<String> = Vec::new();
    let mut i: usize = 0;
    proof {
        assert(all.len() == all_lines@.len());
        assert(text::views(out@) =~= all.take(0));
    }
    while i < all_lines.len()
        invariant
            i <= all_lines.len(),
            text::views(all_lines@) == text::lines_of(t@),
            all == text::lines_of(t@).map_values(|l: Seq<char>| ">>> "@ + l),
            text::views(out@) == all.take(i as int),
        decreases all_lines.len() - i,
    {
        let line = concat(">>> ", all_lines[i].as_str());
        proof {
            assert(text::views(all_lines@)[i as int] == all_lines@[i as int]@);
            assert(all[i as int] == line@);
            text::views_push(out@, line);
            assert(all.take(i + 1) =~= all.take(i as int).push(line@));
        }
        out.push(line);
        i += 1;
    }
    proof {
        assert(all.take(i as int) =~= all);
    }
    out
}

/// Render a single event.
pub fn render_event(event: &StreamEvent) -> (r: Vec<String>)
    ensures
        text::views(r@) == event_lines(*event),
{
    match event {
        StreamEvent::AssistantText(t) => quoted_lines(t.as_str()),
        StreamEvent::ToolUse { name, input } => {
            let mut line = concat("  [tool] ", name.as_str());
            push_str(&mut line, ": ");
            push_str(&mut line, status::truncate(input.as_str(), 120).as_str());
            let r = vec![line];
            proof {
                assert(text::views(r@) =~= event_lines(*event));
            }
            r
        },
        StreamEvent::Result(e) => {
            let r = vec!["".to_owned(), write_result(e)];
            proof {
                assert(text::views(r@) =~= event_lines(*event));
            }
            r
        },
        StreamEvent::Skip => {
            let r: Vec<String> = Vec::new();
            proof {
                assert(text::views(r@) =~= event_lines(*event));
            }
            r
        },
    }
}

/// Bytes as text, with a mark for what is no UTF-8, as std decodes them.
pub uninterp spec fn lossy_text(bytes: Seq<u8>) -> Seq<char>;

/// `String::from_utf8_lossy`: bytes as text. What becomes of bytes that are no
/// UTF-8 is named, not described.
#[verifier::external_body]
fn decode_lossy(bytes: &Vec<u8>) -> (r: String)
    ensures
        r@ == lossy_text(bytes@),
{
    String::from_utf8_lossy(bytes).into_owned()
}

/// The end of the line that begins at `i`: behind its line break, or at the end
/// of the bytes.
pub open spec fn line_end(bytes: Seq<u8>, i: int) -> int
    decreases bytes.len() - i,
{
    if i < 0 || i >= bytes.len() {
        bytes.len() as int
    } else if bytes[i] == 10 {
        i + 1
    } else {
        line_end(bytes, i + 1)
    }
}

/// A line without its line break: line feeds at its end, then carriage returns
/// before them, are left out.
pub open spec fn without(s: Seq<char>, c: char) -> Seq<char>
    decreases s.len(),
{
    if s.len() > 0 && s.last() == c {
        without(s.drop_last(), c)
    } else {
        s
    }
}

pub open spec fn bare_line(s: Seq<char>) -> Seq<char> {
    without(without(s, '\n'), '\r')
}

fn drop_trailing(s: &str, c: char) -> (r: String)
    ensures
        r@ == without(s@, c),
{
    let v = text::chars_of(s);
    let mut n: usize = v.len();
    proof {
        assert(v@.take(n as int) =~= s@);
    }
    while n > 0 && v[n - 1] == c
        invariant
            n <= v.len(),
            v@ == s@,
            without(s@, c) == without(v@.take(n as int), c),
        decreases n,
    {
        proof {
            assert(v@.take(n as int).drop_last() =~= v@.take(n - 1));
        }
        n -= 1;
    }
    let r = text::slice_chars(&v, 0, n);
    proof {
        assert(r@ =~= v@.take(n as int));
    }
    r
}

/// The lines of a log from byte `i` on, decoded and bare, without empty ones.
pub open spec fn log_lines(bytes: Seq<u8>, i: int) -> Seq<Seq<char>>
    decreases bytes.len() - i,
{
    if i < 0 || i >= bytes.len() {
        Seq::empty()
    } else {
        proof {
            line_end_is_ahead(bytes, i);
        }
        let end = line_end(bytes, i);
        let line = bare_line(lossy_text(bytes.subrange(i, end)));
        (if line.len() > 0 {
            seq![line]
        } else {
            Seq::empty()
        }) + log_lines(bytes, end)
    }
}

/// A line is never empty of bytes.
pub proof fn line_end_is_ahead(bytes: Seq<u8>, i: int)
    requires
        0 <= i < bytes.len(),
    ensures
        i < line_end(bytes, i) <= bytes.len(),
    decreases bytes.len() - i,
{
    if bytes[i] != 10 {
        if i + 1 < bytes.len() {
            line_end_is_ahead(bytes, i + 1);
        } else {
            assert(line_end(bytes, i + 1) == bytes.len());
        }
    }
}

fn find_line_end(bytes: &Vec<u8>, from: usize) -> (r: usize)
    requires
        from < bytes@.len(),
    ensures
        r == line_end(bytes@, from as int),
        from < r <= bytes@.len(),
{
    let mut i: usize = from;
    while i < bytes.len()
        invariant
            from <= i <= bytes.len(),
            from < bytes.len(),
            line_end(bytes@, from as int) == line_end(bytes@, i as int),
        decreases bytes.len() - i,
    {
        if bytes[i] == 10 {
            return i + 1;
        }
        i += 1;
    }
    bytes.len()
}

fn copy_bytes(bytes: &Vec<u8>, from: usize, to: usize) -> (r: Vec<u8>)
    requires
        from <= to <= bytes@.len(),
    ensures
        r@ == bytes@.subrange(from as int, to as int),
{
    let mut out: Vec<u8> = Vec::new();
    let mut i: usize = from;
    while i < to
        invariant
            from <= i <= to <= bytes@.len(),
            out@ == bytes@.subrange(from as int, i as int),
        decreases to - i,
    {
        out.push(bytes[i]);
        i += 1;
        proof {
            assert(out@ =~= bytes@.subrange(from as int, i as int));
        }
    }
    out
}

/// The lines of a log that exist already, and the place behind them, from which
/// the log is followed. Lines that are no UTF-8 are decoded as far as they go.
pub fn existing_lines(bytes: &Vec<u8>) -> (r: (Vec<String>, u64))
    ensures
        text::views(r.0@) == log_lines(bytes@, 0),
        r.1 == bytes@.len(),
{
    let mut out: Vec<String> = Vec::new();
    let mut i: usize = 0;
    proof {
        assert(text::views(out@) + log_lines(bytes@, 0) =~= log_lines(bytes@, 0));
    }
    while i < bytes.len()
        invariant
            i <= bytes.len(),
            text::views(out@) + log_lines(bytes@, i as int) == log_lines(bytes@, 0),
        decreases bytes.len() - i,
    {
        let end: usize = find_line_end(bytes, i);
        let piece = copy_bytes(bytes, i, end);
        let decoded = decode_lossy(&piece);
        let line = drop_trailing(drop_trailing(decoded.as_str(), '\n').as_str(), '\r');
        let ghost before = text::views(out@);
        if line.as_str().unicode_len() > 0 {
            proof {
                text::views_push(out@, line);
            }
            out.push(line);
        }
        proof {
            assert(text::views(out@) + log_lines(bytes@, end as int) =~= before + log_lines(
                bytes@,
                i as int,
            ));
        }
        i = end;
    }
    proof {
        assert(text::views(out@) + log_lines(bytes@, i as int) =~= text::views(out@));
    }
    (out, bytes.len() as u64)
}

/// How far a log has been read, and the beginning of a line that is not
/// complete yet.
pub struct Follow {
    pub pos: u64,
    pub pending: String,
}

/// The complete lines of a text, without white space at their ends and without
/// empty ones.
pub open spec fn complete_lines(s: Seq<char>) -> Seq<Seq<char>> {
    text::split_on(s, '\n').drop_last().map_values(|l: Seq<char>| text::trimmed_end(l)).filter(
        |l: Seq<char>| l.len() > 0,
    )
}

/// The line of a text that is not complete.
pub open spec fn incomplete_line(s: Seq<char>) -> Seq<char> {
    text::split_on(s, '\n').last()
}

impl Follow {
    /// Starts where the replay ended, or at the end of a log that has become
    /// shorter.
    pub fn start(start_pos: u64, current_len: u64) -> (r: Follow)
        ensures
            r.pos == if start_pos > current_len {
                current_len
            } else {
                start_pos
            },
            r.pending@ == Seq::<char>::empty(),
    {
        Follow {
            pos: if start_pos > current_len {
                current_len
            } else {
                start_pos
            },
            pending: String::new(),
        }
    }

    /// The log is gone for the moment: what comes next is another one.
    pub fn lost(&mut self)
        ensures
            final(self).pos == 0,
            final(self).pending@ == Seq::<char>::empty(),
    {
        self.pos = 0;
        self.pending = String::new();
    }

    /// Takes the length of the log: one that has become shorter is read from its
    /// beginning. Gives the place to read from, if there is anything new.
    pub fn measured(&mut self, len: u64) -> (r: Option<u64>)
        ensures
            len < old(self).pos ==> final(self).pos == 0 && final(self).pending@
                == Seq::<char>::empty(),
            len >= old(self).pos ==> *final(self) == *old(self),
            r == if len > final(self).pos {
                Some(final(self).pos)
            } else {
                None
            },
    {
        if len < self.pos {
            self.lost();
        }
        if len > self.pos {
            Some(self.pos)
        } else {
            None
        }
    }

    /// Takes new text; gives the lines that are complete now.
    pub fn feed(&mut self, text: &str) -> (r: Vec<String>)
        ensures
            final(self).pos == old(self).pos,
            text::views(r@) == complete_lines(old(self).pending@ + text@),
            final(self).pending@ == incomplete_line(old(self).pending@ + text@),
    {
        let all = concat(self.pending.as_str(), text);
        let parts = split(all.as_str(), '\n');
        let ghost pieces = text::split_on(all@, '\n');
        proof {
            assert(pieces.len() == parts@.len());
        }
        let ghost lines = pieces.drop_last().map_values(|l: Seq<char>| text::trimmed_end(l));
        let ghost keep = |l: Seq<char>| l.len() > 0;
        let mut out: Vec<String> = Vec::new();
        let mut i: usize = 0;
        proof {
            reveal(Seq::filter);
            assert(lines.take(0) =~= Seq::empty());
            assert(text::views(out@) =~= lines.take(0).filter(keep));
        }
        let last: usize = parts.len() - 1;
        while i < last
            invariant
                i <= last,
                last == parts.len() - 1,
                pieces == text::views(parts@),
                lines == pieces.drop_last().map_values(|l: Seq<char>| text::trimmed_end(l)),
                keep == (|l: Seq<char>| l.len() > 0),
                text::views(out@) == lines.take(i as int).filter(keep),
            decreases last - i,
        {
            let line = trim_end(parts[i].as_str());
            proof {
                reveal(Seq::filter);
                assert(pieces[i as int] == parts@[i as int]@);
                assert(lines[i as int] == line@);
                assert(lines.take(i + 1).drop_last() =~= lines.take(i as int));
                assert(lines.take(i + 1).last() == line@);
            }
            if line.as_str().unicode_len() > 0 {
                proof {
                    text::views_push(out@, line);
                }
                out.push(line);
            }
            i += 1;
        }
        proof {
            assert(lines.take(i as int) =~= lines);
            assert(pieces.last() == parts@[last as int]@);
        }
        self.pending = parts[last].clone();
        out
    }

    /// Takes new bytes of the log; gives the lines that are complete now.
    pub fn take(&mut self, bytes: &Vec<u8>) -> (r: Vec<String>)
        requires
            old(self).pos + bytes@.len() <= u64::MAX,
        ensures
            final(self).pos == old(self).pos + bytes@.len(),
            text::views(r@) == complete_lines(old(self).pending@ + lossy_text(bytes@)),
            final(self).pending@ == incomplete_line(old(self).pending@ + lossy_text(bytes@)),
    {
        self.pos = self.pos + bytes.len() as u64;
        let decoded = decode_lossy(bytes);
        self.feed(decoded.as_str())
    }
}

proof fn split_nonempty(s: Seq<char>, c: char)
    ensures
        text::split_on(s, c).len() > 0,
    decreases s.len(),
{
    if s.len() > 0 {
        split_nonempty(s.drop_last(), c);
    }
}

proof fn split_of_sum(a: Seq<char>, b: Seq<char>, c: char)
    ensures
        text::split_on(a + b, c) == text::split_on(a, c).drop_last() + text::split_on(
            text::split_on(a, c).last() + b,
            c,
        ),
    decreases b.len(),
{
    split_nonempty(a, c);
    let pa = text::split_on(a, c);
    let tail = pa.last();
    if b.len() == 0 {
        assert(a + b =~= a);
        assert(tail + b =~= tail);
        text::split_pieces_lack_separator(a, c);
        assert(!tail.contains(c));
        split_without(tail, c);
        assert(pa =~= pa.drop_last() + seq![tail]);
    } else {
        let b1 = b.drop_last();
        split_of_sum(a, b1, c);
        assert((a + b).drop_last() =~= a + b1);
        assert((tail + b).drop_last() =~= tail + b1);
        assert((a + b).last() == b.last());
        assert((tail + b).last() == b.last());
        split_nonempty(tail + b1, c);
        let x = text::split_on(a + b1, c);
        let y = text::split_on(tail + b1, c);
        assert(x == pa.drop_last() + y);
        assert(x.last() == y.last());
        assert(x.drop_last() =~= pa.drop_last() + y.drop_last());
        if b.last() == c {
            assert(x.push(Seq::empty()) =~= pa.drop_last() + y.push(Seq::empty()));
        } else {
            let z = y.last().push(b.last());
            assert(x.drop_last().push(z) =~= pa.drop_last() + y.drop_last().push(z));
        }
    }
}

proof fn split_without(s: Seq<char>, c: char)
    requires
        !s.contains(c),
    ensures
        text::split_on(s, c) == seq![s],
    decreases s.len(),
{
    if s.len() > 0 {
        let t = s.drop_last();
        assert forall|i: int| 0 <= i < t.len() implies t[i] != c by {
            assert(s.contains(s[i]));
        }
        assert(!t.contains(c));
        split_without(t, c);
        assert(s.contains(s.last()));
        assert(text::split_on(t, c).drop_last() =~= Seq::<Seq<char>>::empty());
        assert(t.push(s.last()) =~= s);
        assert(text::split_on(s, c) =~= seq![s]);
    } else {
        assert(s =~= Seq::empty());
    }
}

/// It does not matter in which pieces a log arrives: the same lines come out,
/// in the same order, and the same incomplete line is left.
pub proof fn pieces_do_not_matter(pending: Seq<char>, a: Seq<char>, b: Seq<char>)
    ensures
        complete_lines(pending + a) + complete_lines(incomplete_line(pending + a) + b)
            == complete_lines(pending + (a + b)),
        incomplete_line(incomplete_line(pending + a) + b) == incomplete_line(pending + (a + b)),
{
    let s = pending + a;
    assert(pending + (a + b) =~= s + b);
    split_of_sum(s, b, '\n');
    split_nonempty(s, '\n');
    let rest = incomplete_line(s) + b;
    split_nonempty(rest, '\n');
    let x = text::split_on(s, '\n').drop_last();
    let y = text::split_on(rest, '\n');
    assert((x + y).last() == y.last());
    assert((x + y).drop_last() =~= x + y.drop_last());
    let trim = |l: Seq<char>| text::trimmed_end(l);
    let keep = |l: Seq<char>| l.len() > 0;
    assert((x + y.drop_last()).map_values(trim) =~= x.map_values(trim) + y.drop_last().map_values(
        trim,
    ));
    Seq::filter_distributes_over_add(x.map_values(trim), y.drop_last().map_values(trim), keep);
}

/// Nothing is lost while a log is followed: lines that are complete, and the one
/// that is not, make up all that has arrived.
pub proof fn nothing_is_lost(s: Seq<char>)
    ensures
        text::joined(text::split_on(s, '\n').drop_last().push(incomplete_line(s)), seq!['\n']) == s,
{
    split_nonempty(s, '\n');
    let p = text::split_on(s, '\n');
    assert(p.drop_last().push(p.last()) =~= p);
    text::join_undoes_split(s, '\n');
}

/// A log is that of the record of the name, else of the latest one for the task,
/// else of the first one with the session.
pub proof fn records_lead_to_their_logs(
    by_id: Option<DispatchRecord>,
    latest: Option<DispatchRecord>,
    records: Seq<DispatchRecord>,
    arg: Seq<char>,
    k: int,
)
    ensures
        by_id is Some ==> recorded_log(by_id, latest, records, arg) == Some(by_id->0.log_file@),
        by_id is None && latest is Some ==> recorded_log(by_id, latest, records, arg) == Some(
            latest->0.log_file@,
        ),
        by_id is None && latest is None && 0 <= k < records.len() && records[k].session@ == arg && (
        forall|j: int| 0 <= j < k ==> (#[trigger] records[j]).session@ != arg) ==> recorded_log(
            by_id,
            latest,
            records,
            arg,
        ) == Some(records[k].log_file@),
        by_id is None && latest is None && (forall|j: int|
            0 <= j < records.len() ==> (#[trigger] records[j]).session@ != arg) ==> recorded_log(
            by_id,
            latest,
            records,
            arg,
        ) is None,
{
    if 0 <= k < records.len() && records[k].session@ == arg && (forall|j: int|
        0 <= j < k ==> (#[trigger] records[j]).session@ != arg) {
        first_session_is_found(records, arg, 0, k);
    }
    if forall|j: int| 0 <= j < records.len() ==> (#[trigger] records[j]).session@ != arg {
        missing_session_is_not_found(records, arg, 0);
    }
}

proof fn first_session_is_found(records: Seq<DispatchRecord>, session: Seq<char>, i: int, k: int)
    requires
        0 <= i <= k < records.len(),
        records[k].session@ == session,
        forall|j: int| i <= j < k ==> (#[trigger] records[j]).session@ != session,
    ensures
        log_of_session(records, session, i) == Some(records[k].log_file@),
    decreases k - i,
{
    if i < k {
        first_session_is_found(records, session, i + 1, k);
    }
}

proof fn missing_session_is_not_found(records: Seq<DispatchRecord>, session: Seq<char>, i: int)
    requires
        0 <= i <= records.len(),
        forall|j: int| i <= j < records.len() ==> (#[trigger] records[j]).session@ != session,
    ensures
        log_of_session(records, session, i) is None,
    decreases records.len() - i,
{
    if i < records.len() {
        missing_session_is_not_found(records, session, i + 1);
    }
}

proof fn line_ends_at_its_break(bytes: Seq<u8>, i: int, k: int)
    requires
        0 <= i <= k < bytes.len(),
        bytes[k] == 10,
        forall|j: int| i <= j < k ==> bytes[j] != 10,
    ensures
        line_end(bytes, i) == k + 1,
    decreases k - i,
{
    if i < k {
        line_ends_at_its_break(bytes, i + 1, k);
    }
}

proof fn last_line_ends_with_the_bytes(bytes: Seq<u8>, i: int)
    requires
        0 <= i <= bytes.len(),
        forall|j: int| i <= j < bytes.len() ==> bytes[j] != 10,
    ensures
        line_end(bytes, i) == bytes.len(),
    decreases bytes.len() - i,
{
    if i < bytes.len() {
        last_line_ends_with_the_bytes(bytes, i + 1);
    }
}

proof fn line_end_shifts(bytes: Seq<u8>, k: int, i: int)
    requires
        0 <= k <= bytes.len(),
        0 <= i,
    ensures
        line_end(bytes, k + i) == k + line_end(bytes.skip(k), i),
    decreases bytes.len() - k - i,
{
    if k + i < bytes.len() && bytes[k + i] != 10 {
        line_end_shifts(bytes, k, i + 1);
        assert(k + i + 1 == k + (i + 1));
    }
}

proof fn log_lines_shift(bytes: Seq<u8>, k: int, i: int)
    requires
        0 <= k <= bytes.len(),
        0 <= i,
    ensures
        log_lines(bytes, k + i) == log_lines(bytes.skip(k), i),
    decreases bytes.len() - k - i,
{
    let rest = bytes.skip(k);
    if i < rest.len() {
        line_end_is_ahead(rest, i);
        line_end_is_ahead(bytes, k + i);
        line_end_shifts(bytes, k, i);
        let end = line_end(rest, i);
        assert(rest.subrange(i, end) =~= bytes.subrange(k + i, k + end));
        log_lines_shift(bytes, k, end);
    }
}

/// A log is read line by line: what stands before the first line break, decoded and
/// bare, comes first unless nothing is left of it, and the lines of what follows
/// come after it. What stands behind the last line break is a line too.
pub proof fn logs_are_read_line_by_line(line: Seq<u8>, rest: Seq<u8>)
    requires
        !line.contains(10u8),
    ensures
        ({
            let first = bare_line(lossy_text(line.push(10u8)));
            log_lines(line.push(10u8) + rest, 0) == if first.len() > 0 {
                seq![first] + log_lines(rest, 0)
            } else {
                log_lines(rest, 0)
            }
        }),
        line.len() > 0 ==> ({
            let last = bare_line(lossy_text(line));
            log_lines(line, 0) == if last.len() > 0 {
                seq![last]
            } else {
                Seq::<Seq<char>>::empty()
            }
        }),
        log_lines(Seq::empty(), 0) == Seq::<Seq<char>>::empty(),
{
    let n = line.len() as int;
    let all = line.push(10u8) + rest;
    assert(all[n] == 10);
    assert forall|j: int| 0 <= j < n implies all[j] != 10 by {
        assert(line.contains(line[j]));
    }
    line_ends_at_its_break(all, 0, n);
    assert(all.subrange(0, n + 1) =~= line.push(10u8));
    log_lines_shift(all, n + 1, 0);
    assert(all.skip(n + 1) =~= rest);
    let first = bare_line(lossy_text(line.push(10u8)));
    assert(log_lines(all, n + 1) == log_lines(rest, 0));
    assert(Seq::<Seq<char>>::empty() + log_lines(rest, 0) =~= log_lines(rest, 0));
    if n > 0 {
        assert forall|j: int| 0 <= j < n implies line[j] != 10 by {
            assert(line.contains(line[j]));
        }
        last_line_ends_with_the_bytes(line, 0);
        assert(line.subrange(0, n) =~= line);
        let last = bare_line(lossy_text(line));
        assert(log_lines(line, n) =~= Seq::<Seq<char>>::empty());
        assert(seq![last] + Seq::<Seq<char>>::empty() =~= seq![last]);
        assert(Seq::<Seq<char>>::empty() + Seq::<Seq<char>>::empty() =~= Seq::<
            Seq<char>,
        >::empty());
    }
}

proof fn stripped_of_its_end(s: Seq<char>, end: Seq<char>, c: char)
    requires
        forall|i: int| 0 <= i < end.len() ==> #[trigger] end[i] == c,
        s.len() > 0 ==> s.last() != c,
    ensures
        without(s + end, c) == s,
    decreases end.len(),
{
    if end.len() > 0 {
        assert((s + end).drop_last() =~= s + end.drop_last());
        assert((s + end).last() == end[end.len() - 1]);
        stripped_of_its_end(s, end.drop_last(), c);
    } else {
        assert(s + end =~= s);
    }
}

/// A line is bare without the line feeds at its end and the carriage returns before
/// them; the rest of it stays.
pub proof fn lines_lose_their_breaks(s: Seq<char>, carriage: Seq<char>, feeds: Seq<char>)
    requires
        s.len() > 0 ==> s.last() != '\n' && s.last() != '\r',
        forall|i: int| 0 <= i < carriage.len() ==> #[trigger] carriage[i] == '\r',
        forall|i: int| 0 <= i < feeds.len() ==> #[trigger] feeds[i] == '\n',
    ensures
        bare_line(s + carriage + feeds) == s,
{
    let t = s + carriage;
    if carriage.len() > 0 {
        assert(t.last() == carriage[carriage.len() - 1]);
    } else {
        assert(t =~= s);
    }
    stripped_of_its_end(t, feeds, '\n');
    stripped_of_its_end(s, carriage, '\r');
}

/// While a log is followed, a line comes out as soon as it is complete, without the
/// white space at its end, and not at all where nothing else is in it.
pub proof fn lines_come_when_complete(line: Seq<char>, rest: Seq<char>)
    requires
        !line.contains('\n'),
    ensures
        complete_lines(line) == Seq::<Seq<char>>::empty(),
        incomplete_line(line) == line,
        complete_lines(line.push('\n') + rest) == if text::trimmed_end(line).len() > 0 {
            seq![text::trimmed_end(line)] + complete_lines(rest)
        } else {
            complete_lines(rest)
        },
        incomplete_line(line.push('\n') + rest) == incomplete_line(rest),
{
    let trim = |l: Seq<char>| text::trimmed_end(l);
    let keep = |l: Seq<char>| l.len() > 0;
    split_without(line, '\n');
    let head = text::split_on(line, '\n').drop_last();
    assert(head =~= Seq::<Seq<char>>::empty());
    assert(head.map_values(trim) =~= Seq::<Seq<char>>::empty());
    assert(complete_lines(line) =~= Seq::<Seq<char>>::empty()) by {
        reveal(Seq::filter);
    }
    let a = line.push('\n');
    assert(a.drop_last() =~= line);
    let parts = text::split_on(a, '\n');
    assert(parts =~= seq![line, Seq::<char>::empty()]);
    split_of_sum(a, rest, '\n');
    assert(Seq::<char>::empty() + rest =~= rest);
    split_nonempty(rest, '\n');
    let others = text::split_on(rest, '\n');
    let all = text::split_on(a + rest, '\n');
    assert(parts.drop_last() =~= seq![line]);
    assert(all =~= seq![line] + others);
    assert(all.drop_last() =~= seq![line] + others.drop_last());
    let trimmed = text::trimmed_end(line);
    assert(all.drop_last().map_values(trim) =~= seq![trimmed] + others.drop_last().map_values(
        trim,
    ));
    Seq::filter_distributes_over_add(seq![trimmed], others.drop_last().map_values(trim), keep);
    let one = seq![trimmed];
    assert(one.filter(keep) =~= if trimmed.len() > 0 {
        one
    } else {
        Seq::empty()
    }) by {
        reveal(Seq::filter);
        assert(one.drop_last() =~= Seq::<Seq<char>>::empty());
        assert(one.drop_last().filter(keep) =~= Seq::<Seq<char>>::empty());
        assert(one.last() == trimmed);
    }
    assert(complete_lines(a + rest) =~= one.filter(keep) + complete_lines(rest));
}

/// What an agent says is printed line by line behind a mark; a tool is named with
/// what it was given, cut where that is long; its end is set apart by an empty
/// line; and nothing else is printed.
pub proof fn events_print_what_they_hold(e: StreamEvent, i: int)
    ensures
        e matches StreamEvent::AssistantText(t) ==> {
            &&& event_lines(e).len() == text::lines_of(t@).len()
            &&& 0 <= i < text::lines_of(t@).len() ==> event_lines(e)[i] == ">>> "@ + text::lines_of(
                t@,
            )[i]
        },
        e matches StreamEvent::ToolUse { name, input } ==> {
            &&& event_lines(e).len() == 1
            &&& text::occurs(event_lines(e)[0], name@)
            &&& input@.len() <= 120 ==> event_lines(e)[0] == "  [tool] "@ + name@ + ": "@ + input@
            &&& input@.len() > 120 ==> event_lines(e)[0] == "  [tool] "@ + name@ + ": "@ + (
            input@.take(120) + seq!['\u{2026}'])
        },
        e is Result ==> event_lines(e).len() == 2 && event_lines(e)[0].len() == 0,
        e is Skip ==> event_lines(e).len() == 0,
{
    reveal_strlit("");
    if let StreamEvent::ToolUse { name, input } = e {
        let line = event_lines(e)[0];
        let k = "  [tool] "@.len() as int;
        assert(line.subrange(k, k + name@.len()) =~= name@);
        assert(text::occurs_at(line, k, name@));
        assert(input@.take(120).push('\u{2026}') =~= input@.take(120) + seq!['\u{2026}']);
    }
}

/// The last line on an agent tells its outcome, and what is known of its cost, its
/// turns and its whole seconds; a dash stands for what is not known.
pub proof fn results_say_what_is_known(r: ResultEvent)
    ensures
        text::occurs(result_line(r), "RESULT: "@ + r.subtype@ + " | cost="@),
        r.total_cost matches Some(c) ==> text::occurs(result_line(r), " | cost=$"@ + c@ + " | turns="@),
        r.total_cost is None ==> text::occurs(result_line(r), " | cost=-"@ + " | turns="@),
        r.num_turns matches Some(n) ==> text::occurs(
            result_line(r),
            " | turns="@ + text::decimal(n as nat) + " | duration="@,
        ),
        r.num_turns is None ==> text::occurs(result_line(r), " | turns="@ + "-"@ + " | duration="@),
        r.duration_ms matches Some(ms) ==> forall|s: nat|
            s * 1000 <= ms < s * 1000 + 1000 ==> text::ends(
                result_line(r),
                " | duration="@ + #[trigger] text::decimal(s) + "s ==="@,
            ),
        r.duration_ms is None ==> text::ends(result_line(r), " | duration="@ + "- ==="@),
{
    let line = result_line(r);
    let cost = match r.total_cost {
        Some(c) => "$"@ + c@,
        None => "-"@,
    };
    let turns = match r.num_turns {
        Some(n) => text::decimal(n as nat),
        None => "-"@,
    };
    let duration = match r.duration_ms {
        Some(ms) => text::decimal((ms / 1000) as nat) + "s"@,
        None => "-"@,
    };
    reveal_strlit("=== RESULT: ");
    reveal_strlit("RESULT: ");
    reveal_strlit(" | cost=");
    reveal_strlit(" | cost=$");
    reveal_strlit(" | cost=-");
    reveal_strlit("$");
    reveal_strlit("-");
    reveal_strlit("s");
    reveal_strlit(" | turns=");
    reveal_strlit(" | duration=");
    reveal_strlit(" ===");
    reveal_strlit("s ===");
    reveal_strlit("- ===");
    let a = "RESULT: "@ + r.subtype@ + " | cost="@;
    assert(line.subrange(4, 4 + a.len() as int) =~= a);
    assert(text::occurs_at(line, 4, a));
    let at = 12 + r.subtype@.len() as int;
    match r.total_cost {
        Some(c) => {
            let b = " | cost=$"@ + c@ + " | turns="@;
            assert(line.subrange(at, at + b.len()) =~= b);
            assert(text::occurs_at(line, at, b));
        },
        None => {
            let b = " | cost=-"@ + " | turns="@;
            assert(line.subrange(at, at + b.len()) =~= b);
            assert(text::occurs_at(line, at, b));
        },
    }
    let at = at + 8 + cost.len();
    let b = " | turns="@ + turns + " | duration="@;
    assert(line.subrange(at, at + b.len()) =~= b);
    assert(text::occurs_at(line, at, b));
    match r.duration_ms {
        Some(ms) => {
            assert forall|s: nat| s * 1000 <= ms < s * 1000 + 1000 implies text::ends(
                line,
                " | duration="@ + #[trigger] text::decimal(s) + "s ==="@,
            ) by {
                assert(s == ms / 1000);
                let d = " | duration="@ + text::decimal(s) + "s ==="@;
                assert(line.subrange(line.len() - d.len(), line.len() as int) =~= d);
            }
        },
        None => {
            let d = " | duration="@ + "- ==="@;
            assert(line.subrange(line.len() - d.len(), line.len() as int) =~= d);
        },
    }
}

} // verus!
