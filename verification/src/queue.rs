//! Work that waits to be dispatched.

use vstd::prelude::*;
use crate::strmap::{self, StrMap};
use crate::text::{self, concat, contains_char, cut, lines, same, starts_with, trim};
use crate::types::Directive;

verus! {

/// What kind of input an item holds.
#[derive(Clone, Copy, Debug, PartialEq, Eq, Structural)]
pub enum QueueInputType {
    Task,
    Template,
    Prompt,
}

impl QueueInputType {
    pub open spec fn name(self) -> Seq<char> {
        match self {
            QueueInputType::Task => "task"@,
            QueueInputType::Template => "template"@,
            QueueInputType::Prompt => "prompt"@,
        }
    }

    pub fn as_str(self) -> (r: &'static str)
        ensures
            r@ == self.name(),
    {
        match self {
            QueueInputType::Task => "task",
            QueueInputType::Template => "template",
            QueueInputType::Prompt => "prompt",
        }
    }
}

/// How soon an item is dispatched.
#[derive(Clone, Copy, Debug, PartialEq, Eq, Structural)]
pub enum Priority {
    Critical,
    High,
    Medium,
    Low,
}

impl Priority {
    pub open spec fn name(self) -> Seq<char> {
        match self {
            Priority::Critical => "critical"@,
            Priority::High => "high"@,
            Priority::Medium => "medium"@,
            Priority::Low => "low"@,
        }
    }

    pub fn as_str(self) -> (r: &'static str)
        ensures
            r@ == self.name(),
    {
        match self {
            Priority::Critical => "critical",
            Priority::High => "high",
            Priority::Medium => "medium",
            Priority::Low => "low",
        }
    }

    /// The priority with the given name.
    pub open spec fn named(s: Seq<char>) -> Option<Priority> {
        if s == "critical"@ {
            Some(Priority::Critical)
        } else if s == "high"@ {
            Some(Priority::High)
        } else if s == "medium"@ {
            Some(Priority::Medium)
        } else if s == "low"@ {
            Some(Priority::Low)
        } else {
            None
        }
    }

    pub fn parse(s: &str) -> (r: Option<Priority>)
        ensures
            r == Priority::named(s@),
    {
        if same(s, "critical") {
            Some(Priority::Critical)
        } else if same(s, "high") {
            Some(Priority::High)
        } else if same(s, "medium") {
            Some(Priority::Medium)
        } else if same(s, "low") {
            Some(Priority::Low)
        } else {
            None
        }
    }
}

/// An item to be put into a queue.
pub struct EnqueueItem {
    pub queue_name: String,
    pub input_type: QueueInputType,
    pub input_value: String,
    pub mode: Option<String>,
    pub priority: Priority,
    pub params: Option<String>,
    pub enqueued_by: Option<String>,
}

/// An item in a queue. Its priority is missing where it is none that is known.
pub struct QueueRow {
    pub id: String,
    pub input_type: QueueInputType,
    pub input_value: String,
    pub mode: Option<String>,
    pub priority: Option<Priority>,
    pub status: String,
    pub params: Option<String>,
}

/// What came of putting an item into a queue.
pub enum EnqueueResult {
    Enqueued { id: String },
    Skipped(String),
}

/// What a line of input stands for. `task` and `prompt` name the kind of what
/// follows; without them a path is a task, another single word a template, and
/// anything else a prompt.
pub open spec fn input_of(line: Seq<char>) -> (QueueInputType, Seq<char>) {
    let word = text::head(line, ' ');
    match text::rest(line, ' ') {
        Some(value) => if word == "task"@ {
            (QueueInputType::Task, value)
        } else {
            (
                QueueInputType::Prompt,
                if word == "prompt"@ {
                    value
                } else {
                    line
                },
            )
        },
        None => if word == "task"@ || word == "prompt"@ {
            (QueueInputType::Prompt, line)
        } else if line.contains('/') {
            (QueueInputType::Task, line)
        } else {
            (QueueInputType::Template, line)
        },
    }
}

/// Parse a single input line into (type, value).
pub fn parse_input_line(line: &str) -> (r: (QueueInputType, String))
    ensures
        (r.0, r.1@) == input_of(line@),
{
    let (word, rest) = cut(line, ' ');
    match rest {
        Some(value) => if same(word.as_str(), "task") {
            (QueueInputType::Task, value)
        } else if same(word.as_str(), "prompt") {
            (QueueInputType::Prompt, value)
        } else {
            (QueueInputType::Prompt, line.to_owned())
        },
        None => if same(word.as_str(), "task") || same(word.as_str(), "prompt") {
            (QueueInputType::Prompt, line.to_owned())
        } else if contains_char(line, '/') {
            (QueueInputType::Task, line.to_owned())
        } else {
            (QueueInputType::Template, line.to_owned())
        },
    }
}

/// The lines of a text, trimmed, without those that are blank.
pub open spec fn filled_lines(s: Seq<char>) -> Seq<Seq<char>> {
    text::lines_of(s).map_values(|l: Seq<char>| text::trimmed(l)).filter(
        |l: Seq<char>| l.len() > 0,
    )
}

/// The task slugs in the output of a query: one on a line.
pub fn slugs_of(stdout: &str) -> (r: Vec<String>)
    ensures
        text::views(r@) == filled_lines(stdout@),
{
    let all_lines = lines(stdout);
    let ghost all = text::lines_of(stdout@).map_values(|l: Seq<char>| text::trimmed(l));
    let ghost keep = |l: Seq<char>| l.len() > 0;
    let mut out: Vec<String> = Vec::new();
    let mut i: usize = 0;
    proof {
        reveal(Seq::filter);
        assert(all.len() == all_lines@.len());
        assert(all.take(0) =~= Seq::empty());
        assert(text::views(out@) =~= all.take(0).filter(keep));
    }
    while i < all_lines.len()
        invariant
            i <= all_lines.len(),
            text::views(all_lines@) == text::lines_of(stdout@),
            all == text::lines_of(stdout@).map_values(|l: Seq<char>| text::trimmed(l)),
            keep == (|l: Seq<char>| l.len() > 0),
            text::views(out@) == all.take(i as int).filter(keep),
        decreases all_lines.len() - i,
    {
        let line = trim(all_lines[i].as_str());
        proof {
            reveal(Seq::filter);
            assert(text::views(all_lines@)[i as int] == all_lines@[i as int]@);
            assert(all[i as int] == line@);
            assert(all.take(i + 1).drop_last() =~= all.take(i as int));
            assert(all.take(i + 1).last() == line@);
        }
        if line.as_str().unicode_len() > 0 {
            proof {
                text::views_push(out@, line);
            }
            out.push(line);
        }
        i += 1;
    }
    proof {
        assert(all.take(i as int) =~= all);
    }
    out
}

/// A line that stands for nothing: a blank one or a comment.
pub open spec fn is_skipped(line: Seq<char>) -> bool {
    line.len() == 0 || text::starts(line, "#"@)
}

pub fn skips(line: &str) -> (r: bool)
    ensures
        r == is_skipped(line@),
{
    line.unicode_len() == 0 || starts_with(line, "#")
}

/// What `serde_json` reads as an object of texts, or nothing where the text is
/// none.
pub uninterp spec fn json_texts(s: Seq<char>) -> Option<Map<Seq<char>, Seq<char>>>;

/// The view of an optional map.
pub open spec fn opt_map(o: Option<StrMap>) -> Option<Map<Seq<char>, Seq<char>>> {
    match o {
        Some(m) => Some(m@),
        None => None,
    }
}

/// `serde_json::to_string` on a map of texts. A map whose keys are texts can always
/// be written, and reading the text gives the map back. In which order it is
/// written is left open.
#[verifier::external_body]
fn write_json_texts(m: &StrMap) -> (r: String)
    ensures
        json_texts(r@) == Some(m@),
{
    let map: std::collections::HashMap<String, String> = m.entries.iter().cloned().collect();
    serde_json::to_string(&map).unwrap_or_default()
}

/// `serde_json::from_str` into a map of texts: what it reads is named, not
/// described.
#[verifier::external_body]
fn read_json_texts(s: &str) -> (r: Option<StrMap>)
    ensures
        opt_map(r) == json_texts(s@),
{
    let read: Option<std::collections::HashMap<String, String>> = serde_json::from_str(s).ok();
    read.map(|m| StrMap { entries: m.into_iter().collect() })
}

/// The parameters of an item as they are stored: nothing for none.
pub fn store_params(params: &StrMap) -> (r: Option<String>)
    ensures
        r is None <==> params.entries@.len() == 0,
        r matches Some(s) ==> json_texts(s@) == Some(params@),
        params_stored(strmap::opt_view(r)) == params@,
{
    if params.entries.len() == 0 {
        return None;
    }
    Some(write_json_texts(params))
}

/// The parameters that a read gave: none where nothing could be read.
pub open spec fn or_none(read: Option<Map<Seq<char>, Seq<char>>>) -> Map<Seq<char>, Seq<char>> {
    match read {
        Some(m) => m,
        None => Map::empty(),
    }
}

/// The parameters of an item as they were stored.
pub open spec fn params_stored(stored: Option<Seq<char>>) -> Map<Seq<char>, Seq<char>> {
    match stored {
        Some(s) => or_none(json_texts(s)),
        None => Map::empty(),
    }
}

/// Takes over what was read of the stored parameters.
pub fn accept_params(read: Option<StrMap>) -> (r: StrMap)
    ensures
        r@ == or_none(opt_map(read)),
{
    match read {
        Some(m) => m,
        None => StrMap::new(),
    }
}

pub fn load_params(stored: &Option<String>) -> (r: StrMap)
    ensures
        r@ == params_stored(strmap::opt_view(*stored)),
{
    match stored {
        Some(s) => accept_params(read_json_texts(s.as_str())),
        None => StrMap::new(),
    }
}

/// The item is the given work, asked for by a source.
pub open spec fn is_source_item(
    item: EnqueueItem,
    queue: Seq<char>,
    source: Seq<char>,
    kind: QueueInputType,
    value: Seq<char>,
) -> bool {
    &&& item.queue_name@ == queue
    &&& item.input_type == kind
    &&& item.input_value@ == value
    &&& item.mode is None
    &&& item.priority == Priority::Medium
    &&& item.params is None
    &&& strmap::opt_view(item.enqueued_by) == Some("source:"@ + source)
}

/// An item that a source asks for.
pub fn source_item(queue: &str, source: &str, kind: QueueInputType, value: String) -> (r:
    EnqueueItem)
    ensures
        is_source_item(r, queue@, source@, kind, value@),
{
    EnqueueItem {
        queue_name: queue.to_owned(),
        input_type: kind,
        input_value: value,
        mode: None,
        priority: Priority::Medium,
        params: None,
        enqueued_by: Some(concat("source:", source)),
    }
}

/// The directive that an item asks for, if it is one that is known.
pub open spec fn asked_directive(mode: Option<Seq<char>>) -> Option<Directive> {
    match mode {
        Some(m) => Directive::named(m),
        None => None,
    }
}

pub fn directive_of(mode: &Option<String>) -> (r: Option<Directive>)
    ensures
        r == asked_directive(strmap::opt_view(*mode)),
{
    match mode {
        Some(m) => Directive::parse(m.as_str()),
        None => None,
    }
}

proof fn word_is(word: Seq<char>, value: Seq<char>)
    requires
        !word.contains(' '),
    ensures
        text::head(word + " "@ + value, ' ') == word,
        text::rest(word + " "@ + value, ' ') == Some(value),
{
    reveal_strlit(" ");
    let line = word + " "@ + value;
    let n = word.len() as int;
    assert forall|i: int| 0 <= i < n implies line[i] != ' ' by {
        assert(line[i] == word[i]);
        if word[i] == ' ' {
            assert(word.contains(' '));
        }
    }
    assert(line[n] == ' ');
    text::head_len_is(line, ' ', n);
    assert(line.take(n) =~= word);
    assert(line.skip(n + 1) =~= value);
}

/// `task` and `prompt` say what follows. Of any other line a single word is a task if it
/// is a path and a template if it is not, and several words are a prompt as they stand.
pub proof fn inputs_say_what_they_are(value: Seq<char>)
    ensures
        input_of("task "@ + value) == (QueueInputType::Task, value),
        input_of("prompt "@ + value) == (QueueInputType::Prompt, value),
        !value.contains(' ') && value != "task"@ && value != "prompt"@ ==> input_of(value) == (
            if value.contains('/') {
                QueueInputType::Task
            } else {
                QueueInputType::Template
            },
            value,
        ),
        value.contains(' ') && !text::starts(value, "task "@) && !text::starts(value, "prompt "@)
            ==> input_of(value) == (QueueInputType::Prompt, value),
{
    reveal_strlit("task ");
    reveal_strlit("task");
    reveal_strlit("prompt ");
    reveal_strlit("prompt");
    reveal_strlit(" ");
    assert("task"@.len() != "prompt"@.len());
    assert(!"task"@.contains(' '));
    assert(!"prompt"@.contains(' '));
    assert("task "@ + value =~= "task"@ + " "@ + value);
    assert("prompt "@ + value =~= "prompt"@ + " "@ + value);
    word_is("task"@, value);
    word_is("prompt"@, value);
    if !value.contains(' ') {
        assert forall|i: int| 0 <= i < value.len() implies value[i] != ' ' by {
            if value[i] == ' ' {
                assert(value.contains(' '));
            }
        }
        text::head_len_is(value, ' ', value.len() as int);
        assert(value.take(value.len() as int) =~= value);
    } else {
        first_space(value, 0);
        let n = text::head_len(value, ' ');
        let word = text::head(value, ' ');
        let more = value.skip(n + 1);
        assert(value =~= word + " "@ + more);
        if word == "task"@ {
            assert(value.subrange(0, 5) =~= "task "@);
        }
        if word == "prompt"@ {
            assert(value.subrange(0, 7) =~= "prompt "@);
        }
    }
}

proof fn first_space(s: Seq<char>, from: int)
    requires
        0 <= from <= s.len(),
        s.contains(' '),
        forall|i: int| 0 <= i < from ==> s[i] != ' ',
    ensures
        0 <= text::head_len(s, ' ') < s.len(),
        s[text::head_len(s, ' ')] == ' ',
    decreases s.len() - from,
{
    if from < s.len() && s[from] == ' ' {
        text::head_len_is(s, ' ', from);
    } else {
        if from == s.len() {
            let i = choose|i: int| 0 <= i < s.len() && s[i] == ' ';
            assert(s[i] != ' ');
        }
        first_space(s, from + 1);
    }
}

/// Every line that is not blank is a slug without the space around it, and nothing else
/// is.
pub proof fn lines_are_slugs(s: Seq<char>, slug: Seq<char>)
    ensures
        filled_lines(s).contains(slug) <==> slug.len() > 0 && exists|i: int|
            0 <= i < text::lines_of(s).len() && text::trimmed(#[trigger] text::lines_of(s)[i])
                == slug,
{
    let all = text::lines_of(s).map_values(|l: Seq<char>| text::trimmed(l));
    let keep = |l: Seq<char>| l.len() > 0;
    let kept = all.filter(keep);
    if kept.contains(slug) {
        let k = choose|k: int| 0 <= k < kept.len() && kept[k] == slug;
        all.lemma_filter_pred(keep, k);
        all.lemma_filter_contains_rev(keep, slug);
        let i = choose|i: int| 0 <= i < all.len() && all[i] == slug;
        assert(text::trimmed(text::lines_of(s)[i]) == slug);
    }
    if slug.len() > 0 && exists|i: int|
        0 <= i < text::lines_of(s).len() && text::trimmed(#[trigger] text::lines_of(s)[i])
            == slug {
        let i = choose|i: int|
            0 <= i < text::lines_of(s).len() && text::trimmed(#[trigger] text::lines_of(s)[i])
                == slug;
        assert(all[i] == slug);
        all.lemma_filter_contains(keep, i);
    }
}

/// Each priority and each kind of input has the name that it is stored under, and is
/// read back from it.
pub proof fn priorities_are_known_by_their_names(p: Priority, k: QueueInputType, name: Seq<char>)
    ensures
        Priority::named(name) == Some(p) ==> name == p.name(),
        p == Priority::Critical ==> p.name() == "critical"@,
        p == Priority::High ==> p.name() == "high"@,
        p == Priority::Medium ==> p.name() == "medium"@,
        p == Priority::Low ==> p.name() == "low"@,
        k == QueueInputType::Task ==> k.name() == "task"@,
        k == QueueInputType::Template ==> k.name() == "template"@,
        k == QueueInputType::Prompt ==> k.name() == "prompt"@,
{
}

/// An item asks for a directive where its mode is the name of one, and for no other
/// than the one that it names. Without a mode it asks for none.
pub proof fn modes_name_directives(d: Directive, mode: Seq<char>)
    ensures
        asked_directive(Some(d.name())) == Some(d),
        asked_directive(None) is None,
        asked_directive(Some(mode)) matches Some(found) ==> found.name() == mode,
{
    d.parse_undoes_as_str();
}

} // verus!
