//! The state of the switchboard and what each key does to it.

use vstd::prelude::*;
use crate::sessions::actions::{ActionAvailability, SessionActionState};
use crate::sessions::filter::{self, parse_status, SessionFilter, SessionGroupBy};
use crate::sessions::snapshot::{SessionRow, SessionSnapshot};
use crate::strmap::{self, copy_opt};
use crate::text::{self, concat, push_str, same, trim};
use crate::types::Status;

verus! {

/// A part of the filter.
#[derive(Clone, Copy, Debug, PartialEq, Eq, Structural)]
pub enum FilterField {
    Search,
    Task,
    WorkUnit,
    Branch,
    Provider,
    Status,
}

impl FilterField {
    pub open spec fn name(self) -> Seq<char> {
        match self {
            FilterField::Search => "search"@,
            FilterField::Task => "task"@,
            FilterField::WorkUnit => "work-unit"@,
            FilterField::Branch => "branch"@,
            FilterField::Provider => "provider"@,
            FilterField::Status => "status"@,
        }
    }

    pub fn label(self) -> (r: &'static str)
        ensures
            r@ == self.name(),
    {
        match self {
            FilterField::Search => "search",
            FilterField::Task => "task",
            FilterField::WorkUnit => "work-unit",
            FilterField::Branch => "branch",
            FilterField::Provider => "provider",
            FilterField::Status => "status",
        }
    }
}

/// A part of the filter being typed.
pub struct FilterEdit {
    pub field: FilterField,
    pub value: String,
}

impl FilterEdit {
    pub fn new(field: FilterField, value: Option<String>) -> (r: FilterEdit)
        ensures
            r.field == field,
            r.value@ == match value {
                Some(v) => v@,
                None => Seq::<char>::empty(),
            },
    {
        FilterEdit {
            field,
            value: match value {
                Some(v) => v,
                None => String::new(),
            },
        }
    }
}

/// An action that waits to be confirmed.
#[derive(Clone, Copy, Debug, PartialEq, Eq, Structural)]
pub enum PendingAction {
    Stop,
    Cleanup,
}

impl PendingAction {
    pub open spec fn name(self) -> Seq<char> {
        match self {
            PendingAction::Stop => "stop"@,
            PendingAction::Cleanup => "cleanup"@,
        }
    }

    pub fn label(self) -> (r: &'static str)
        ensures
            r@ == self.name(),
    {
        match self {
            PendingAction::Stop => "stop",
            PendingAction::Cleanup => "cleanup",
        }
    }
}

/// The switchboard.
pub struct SessionsApp {
    pub snapshot: SessionSnapshot,
    pub selected: usize,
    pub show_detail: bool,
    pub message: Option<String>,
    pub filter_input: Option<FilterEdit>,
    pub pending_confirmation: Option<PendingAction>,
}

/// The state of the switchboard apart from the sessions.
pub struct Board {
    pub selected: int,
    pub show_detail: bool,
    pub message: Option<Seq<char>>,
    pub edit: Option<(FilterField, Seq<char>)>,
    pub pending: Option<PendingAction>,
}

/// The filter as text.
pub struct Demands {
    pub task: Option<Seq<char>>,
    pub work_unit: Option<Seq<char>>,
    pub branch: Option<Seq<char>>,
    pub provider: Option<Seq<char>>,
    pub status: Option<Status>,
    pub search: Option<Seq<char>>,
    pub all: bool,
}

/// What the filter asks for.
pub open spec fn demands(f: SessionFilter) -> Demands {
    Demands {
        task: strmap::opt_view(f.task),
        work_unit: strmap::opt_view(f.work_unit),
        branch: strmap::opt_view(f.branch),
        provider: strmap::opt_view(f.provider),
        status: f.status,
        search: strmap::opt_view(f.search),
        all: f.all,
    }
}

/// The position of the first row from `i` on with the given name.
pub open spec fn position_of(rows: Seq<SessionRow>, id: Seq<char>, i: int) -> Option<int>
    decreases rows.len() - i,
{
    if i < 0 || i >= rows.len() {
        None
    } else if rows[i].id@ == id {
        Some(i)
    } else {
        position_of(rows, id, i + 1)
    }
}

fn find_row(rows: &Vec<SessionRow>, id: &str) -> (r: Option<usize>)
    ensures
        match position_of(rows@, id@, 0) {
            Some(i) => r matches Some(j) && j == i && i < rows@.len(),
            None => r is None,
        },
{
    let mut i: usize = 0;
    while i < rows.len()
        invariant
            i <= rows.len(),
            position_of(rows@, id@, 0) == position_of(rows@, id@, i as int),
        decreases rows.len() - i,
    {
        if same(rows[i].id.as_str(), id) {
            return Some(i);
        }
        i += 1;
    }
    None
}

/// A selection kept among `n` rows.
pub open spec fn clamped(selected: int, n: int) -> int {
    if n == 0 {
        0
    } else if selected >= n {
        n - 1
    } else {
        selected
    }
}

/// Where the selection is after the rows have changed: on the same session if
/// it is still there.
pub open spec fn settled(old_rows: Seq<SessionRow>, selected: int, rows: Seq<SessionRow>) -> int {
    let found = if 0 <= selected < old_rows.len() {
        position_of(rows, old_rows[selected].id@, 0)
    } else {
        None
    };
    clamped(
        match found {
            Some(i) => i,
            None => selected,
        },
        rows.len() as int,
    )
}

impl SessionsApp {
    pub open spec fn board(self) -> Board {
        Board {
            selected: self.selected as int,
            show_detail: self.show_detail,
            message: strmap::opt_view(self.message),
            edit: match self.filter_input {
                Some(e) => Some((e.field, e.value@)),
                None => None,
            },
            pending: self.pending_confirmation,
        }
    }

    /// The selection is on a row, if there is one.
    pub open spec fn wf(self) -> bool {
        self.selected < self.snapshot.rows@.len() || self.selected == 0
    }

    pub fn new(snapshot: SessionSnapshot) -> (r: SessionsApp)
        ensures
            r.wf(),
            r.snapshot == snapshot,
            r.board() == (Board {
                selected: 0,
                show_detail: false,
                message: None,
                edit: None,
                pending: None,
            }),
    {
        SessionsApp {
            snapshot,
            selected: 0,
            show_detail: false,
            message: None,
            filter_input: None,
            pending_confirmation: None,
        }
    }

    pub fn selected_row(&self) -> (r: Option<&SessionRow>)
        ensures
            match r {
                Some(row) => self.selected < self.snapshot.rows@.len() && *row
                    == self.snapshot.rows@[self.selected as int],
                None => self.selected >= self.snapshot.rows@.len(),
            },
    {
        if self.selected < self.snapshot.rows.len() {
            Some(&self.snapshot.rows[self.selected])
        } else {
            None
        }
    }

    pub fn selected_id(&self) -> (r: Option<String>)
        ensures
            strmap::opt_view(r) == if self.selected < self.snapshot.rows@.len() {
                Some(self.snapshot.rows@[self.selected as int].id@)
            } else {
                None
            },
    {
        match self.selected_row() {
            Some(row) => Some(row.id.clone()),
            None => None,
        }
    }

    pub fn clamp_selection(&mut self)
        ensures
            final(self).wf(),
            final(self).snapshot == old(self).snapshot,
            final(self).board() == (Board {
                selected: clamped(
                    old(self).selected as int,
                    old(self).snapshot.rows@.len() as int,
                ),
                ..old(self).board()
            }),
    {
        if self.snapshot.rows.len() == 0 {
            self.selected = 0;
        } else if self.selected >= self.snapshot.rows.len() {
            self.selected = self.snapshot.rows.len() - 1;
        }
    }

    pub fn move_down(&mut self)
        requires
            old(self).wf(),
        ensures
            final(self).wf(),
            final(self).snapshot == old(self).snapshot,
            final(self).board() == (Board {
                selected: below(old(self).selected as int, old(self).snapshot.rows@.len() as int),
                ..old(self).board()
            }),
    {
        let n: usize = self.snapshot.rows.len();
        if n > 0 {
            self.selected = if self.selected + 1 < n {
                self.selected + 1
            } else {
                n - 1
            };
        }
    }

    pub fn move_up(&mut self)
        ensures
            old(self).wf() ==> final(self).wf(),
            final(self).snapshot == old(self).snapshot,
            final(self).board() == (Board {
                selected: above(old(self).selected as int),
                ..old(self).board()
            }),
    {
        if self.selected > 0 {
            self.selected = self.selected - 1;
        }
    }

    /// Shows other sessions; the selection stays on its session if it can.
    pub fn set_snapshot(&mut self, snapshot: SessionSnapshot)
        ensures
            final(self).wf(),
            final(self).snapshot == snapshot,
            final(self).board() == (Board {
                selected: settled(
                    old(self).snapshot.rows@,
                    old(self).selected as int,
                    snapshot.rows@,
                ),
                ..old(self).board()
            }),
    {
        let previous = self.selected_id();
        self.snapshot = snapshot;
        if let Some(id) = previous {
            if let Some(i) = find_row(&self.snapshot.rows, id.as_str()) {
                self.selected = i;
            }
        }
        self.clamp_selection();
    }
}

/// The row below, or the last one.
pub open spec fn below(selected: int, n: int) -> int {
    if n == 0 {
        selected
    } else if selected + 1 < n {
        selected + 1
    } else {
        n - 1
    }
}

/// The row above, or the first one.
pub open spec fn above(selected: int) -> int {
    if selected > 0 {
        selected - 1
    } else {
        selected
    }
}

/// A session that is still listed stays selected.
pub proof fn refresh_keeps_selection(
    old_rows: Seq<SessionRow>,
    selected: int,
    rows: Seq<SessionRow>,
)
    requires
        0 <= selected < old_rows.len(),
        exists|i: int| 0 <= i < rows.len() && #[trigger] rows[i].id@ == old_rows[selected].id@,
    ensures
        0 <= settled(old_rows, selected, rows) < rows.len(),
        rows[settled(old_rows, selected, rows)].id@ == old_rows[selected].id@,
{
    let i = choose|i: int| 0 <= i < rows.len() && #[trigger] rows[i].id@ == old_rows[selected].id@;
    position_is_found(rows, old_rows[selected].id@, 0, i);
}

proof fn position_is_found(rows: Seq<SessionRow>, id: Seq<char>, from: int, i: int)
    requires
        0 <= from <= i < rows.len(),
        rows[i].id@ == id,
    ensures
        position_of(rows, id, from) matches Some(j) && from <= j < rows.len() && rows[j].id@ == id,
    decreases rows.len() - from,
{
    if rows[from].id@ != id {
        position_is_found(rows, id, from + 1, i);
    }
}

/// The text without surrounding space, or nothing if that is all there is.
pub open spec fn stripped(s: Seq<char>) -> Option<Seq<char>> {
    if text::trimmed(s).len() == 0 {
        None
    } else {
        Some(text::trimmed(s))
    }
}

pub fn optional_filter_value(value: &str) -> (r: Option<String>)
    ensures
        strmap::opt_view(r) == stripped(value@),
{
    let value = trim(value);
    if value.as_str().unicode_len() == 0 {
        None
    } else {
        Some(value)
    }
}

/// The filter with one text replaced.
pub open spec fn with_text(d: Demands, field: FilterField, v: Option<Seq<char>>) -> Demands {
    match field {
        FilterField::Search => Demands { search: v, ..d },
        FilterField::Task => Demands { task: v, ..d },
        FilterField::WorkUnit => Demands { work_unit: v, ..d },
        FilterField::Branch => Demands { branch: v, ..d },
        FilterField::Provider => Demands { provider: v, ..d },
        FilterField::Status => d,
    }
}

/// The filter after an edit, or why it is rejected.
pub open spec fn edited(d: Demands, field: FilterField, typed: Seq<char>) -> Result<
    Demands,
    Seq<char>,
> {
    let v = stripped(typed);
    match field {
        FilterField::Status => match v {
            None => Ok(Demands { status: None, ..d }),
            Some(s) => match filter::status_named(s) {
                Ok(status) => Ok(Demands { status: Some(status), ..d }),
                Err(e) => Err(e),
            },
        },
        _ => Ok(with_text(d, field, v)),
    }
}

/// What is said of an edit that was made.
pub open spec fn edit_message(field: FilterField, typed: Seq<char>) -> Seq<char> {
    match stripped(typed) {
        Some(v) => field.name() + " filter set to "@ + v,
        None => field.name() + " filter cleared"@,
    }
}

/// Takes over what was typed for a part of the filter.
pub fn apply_filter_edit(filter: &mut SessionFilter, edit: FilterEdit) -> (r: Result<String, String>)
    ensures
        match edited(demands(*old(filter)), edit.field, edit.value@) {
            Ok(d) => demands(*final(filter)) == d && (r matches Ok(m) && m@ == edit_message(
                edit.field,
                edit.value@,
            )),
            Err(e) => *final(filter) == *old(filter) && (r matches Err(m) && m@ == e),
        },
{
    let value = optional_filter_value(edit.value.as_str());
    let message = match &value {
        Some(v) => {
            let mut m = concat(edit.field.label(), " filter set to ");
            push_str(&mut m, v.as_str());
            m
        },
        None => concat(edit.field.label(), " filter cleared"),
    };
    match edit.field {
        FilterField::Search => {
            filter.search = value;
        },
        FilterField::Task => {
            filter.task = value;
        },
        FilterField::WorkUnit => {
            filter.work_unit = value;
        },
        FilterField::Branch => {
            filter.branch = value;
        },
        FilterField::Provider => {
            filter.provider = value;
        },
        FilterField::Status => match value {
            None => {
                filter.status = None;
            },
            Some(s) => match parse_status(s.as_str()) {
                Ok(status) => {
                    filter.status = Some(status);
                },
                Err(e) => {
                    return Err(e);
                },
            },
        },
    }
    Ok(message)
}

/// A key press.
#[derive(Clone, Copy, Debug, PartialEq, Eq, Structural)]
pub enum Key {
    Char(char),
    Enter,
    Esc,
    Backspace,
    Up,
    Down,
    Other,
}

/// What can be done with the selected session.
#[derive(Clone, Copy, Debug, PartialEq, Eq, Structural)]
pub enum Action {
    Logs,
    FollowLogs,
    Attach,
    Redirect,
    Resume,
    Stop,
    Cleanup,
}

/// What a key means.
#[derive(Clone, Copy, Debug, PartialEq, Eq, Structural)]
pub enum Meaning {
    Nothing,
    Quit,
    DropEdit,
    ApplyEdit,
    Erase,
    Type(char),
    Confirm(PendingAction),
    Decline(PendingAction),
    Down,
    Up,
    Details,
    Edit(FilterField),
    AllStatuses,
    Group,
    Refresh,
    Ask(Action),
}

/// What a key means while a filter is typed.
pub open spec fn meaning_editing(key: Key) -> Meaning {
    match key {
        Key::Esc => Meaning::DropEdit,
        Key::Enter => Meaning::ApplyEdit,
        Key::Backspace => Meaning::Erase,
        Key::Char(c) => Meaning::Type(c),
        _ => Meaning::Nothing,
    }
}

/// What a key means while an action waits to be confirmed.
pub open spec fn meaning_confirming(key: Key, pending: PendingAction) -> Meaning {
    match key {
        Key::Char(c) => if c == 'y' || c == 'Y' {
            Meaning::Confirm(pending)
        } else if c == 'n' || c == 'N' {
            Meaning::Decline(pending)
        } else {
            Meaning::Nothing
        },
        Key::Esc => Meaning::Decline(pending),
        _ => Meaning::Nothing,
    }
}

/// What a letter means while browsing.
pub open spec fn meaning_of_letter(c: char, control: bool) -> Meaning {
    if c == 'q' || (c == 'c' && control) {
        Meaning::Quit
    } else if c == 'j' {
        Meaning::Down
    } else if c == 'k' {
        Meaning::Up
    } else if c == 'i' {
        Meaning::Details
    } else if c == '/' {
        Meaning::Edit(FilterField::Search)
    } else if c == 't' {
        Meaning::Edit(FilterField::Task)
    } else if c == 'w' {
        Meaning::Edit(FilterField::WorkUnit)
    } else if c == 'b' {
        Meaning::Edit(FilterField::Branch)
    } else if c == 'p' {
        Meaning::Edit(FilterField::Provider)
    } else if c == 'S' {
        Meaning::Edit(FilterField::Status)
    } else if c == 'A' {
        Meaning::AllStatuses
    } else if c == 'g' {
        Meaning::Group
    } else if c == 'r' {
        Meaning::Refresh
    } else if c == 'l' {
        Meaning::Ask(Action::Logs)
    } else if c == 'f' {
        Meaning::Ask(Action::FollowLogs)
    } else if c == 'a' {
        Meaning::Ask(Action::Attach)
    } else if c == 'd' {
        Meaning::Ask(Action::Redirect)
    } else if c == 'R' {
        Meaning::Ask(Action::Resume)
    } else if c == 's' {
        Meaning::Ask(Action::Stop)
    } else if c == 'c' {
        Meaning::Ask(Action::Cleanup)
    } else {
        Meaning::Nothing
    }
}

/// What a key means.
pub open spec fn meaning(b: Board, key: Key, control: bool) -> Meaning {
    if b.edit is Some {
        meaning_editing(key)
    } else if b.pending is Some {
        meaning_confirming(key, b.pending->0)
    } else {
        match key {
            Key::Esc => Meaning::Quit,
            Key::Down => Meaning::Down,
            Key::Up => Meaning::Up,
            Key::Enter => Meaning::Details,
            Key::Char(c) => meaning_of_letter(c, control),
            _ => Meaning::Nothing,
        }
    }
}

fn read_letter(c: char, control: bool) -> (r: Meaning)
    ensures
        r == meaning_of_letter(c, control),
{
    match c {
        'q' => Meaning::Quit,
        'c' => if control {
            Meaning::Quit
        } else {
            Meaning::Ask(Action::Cleanup)
        },
        'j' => Meaning::Down,
        'k' => Meaning::Up,
        'i' => Meaning::Details,
        '/' => Meaning::Edit(FilterField::Search),
        't' => Meaning::Edit(FilterField::Task),
        'w' => Meaning::Edit(FilterField::WorkUnit),
        'b' => Meaning::Edit(FilterField::Branch),
        'p' => Meaning::Edit(FilterField::Provider),
        'S' => Meaning::Edit(FilterField::Status),
        'A' => Meaning::AllStatuses,
        'g' => Meaning::Group,
        'r' => Meaning::Refresh,
        'l' => Meaning::Ask(Action::Logs),
        'f' => Meaning::Ask(Action::FollowLogs),
        'a' => Meaning::Ask(Action::Attach),
        'd' => Meaning::Ask(Action::Redirect),
        'R' => Meaning::Ask(Action::Resume),
        's' => Meaning::Ask(Action::Stop),
        _ => Meaning::Nothing,
    }
}

fn read_key(app: &SessionsApp, key: Key, control: bool) -> (r: Meaning)
    ensures
        r == meaning(app.board(), key, control),
{
    if app.filter_input.is_some() {
        return match key {
            Key::Esc => Meaning::DropEdit,
            Key::Enter => Meaning::ApplyEdit,
            Key::Backspace => Meaning::Erase,
            Key::Char(c) => Meaning::Type(c),
            _ => Meaning::Nothing,
        };
    }
    if let Some(pending) = app.pending_confirmation {
        return match key {
            Key::Char(c) => match c {
                'y' => Meaning::Confirm(pending),
                'Y' => Meaning::Confirm(pending),
                'n' => Meaning::Decline(pending),
                'N' => Meaning::Decline(pending),
                _ => Meaning::Nothing,
            },
            Key::Esc => Meaning::Decline(pending),
            _ => Meaning::Nothing,
        };
    }
    match key {
        Key::Esc => Meaning::Quit,
        Key::Down => Meaning::Down,
        Key::Up => Meaning::Up,
        Key::Enter => Meaning::Details,
        Key::Char(c) => read_letter(c, control),
        _ => Meaning::Nothing,
    }
}

/// What the program around the switchboard has to do after a key.
#[derive(Clone, Copy, Debug, PartialEq, Eq, Structural)]
pub enum Request {
    Nothing,
    Quit,
    /// Load the sessions anew; failing to is an error.
    Reload,
    /// Carry the action out on the selected session. `reload` asks for the
    /// sessions to be loaded anew afterwards, if they can be.
    Perform { action: Action, reload: bool },
}

/// The availability of an action.
pub open spec fn availability(s: SessionActionState, a: Action) -> ActionAvailability {
    match a {
        Action::Logs => s.logs,
        Action::FollowLogs => s.follow_logs,
        Action::Attach => s.attach,
        Action::Redirect => s.redirect,
        Action::Resume => s.resume,
        Action::Stop => s.stop,
        Action::Cleanup => s.cleanup,
    }
}

fn availability_of(s: &SessionActionState, a: Action) -> (r: &ActionAvailability)
    ensures
        *r == availability(*s, a),
{
    match a {
        Action::Logs => &s.logs,
        Action::FollowLogs => &s.follow_logs,
        Action::Attach => &s.attach,
        Action::Redirect => &s.redirect,
        Action::Resume => &s.resume,
        Action::Stop => &s.stop,
        Action::Cleanup => &s.cleanup,
    }
}

/// The switchboard after an action was asked for, and what is to be done.
pub open spec fn asked(b: Board, rows: Seq<SessionRow>, a: Action) -> (Board, Request) {
    if !(0 <= b.selected < rows.len()) {
        (b, Request::Nothing)
    } else {
        let state = availability(rows[b.selected].actions, a);
        if !state.enabled {
            (Board { message: strmap::opt_view(state.reason), ..b }, Request::Nothing)
        } else if a == Action::Stop {
            (Board { pending: Some(PendingAction::Stop), ..b }, Request::Nothing)
        } else if a == Action::Cleanup {
            (Board { pending: Some(PendingAction::Cleanup), ..b }, Request::Nothing)
        } else {
            (b, Request::Perform { action: a, reload: a == Action::Resume })
        }
    }
}

/// A part of the filter as it is first shown for editing.
pub open spec fn current(d: Demands, field: FilterField) -> Seq<char> {
    let v = match field {
        FilterField::Search => d.search,
        FilterField::Task => d.task,
        FilterField::WorkUnit => d.work_unit,
        FilterField::Branch => d.branch,
        FilterField::Provider => d.provider,
        FilterField::Status => match d.status {
            Some(s) => Some(s.name()),
            None => None,
        },
    };
    match v {
        Some(v) => v,
        None => Seq::empty(),
    }
}

/// The switchboard, the filter and the grouping after a key, and what is to be
/// done.
pub open spec fn pressed(
    b: Board,
    rows: Seq<SessionRow>,
    d: Demands,
    g: SessionGroupBy,
    m: Meaning,
) -> (Board, Demands, SessionGroupBy, Request) {
    match m {
        Meaning::Nothing => (b, d, g, Request::Nothing),
        Meaning::Quit => (b, d, g, Request::Quit),
        Meaning::DropEdit => (Board { edit: None, ..b }, d, g, Request::Nothing),
        Meaning::ApplyEdit => {
            let (field, typed) = b.edit->0;
            match edited(d, field, typed) {
                Ok(new) => (
                    Board { edit: None, message: Some(edit_message(field, typed)), ..b },
                    new,
                    g,
                    Request::Reload,
                ),
                Err(e) => (
                    Board { edit: None, message: Some("filter rejected: "@ + e), ..b },
                    d,
                    g,
                    Request::Nothing,
                ),
            }
        },
        Meaning::Erase => {
            let (field, typed) = b.edit->0;
            let rest = if typed.len() == 0 {
                typed
            } else {
                typed.drop_last()
            };
            (Board { edit: Some((field, rest)), ..b }, d, g, Request::Nothing)
        },
        Meaning::Type(c) => {
            let (field, typed) = b.edit->0;
            (Board { edit: Some((field, typed.push(c))), ..b }, d, g, Request::Nothing)
        },
        Meaning::Confirm(p) => (
            Board { pending: None, ..b },
            d,
            g,
            if 0 <= b.selected < rows.len() {
                Request::Perform {
                    action: match p {
                        PendingAction::Stop => Action::Stop,
                        PendingAction::Cleanup => Action::Cleanup,
                    },
                    reload: true,
                }
            } else {
                Request::Nothing
            },
        ),
        Meaning::Decline(p) => (
            Board { pending: None, message: Some(p.name() + " cancelled"@), ..b },
            d,
            g,
            Request::Nothing,
        ),
        Meaning::Down => (
            Board { selected: below(b.selected, rows.len() as int), ..b },
            d,
            g,
            Request::Nothing,
        ),
        Meaning::Up => (Board { selected: above(b.selected), ..b }, d, g, Request::Nothing),
        Meaning::Details => (
            Board { show_detail: !b.show_detail, ..b },
            d,
            g,
            Request::Nothing,
        ),
        Meaning::Edit(field) => (
            Board { edit: Some((field, current(d, field))), ..b },
            d,
            g,
            Request::Nothing,
        ),
        Meaning::AllStatuses => (
            Board {
                message: Some(
                    "all statuses "@ + if d.all {
                        "hidden"@
                    } else {
                        "included"@
                    },
                ),
                ..b
            },
            Demands { all: !d.all, ..d },
            g,
            Request::Reload,
        ),
        Meaning::Group => (
            Board { message: Some("grouped by "@ + g.successor().name()), ..b },
            d,
            g.successor(),
            Request::Reload,
        ),
        Meaning::Refresh => (
            Board { message: Some("refreshed"@), ..b },
            d,
            g,
            Request::Reload,
        ),
        Meaning::Ask(a) => {
            let (b2, r) = asked(b, rows, a);
            (b2, d, g, r)
        },
    }
}

fn current_value(filter: &SessionFilter, field: FilterField) -> (r: Option<String>)
    ensures
        current(demands(*filter), field) == match r {
            Some(v) => v@,
            None => Seq::<char>::empty(),
        },
{
    match field {
        FilterField::Search => copy_opt(&filter.search),
        FilterField::Task => copy_opt(&filter.task),
        FilterField::WorkUnit => copy_opt(&filter.work_unit),
        FilterField::Branch => copy_opt(&filter.branch),
        FilterField::Provider => copy_opt(&filter.provider),
        FilterField::Status => match filter.status {
            Some(s) => Some(s.as_str().to_owned()),
            None => None,
        },
    }
}

fn ask(app: &mut SessionsApp, a: Action) -> (r: Request)
    ensures
        final(app).snapshot == old(app).snapshot,
        (final(app).board(), r) == asked(old(app).board(), old(app).snapshot.rows@, a),
{
    if app.selected >= app.snapshot.rows.len() {
        return Request::Nothing;
    }
    let state = availability_of(&app.snapshot.rows[app.selected].actions, a);
    if !state.enabled {
        app.message = copy_opt(&state.reason);
        return Request::Nothing;
    }
    if a == Action::Stop {
        app.pending_confirmation = Some(PendingAction::Stop);
        Request::Nothing
    } else if a == Action::Cleanup {
        app.pending_confirmation = Some(PendingAction::Cleanup);
        Request::Nothing
    } else {
        Request::Perform { action: a, reload: a == Action::Resume }
    }
}

fn without_last(s: &str) -> (r: String)
    ensures
        r@ == if s@.len() == 0 {
            s@
        } else {
            s@.drop_last()
        },
{
    let n: usize = s.unicode_len();
    if n == 0 {
        s.to_owned()
    } else {
        let r = text::take_chars(s, n - 1);
        proof {
            assert(s@.take(n - 1) =~= s@.drop_last());
        }
        r
    }
}

fn type_key(app: &mut SessionsApp, erase: bool, c: char)
    requires
        old(app).filter_input is Some,
    ensures
        final(app).snapshot == old(app).snapshot,
        ({
            let (field, typed) = old(app).board().edit->0;
            let new = if !erase {
                typed.push(c)
            } else if typed.len() == 0 {
                typed
            } else {
                typed.drop_last()
            };
            final(app).board() == (Board { edit: Some((field, new)), ..old(app).board() })
        }),
{
    match app.filter_input.take() {
        Some(edit) => {
            let value = if erase {
                without_last(edit.value.as_str())
            } else {
                let mut v = edit.value;
                v.push(c);
                v
            };
            app.filter_input = Some(FilterEdit { field: edit.field, value });
        },
        None => {},
    }
}

fn finish_edit(app: &mut SessionsApp, filter: &mut SessionFilter) -> (r: Request)
    requires
        old(app).filter_input is Some,
    ensures
        final(app).snapshot == old(app).snapshot,
        ({
            let (field, typed) = old(app).board().edit->0;
            match edited(demands(*old(filter)), field, typed) {
                Ok(d) => demands(*final(filter)) == d && r == Request::Reload && final(app).board()
                    == (Board {
                    edit: None,
                    message: Some(edit_message(field, typed)),
                    ..old(app).board()
                }),
                Err(e) => *final(filter) == *old(filter) && r == Request::Nothing && final(app).board()
                    == (Board {
                    edit: None,
                    message: Some("filter rejected: "@ + e),
                    ..old(app).board()
                }),
            }
        }),
{
    match app.filter_input.take() {
        Some(edit) => match apply_filter_edit(filter, edit) {
            Ok(message) => {
                app.message = Some(message);
                Request::Reload
            },
            Err(e) => {
                app.message = Some(concat("filter rejected: ", e.as_str()));
                Request::Nothing
            },
        },
        None => Request::Nothing,
    }
}

/// Takes a key press: changes the switchboard, the filter and the grouping, and
/// says what is to be done.
pub fn handle_key(
    key: Key,
    control: bool,
    app: &mut SessionsApp,
    filter: &mut SessionFilter,
    group: &mut SessionGroupBy,
) -> (r: Request)
    requires
        old(app).wf(),
    ensures
        final(app).wf(),
        final(app).snapshot == old(app).snapshot,
        (final(app).board(), demands(*final(filter)), *final(group), r) == pressed(
            old(app).board(),
            old(app).snapshot.rows@,
            demands(*old(filter)),
            *old(group),
            meaning(old(app).board(), key, control),
        ),
{
    match read_key(app, key, control) {
        Meaning::Nothing => Request::Nothing,
        Meaning::Quit => Request::Quit,
        Meaning::DropEdit => {
            app.filter_input = None;
            Request::Nothing
        },
        Meaning::ApplyEdit => finish_edit(app, filter),
        Meaning::Erase => {
            type_key(app, true, ' ');
            Request::Nothing
        },
        Meaning::Type(c) => {
            type_key(app, false, c);
            Request::Nothing
        },
        Meaning::Confirm(p) => {
            app.pending_confirmation = None;
            if app.selected < app.snapshot.rows.len() {
                let action = match p {
                    PendingAction::Stop => Action::Stop,
                    PendingAction::Cleanup => Action::Cleanup,
                };
                Request::Perform { action, reload: true }
            } else {
                Request::Nothing
            }
        },
        Meaning::Decline(p) => {
            app.pending_confirmation = None;
            app.message = Some(concat(p.label(), " cancelled"));
            Request::Nothing
        },
        Meaning::Down => {
            app.move_down();
            Request::Nothing
        },
        Meaning::Up => {
            app.move_up();
            Request::Nothing
        },
        Meaning::Details => {
            app.show_detail = !app.show_detail;
            Request::Nothing
        },
        Meaning::Edit(field) => {
            app.filter_input = Some(FilterEdit::new(field, current_value(filter, field)));
            Request::Nothing
        },
        Meaning::AllStatuses => {
            filter.all = !filter.all;
            app.message = Some(
                concat(
                    "all statuses ",
                    if filter.all {
                        "included"
                    } else {
                        "hidden"
                    },
                ),
            );
            Request::Reload
        },
        Meaning::Group => {
            *group = group.next();
            app.message = Some(concat("grouped by ", group.label()));
            Request::Reload
        },
        Meaning::Refresh => {
            app.message = Some("refreshed".to_owned());
            Request::Reload
        },
        Meaning::Ask(a) => ask(app, a),
    }
}

/// Nothing that ends or removes a dispatch is done without a confirmation: such
/// an action is asked for only while it waits to be confirmed, and by `y` alone.
pub proof fn destructive_actions_are_confirmed(
    b: Board,
    rows: Seq<SessionRow>,
    d: Demands,
    g: SessionGroupBy,
    key: Key,
    control: bool,
)
    ensures
        ({
            let r = pressed(b, rows, d, g, meaning(b, key, control)).3;
            (r == (Request::Perform { action: Action::Stop, reload: true }) || r == (
            Request::Perform { action: Action::Cleanup, reload: true }) || r == (
            Request::Perform { action: Action::Stop, reload: false }) || r == (
            Request::Perform { action: Action::Cleanup, reload: false })) ==> b.pending is Some
                && b.edit is None && (key == Key::Char('y') || key == Key::Char('Y'))
        }),
{
}

/// An action is carried out only on a session that allows it, or that was
/// confirmed.
pub proof fn actions_need_leave(
    b: Board,
    rows: Seq<SessionRow>,
    d: Demands,
    g: SessionGroupBy,
    key: Key,
    control: bool,
)
    ensures
        pressed(b, rows, d, g, meaning(b, key, control)).3 matches Request::Perform {
            action,
            ..
        } ==> 0 <= b.selected < rows.len() && (b.pending is Some || availability(
            rows[b.selected].actions,
            action,
        ).enabled),
{
}

/// While a filter is typed no key quits, and nothing is done to a session.
pub proof fn typing_is_harmless(
    b: Board,
    rows: Seq<SessionRow>,
    d: Demands,
    g: SessionGroupBy,
    key: Key,
    control: bool,
)
    requires
        b.edit is Some,
    ensures
        ({
            let r = pressed(b, rows, d, g, meaning(b, key, control)).3;
            r == Request::Nothing || r == Request::Reload
        }),
{
}

/// What comes of a key: the switchboard, the filter, the grouping and what is to be done.
pub open spec fn press(
    b: Board,
    rows: Seq<SessionRow>,
    d: Demands,
    g: SessionGroupBy,
    key: Key,
    control: bool,
) -> (Board, Demands, SessionGroupBy, Request) {
    pressed(b, rows, d, g, meaning(b, key, control))
}

/// While a filter is typed a letter is added to it, backspace takes one off, and escape
/// drops it with the old filter in place. Enter takes it over without the space around it:
/// it replaces that part of the filter and no other, or clears it where nothing was
/// typed, and the sessions are loaded anew; a status that is not known changes nothing.
pub proof fn typed_filters_are_taken_over(
    b: Board,
    rows: Seq<SessionRow>,
    d: Demands,
    g: SessionGroupBy,
    key: Key,
    control: bool,
)
    requires
        b.edit is Some,
    ensures
        ({
            let (b2, d2, g2, r) = press(b, rows, d, g, key, control);
            let (field, typed) = b.edit->0;
            let plain = text::trimmed(typed);
            let v = if plain.len() == 0 {
                None
            } else {
                Some(plain)
            };
            &&& g2 == g
            &&& b2.selected == b.selected && b2.pending == b.pending && b2.show_detail
                == b.show_detail
            &&& key matches Key::Char(c) ==> b2 == (Board {
                edit: Some((field, typed.push(c))),
                ..b
            }) && d2 == d && r == Request::Nothing
            &&& key == Key::Backspace && typed.len() > 0 ==> b2 == (Board {
                edit: Some((field, typed.take(typed.len() - 1))),
                ..b
            }) && d2 == d && r == Request::Nothing
            &&& key == Key::Esc ==> b2 == (Board { edit: None, ..b }) && d2 == d && r
                == Request::Nothing
            &&& key == Key::Enter ==> b2.edit is None
            &&& key == Key::Enter && field != FilterField::Status ==> r == Request::Reload
                && d2.status == d.status && d2.all == d.all && d2.search == (if field
                == FilterField::Search {
                v
            } else {
                d.search
            }) && d2.task == (if field == FilterField::Task {
                v
            } else {
                d.task
            }) && d2.work_unit == (if field == FilterField::WorkUnit {
                v
            } else {
                d.work_unit
            }) && d2.branch == (if field == FilterField::Branch {
                v
            } else {
                d.branch
            }) && d2.provider == (if field == FilterField::Provider {
                v
            } else {
                d.provider
            })
            &&& key == Key::Enter && field == FilterField::Status && v is None ==> r
                == Request::Reload && d2 == (Demands { status: None, ..d })
            &&& key == Key::Enter && field == FilterField::Status && v is Some ==> match
                Status::named(v->0) {
                Some(s) => r == Request::Reload && d2 == (Demands { status: Some(s), ..d }),
                None => r == Request::Nothing && d2 == d,
            }
        }),
{
    let (field, typed) = b.edit->0;
    if typed.len() > 0 {
        assert(typed.drop_last() =~= typed.take(typed.len() - 1));
    }
}

/// An action that waits to be confirmed is carried out on the selected session by `y`,
/// and dropped by `n` or escape; no other key does anything.
pub proof fn confirmations_are_answered(
    b: Board,
    rows: Seq<SessionRow>,
    d: Demands,
    g: SessionGroupBy,
    key: Key,
    control: bool,
)
    requires
        b.edit is None,
        b.pending is Some,
    ensures
        ({
            let (b2, d2, g2, r) = press(b, rows, d, g, key, control);
            let yes = key == Key::Char('y') || key == Key::Char('Y');
            let no = key == Key::Char('n') || key == Key::Char('N') || key == Key::Esc;
            &&& d2 == d && g2 == g
            &&& b2.selected == b.selected && b2.edit is None && b2.show_detail == b.show_detail
            &&& yes || no <==> b2.pending is None
            &&& yes && 0 <= b.selected < rows.len() ==> r == (Request::Perform {
                action: if b.pending->0 == PendingAction::Stop {
                    Action::Stop
                } else {
                    Action::Cleanup
                },
                reload: true,
            }) && b2.message == b.message
            &&& !yes || !(0 <= b.selected < rows.len()) ==> r == Request::Nothing
            &&& !yes && !no ==> b2 == b
        }),
{
}

/// While browsing, `q`, escape and control-c quit, and nothing else does. The arrows, `j`
/// and `k` move the selection by one row and never off the rows. Enter and `i` show or
/// hide the details. `A` shows or hides all statuses, `g` groups by what comes next, and
/// `r` loads the sessions anew, as the other two do.
pub proof fn browsing_keys_do_what_they_say(
    b: Board,
    rows: Seq<SessionRow>,
    d: Demands,
    g: SessionGroupBy,
    key: Key,
    control: bool,
)
    requires
        b.edit is None,
        b.pending is None,
        0 <= b.selected,
        b.selected < rows.len() || b.selected == 0,
    ensures
        ({
            let (b2, d2, g2, r) = press(b, rows, d, g, key, control);
            let quits = key == Key::Esc || key == Key::Char('q') || (key == Key::Char('c')
                && control);
            let down = key == Key::Down || key == Key::Char('j');
            let up = key == Key::Up || key == Key::Char('k');
            &&& quits <==> r == Request::Quit
            &&& quits ==> b2 == b && d2 == d && g2 == g
            &&& down ==> b2.selected == (if b.selected + 1 < rows.len() {
                b.selected + 1
            } else {
                b.selected
            })
            &&& up ==> b2.selected == (if b.selected >= 1 {
                b.selected - 1
            } else {
                0
            })
            &&& !down && !up ==> b2.selected == b.selected
            &&& down || up ==> b2 == (Board { selected: b2.selected, ..b }) && r
                == Request::Nothing
            &&& key == Key::Enter || key == Key::Char('i') ==> b2 == (Board {
                show_detail: !b.show_detail,
                ..b
            }) && r == Request::Nothing
            &&& key != Key::Enter && key != Key::Char('i') ==> b2.show_detail == b.show_detail
            &&& r == Request::Reload <==> key == Key::Char('A') || key == Key::Char('g') || key
                == Key::Char('r')
            &&& key == Key::Char('A') ==> d2 == (Demands { all: !d.all, ..d })
            &&& key != Key::Char('A') ==> d2 == d
            &&& key == Key::Char('g') ==> g2 == g.successor()
            &&& key != Key::Char('g') ==> g2 == g
        }),
{
}

/// While browsing, each part of the filter has its key, and is shown for editing as it
/// is.
pub proof fn filters_are_edited_as_they_are(
    b: Board,
    rows: Seq<SessionRow>,
    d: Demands,
    g: SessionGroupBy,
    key: Key,
    control: bool,
)
    requires
        b.edit is None,
        b.pending is None,
    ensures
        ({
            let (b2, d2, g2, r) = press(b, rows, d, g, key, control);
            let given = |v: Option<Seq<char>>|
                match v {
                    Some(s) => s,
                    None => Seq::<char>::empty(),
                };
            let edits = |field: FilterField, v: Option<Seq<char>>|
                b2 == (Board { edit: Some((field, given(v))), ..b }) && r == Request::Nothing;
            &&& key == Key::Char('/') ==> edits(FilterField::Search, d.search)
            &&& key == Key::Char('t') ==> edits(FilterField::Task, d.task)
            &&& key == Key::Char('w') ==> edits(FilterField::WorkUnit, d.work_unit)
            &&& key == Key::Char('b') ==> edits(FilterField::Branch, d.branch)
            &&& key == Key::Char('p') ==> edits(FilterField::Provider, d.provider)
            &&& key == Key::Char('S') ==> edits(
                FilterField::Status,
                match d.status {
                    Some(s) => Some(s.name()),
                    None => None,
                },
            )
            &&& b2.edit is Some ==> key == Key::Char('/') || key == Key::Char('t') || key
                == Key::Char('w') || key == Key::Char('b') || key == Key::Char('p') || key
                == Key::Char('S')
        }),
{
}

/// While browsing, each action has its key. What the selected session does not allow is
/// not done, and why is said; stopping and cleaning up wait to be confirmed, all else is
/// done at once, and a resumed session is loaded anew.
pub proof fn actions_have_their_keys(
    b: Board,
    rows: Seq<SessionRow>,
    d: Demands,
    g: SessionGroupBy,
    key: Key,
)
    requires
        b.edit is None,
        b.pending is None,
        0 <= b.selected < rows.len(),
    ensures
        ({
            let (b2, d2, g2, r) = press(b, rows, d, g, key, false);
            let can = rows[b.selected].actions;
            let refused = |a: ActionAvailability|
                r == Request::Nothing && b2 == (Board {
                    message: strmap::opt_view(a.reason),
                    ..b
                });
            let done = |a: Action| b2 == b && r == (Request::Perform { action: a, reload: false });
            &&& key == Key::Char('l') ==> if can.logs.enabled {
                done(Action::Logs)
            } else {
                refused(can.logs)
            }
            &&& key == Key::Char('f') ==> if can.follow_logs.enabled {
                done(Action::FollowLogs)
            } else {
                refused(can.follow_logs)
            }
            &&& key == Key::Char('a') ==> if can.attach.enabled {
                done(Action::Attach)
            } else {
                refused(can.attach)
            }
            &&& key == Key::Char('d') ==> if can.redirect.enabled {
                done(Action::Redirect)
            } else {
                refused(can.redirect)
            }
            &&& key == Key::Char('R') ==> if can.resume.enabled {
                b2 == b && r == (Request::Perform { action: Action::Resume, reload: true })
            } else {
                refused(can.resume)
            }
            &&& key == Key::Char('s') ==> if can.stop.enabled {
                r == Request::Nothing && b2 == (Board { pending: Some(PendingAction::Stop), ..b })
            } else {
                refused(can.stop)
            }
            &&& key == Key::Char('c') ==> if can.cleanup.enabled {
                r == Request::Nothing && b2 == (Board {
                    pending: Some(PendingAction::Cleanup),
                    ..b
                })
            } else {
                refused(can.cleanup)
            }
        }),
{
}

} // verus!
