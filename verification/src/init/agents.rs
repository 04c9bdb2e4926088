//! Coding agents and how the skills of a project are wired into them.

use vstd::prelude::*;
use crate::dispatch::list_contains;
use crate::paths::{self, is_absolute, split_path};
use crate::strmap;
use crate::tables::{self, render_framed_table};
use crate::text::{self, concat, join, push_str, same, write_u64};

verus! {

/// The file that marks a directory as a copy that may be renewed.
pub const COPY_MARKER_FILENAME: &'static str = ".atc-skills-managed";

/// What the marker file holds.
pub const COPY_MARKER_BODY: &'static str = "atc init copy-mode marker; do not edit\n";

/// Description of one supported coding agent.
pub struct AgentEntry {
    /// The name used on the command line.
    pub name: String,
    /// Where its skills are looked for, seen from the project.
    pub target_dir: String,
    /// The directory that the target lies in.
    pub parent_dir: String,
    pub description: String,
}

impl AgentEntry {
    /// The entry is that of the agent with the given name, which looks for its
    /// skills in a hidden directory of that name.
    pub open spec fn is_of(self, name: Seq<char>, description: Seq<char>) -> bool {
        &&& self.name@ == name
        &&& self.target_dir@ == "."@ + name + "/skills/atc"@
        &&& self.parent_dir@ == "."@ + name + "/skills"@
        &&& self.description@ == description
    }

    /// The two entries say the same.
    pub open spec fn same(self, other: AgentEntry) -> bool {
        &&& self.name@ == other.name@
        &&& self.target_dir@ == other.target_dir@
        &&& self.parent_dir@ == other.parent_dir@
        &&& self.description@ == other.description@
    }

    fn build(name: &str, description: String) -> (r: AgentEntry)
        ensures
            r.is_of(name@, description@),
    {
        let hidden = concat(".", name);
        AgentEntry {
            name: name.to_owned(),
            target_dir: concat(hidden.as_str(), "/skills/atc"),
            parent_dir: concat(hidden.as_str(), "/skills"),
            description,
        }
    }

    pub fn copy(&self) -> (r: AgentEntry)
        ensures
            r.same(*self),
    {
        AgentEntry {
            name: self.name.clone(),
            target_dir: self.target_dir.clone(),
            parent_dir: self.parent_dir.clone(),
            description: self.description.clone(),
        }
    }
}

/// The agent that a project is made for: its name on the command line, and what
/// the product is called.
pub struct Vendor {
    pub name: String,
    pub product: String,
}

/// All agents that can be wired: the vendor's, and after it the directory that
/// agents share by convention.
pub open spec fn is_registry(r: Seq<AgentEntry>, vendor: Vendor) -> bool {
    &&& r.len() == 2
    &&& r[0].is_of(vendor.name@, vendor.product@ + " skills directory"@)
    &&& r[1].is_of("agents"@, "Generic .agents/ skills convention"@)
}

pub fn agent_registry(vendor: &Vendor) -> (r: Vec<AgentEntry>)
    ensures
        is_registry(r@, *vendor),
{
    let description = concat(vendor.product.as_str(), " skills directory");
    vec![
        AgentEntry::build(vendor.name.as_str(), description),
        AgentEntry::build("agents", "Generic .agents/ skills convention".to_owned()),
    ]
}

/// The position of the first agent, from `i` on, with the given name.
pub open spec fn agent_at(all: Seq<AgentEntry>, name: Seq<char>, i: int) -> Option<int>
    decreases all.len() - i,
{
    if i < 0 || i >= all.len() {
        None
    } else if all[i].name@ == name {
        Some(i)
    } else {
        agent_at(all, name, i + 1)
    }
}

/// Look up an agent by name.
pub fn find_agent<'a>(all: &'a Vec<AgentEntry>, name: &str) -> (r: Option<&'a AgentEntry>)
    ensures
        match agent_at(all@, name@, 0) {
            Some(i) => 0 <= i < all@.len() && r == Some(&all@[i]),
            None => r is None,
        },
{
    let mut i: usize = 0;
    while i < all.len()
        invariant
            i <= all.len(),
            agent_at(all@, name@, 0) == agent_at(all@, name@, i as int),
        decreases all.len() - i,
    {
        if same(all[i].name.as_str(), name) {
            return Some(&all[i]);
        }
        i += 1;
    }
    None
}

/// An agent is found in the registry under the vendor's name and under `agents`, and
/// under no other name.
pub proof fn registered_names_are_exact(all: Seq<AgentEntry>, vendor: Vendor, name: Seq<char>)
    requires
        is_registry(all, vendor),
    ensures
        agent_at(all, name, 0) is Some <==> name == vendor.name@ || name == "agents"@,
        agent_at(all, name, 0) matches Some(i) ==> 0 <= i < all.len() && all[i].name@ == name,
{
    reveal_with_fuel(agent_at, 3);
}

/// Every agent that is listed can be found by its name.
pub proof fn agents_are_found_by_name(all: Seq<AgentEntry>, i: int)
    requires
        0 <= i < all.len(),
    ensures
        agent_at(all, all[i].name@, 0) matches Some(j) && 0 <= j <= i && all[j].name@
            == all[i].name@,
{
    found_from(all, i, 0);
}

proof fn found_from(all: Seq<AgentEntry>, i: int, from: int)
    requires
        0 <= from <= i < all.len(),
    ensures
        agent_at(all, all[i].name@, from) matches Some(j) && from <= j <= i && all[j].name@
            == all[i].name@,
    decreases i - from,
{
    if all[from].name@ != all[i].name@ {
        found_from(all, i, from + 1);
    }
}

/// The error for an agent that is not known.
pub fn unknown_agent_message(name: &str) -> (r: String)
    ensures
        r@ == "unknown agent '"@ + name@
            + "'. Run 'atc init --list-agents' for supported agents."@,
{
    let mut out = concat("unknown agent '", name);
    push_str(&mut out, "'. Run 'atc init --list-agents' for supported agents.");
    out
}

/// The error where the project has no skills yet.
pub fn no_skills_message(skills: &str) -> (r: String)
    ensures
        r@ == skills@ + " does not exist. Run 'atc init' first to scaffold .atc/."@,
{
    concat(skills, " does not exist. Run 'atc init' first to scaffold .atc/.")
}

/// How agents are wired.
#[derive(Clone, Copy, Debug, PartialEq, Eq, Structural)]
pub struct AgentOpts {
    /// Replace a link that points elsewhere. User content is never replaced.
    pub force: bool,
    /// Copy files instead of linking to them.
    pub copy: bool,
}

/// What is found at the target of an agent.
pub enum TargetProbe {
    Absent { parent_exists: bool },
    /// A link, and where it points.
    Symlink(String),
    /// A directory, and whether it holds the marker file.
    Dir { marked: bool },
    Other,
}

/// How an agent is wired at present.
pub enum AgentStatus {
    /// A link to the skills of the project.
    Wired,
    /// A link that points elsewhere.
    WrongTarget(String),
    /// Something that someone else made.
    UserDir,
    /// A copy of the skills.
    Copied,
    /// There is not even a place for it.
    ParentMissing,
    /// Nothing yet, but a place for it.
    Available,
}

/// How many directories lie between a target and the project.
pub open spec fn depth(target_dir: Seq<char>) -> nat {
    let n = paths::path_names(target_dir).len();
    if n == 0 {
        0
    } else {
        ((n - 1) + if paths::absolute(target_dir) {
            1int
        } else {
            0
        }) as nat
    }
}

/// So many steps up, and then to the skills.
pub open spec fn way_up(n: nat) -> Seq<char>
    decreases n,
{
    if n == 0 {
        ".atc/skills"@
    } else {
        "../"@ + way_up((n - 1) as nat)
    }
}

/// Where the link of an agent must point: from the directory that it lies in to
/// the skills of the project.
pub fn expected_symlink_target(entry: &AgentEntry) -> (r: String)
    ensures
        r@ == way_up(depth(entry.target_dir@)),
{
    let names = split_path(entry.target_dir.as_str());
    proof {
        assert(paths::path_names(entry.target_dir@).len() == names@.len());
    }
    let mut out = ".atc/skills".to_owned();
    if names.len() == 0 {
        return out;
    }
    let mut i: usize = 1;
    while i < names.len()
        invariant
            1 <= i <= names.len(),
            out@ == way_up((i - 1) as nat),
        decreases names.len() - i,
    {
        out = concat("../", out.as_str());
        i += 1;
    }
    if is_absolute(entry.target_dir.as_str()) {
        out = concat("../", out.as_str());
    }
    out
}

/// How an agent is wired, given what is found at its target.
pub open spec fn status_is(s: AgentStatus, probe: TargetProbe, expected: Seq<char>) -> bool {
    match probe {
        TargetProbe::Absent { parent_exists } => if parent_exists {
            s is Available
        } else {
            s is ParentMissing
        },
        TargetProbe::Symlink(to) => if to@ == expected {
            s is Wired
        } else {
            s matches AgentStatus::WrongTarget(t) && t@ == to@
        },
        TargetProbe::Dir { marked } => if marked {
            s is Copied
        } else {
            s is UserDir
        },
        TargetProbe::Other => s is UserDir,
    }
}

/// Inspect the state of an agent's target. A directory without the marker file
/// belongs to someone else, whatever it holds.
pub fn agent_status(entry: &AgentEntry, probe: &TargetProbe) -> (r: AgentStatus)
    ensures
        status_is(r, *probe, way_up(depth(entry.target_dir@))),
{
    match probe {
        TargetProbe::Absent { parent_exists } => if *parent_exists {
            AgentStatus::Available
        } else {
            AgentStatus::ParentMissing
        },
        TargetProbe::Symlink(to) => {
            let expected = expected_symlink_target(entry);
            if same(to.as_str(), expected.as_str()) {
                AgentStatus::Wired
            } else {
                AgentStatus::WrongTarget(to.clone())
            }
        },
        TargetProbe::Dir { marked } => if *marked {
            AgentStatus::Copied
        } else {
            AgentStatus::UserDir
        },
        TargetProbe::Other => AgentStatus::UserDir,
    }
}

/// The name of a status.
pub open spec fn status_name(s: AgentStatus) -> Seq<char> {
    match s {
        AgentStatus::Wired => "wired"@,
        AgentStatus::WrongTarget(_) => "wrong-target"@,
        AgentStatus::UserDir => "user-dir"@,
        AgentStatus::Copied => "copied"@,
        AgentStatus::ParentMissing => "parent-missing"@,
        AgentStatus::Available => "available"@,
    }
}

pub fn format_status(s: &AgentStatus) -> (r: &'static str)
    ensures
        r@ == status_name(*s),
{
    match s {
        AgentStatus::Wired => "wired",
        AgentStatus::WrongTarget(_) => "wrong-target",
        AgentStatus::UserDir => "user-dir",
        AgentStatus::Copied => "copied",
        AgentStatus::ParentMissing => "parent-missing",
        AgentStatus::Available => "available",
    }
}

/// What is done to wire an agent.
#[derive(Clone, Copy, Debug, PartialEq, Eq, Structural)]
pub enum WirePlan {
    /// Nothing: it is wired.
    Keep,
    /// Put a link, or a copy, where nothing is.
    Fresh { copy: bool },
    /// Remove the link, and put a copy in its place.
    LinkToCopy,
    /// Remove the link that points elsewhere, and wire afresh.
    Rewire { copy: bool },
    /// Bring the copy up to date.
    Mirror,
    /// Remove the copy, and put a link in its place.
    CopyToLink,
    /// Refuse, for the reason that follows from the status.
    Refuse,
}

/// What is done to wire an agent. What someone else made is never touched.
pub open spec fn wire_plan(status: AgentStatus, opts: AgentOpts) -> WirePlan {
    match status {
        AgentStatus::Wired => if !opts.copy {
            WirePlan::Keep
        } else if opts.force {
            WirePlan::LinkToCopy
        } else {
            WirePlan::Refuse
        },
        AgentStatus::WrongTarget(_) => if opts.force {
            WirePlan::Rewire { copy: opts.copy }
        } else {
            WirePlan::Refuse
        },
        AgentStatus::UserDir => WirePlan::Refuse,
        AgentStatus::Copied => if opts.copy {
            WirePlan::Mirror
        } else if opts.force {
            WirePlan::CopyToLink
        } else {
            WirePlan::Refuse
        },
        AgentStatus::ParentMissing => WirePlan::Fresh { copy: opts.copy },
        AgentStatus::Available => WirePlan::Fresh { copy: opts.copy },
    }
}

pub fn plan_wire(status: &AgentStatus, opts: AgentOpts) -> (r: WirePlan)
    ensures
        r == wire_plan(*status, opts),
{
    match status {
        AgentStatus::Wired => if !opts.copy {
            WirePlan::Keep
        } else if opts.force {
            WirePlan::LinkToCopy
        } else {
            WirePlan::Refuse
        },
        AgentStatus::WrongTarget(_) => if opts.force {
            WirePlan::Rewire { copy: opts.copy }
        } else {
            WirePlan::Refuse
        },
        AgentStatus::UserDir => WirePlan::Refuse,
        AgentStatus::Copied => if opts.copy {
            WirePlan::Mirror
        } else if opts.force {
            WirePlan::CopyToLink
        } else {
            WirePlan::Refuse
        },
        AgentStatus::ParentMissing => WirePlan::Fresh { copy: opts.copy },
        AgentStatus::Available => WirePlan::Fresh { copy: opts.copy },
    }
}

/// What someone else made is refused, even under `--force`.
pub proof fn user_content_is_never_touched(opts: AgentOpts)
    ensures
        wire_plan(AgentStatus::UserDir, opts) == WirePlan::Refuse,
{
}

/// Something that is there is replaced only under `--force`.
pub proof fn nothing_is_replaced_unasked(status: AgentStatus, copy: bool)
    ensures
        !(wire_plan(status, AgentOpts { force: false, copy }) is Rewire),
        wire_plan(status, AgentOpts { force: false, copy }) != WirePlan::LinkToCopy,
        wire_plan(status, AgentOpts { force: false, copy }) != WirePlan::CopyToLink,
{
}

/// Wiring again changes nothing: a link is kept, and a copy only brought up to
/// date.
pub proof fn wiring_again_changes_nothing(force: bool)
    ensures
        wire_plan(AgentStatus::Wired, AgentOpts { force, copy: false }) == WirePlan::Keep,
        wire_plan(AgentStatus::Copied, AgentOpts { force, copy: true }) == WirePlan::Mirror,
{
}

/// Why an agent is not wired.
pub open spec fn refusal(status: AgentStatus, target: Seq<char>) -> Seq<char> {
    match status {
        AgentStatus::Wired => target
            + " is a symlink. Use --force to replace it with a copy, or omit --copy to keep the symlink."@,
        AgentStatus::WrongTarget(existing) => target + " is a symlink to "@ + existing@
            + " (expected -> .atc/skills). Re-run with --force to replace."@,
        AgentStatus::Copied => target
            + " is a copy directory. Use --force to replace it with a symlink (note: any extra files in the directory are preserved by `--copy --force`, not by symlink mode)."@,
        _ => target
            + " is an existing directory or file with content ATC didn't create. Refusing to delete user content. Back it up and remove it before re-running."@,
    }
}

pub fn refusal_message(status: &AgentStatus, target: &str) -> (r: String)
    ensures
        r@ == refusal(*status, target@),
{
    match status {
        AgentStatus::Wired => concat(
            target,
            " is a symlink. Use --force to replace it with a copy, or omit --copy to keep the symlink.",
        ),
        AgentStatus::WrongTarget(existing) => {
            let mut out = concat(target, " is a symlink to ");
            push_str(&mut out, existing.as_str());
            push_str(&mut out, " (expected -> .atc/skills). Re-run with --force to replace.");
            out
        },
        AgentStatus::Copied => concat(
            target,
            " is a copy directory. Use --force to replace it with a symlink (note: any extra files in the directory are preserved by `--copy --force`, not by symlink mode).",
        ),
        _ => concat(
            target,
            " is an existing directory or file with content ATC didn't create. Refusing to delete user content. Back it up and remove it before re-running.",
        ),
    }
}

/// What came of wiring an agent.
#[derive(Clone, Copy, Debug, PartialEq, Eq, Structural)]
pub enum WireOutcome {
    Created,
    AlreadyWired,
    Replaced,
    /// No link could be made, so a copy was.
    SymlinkFallbackToCopy,
    Mirrored,
}

/// What came of a plan. `linked` tells whether a link could be made, where one
/// was tried.
pub open spec fn outcome(plan: WirePlan, linked: bool) -> Option<WireOutcome> {
    match plan {
        WirePlan::Keep => Some(WireOutcome::AlreadyWired),
        WirePlan::Fresh { copy } => if copy || linked {
            Some(WireOutcome::Created)
        } else {
            Some(WireOutcome::SymlinkFallbackToCopy)
        },
        WirePlan::LinkToCopy => Some(WireOutcome::Created),
        WirePlan::Rewire { .. } => Some(WireOutcome::Replaced),
        WirePlan::Mirror => Some(WireOutcome::Mirrored),
        WirePlan::CopyToLink => Some(WireOutcome::Replaced),
        WirePlan::Refuse => None,
    }
}

pub fn outcome_of(plan: WirePlan, linked: bool) -> (r: Option<WireOutcome>)
    ensures
        r == outcome(plan, linked),
{
    match plan {
        WirePlan::Keep => Some(WireOutcome::AlreadyWired),
        WirePlan::Fresh { copy } => if copy || linked {
            Some(WireOutcome::Created)
        } else {
            Some(WireOutcome::SymlinkFallbackToCopy)
        },
        WirePlan::LinkToCopy => Some(WireOutcome::Created),
        WirePlan::Rewire { .. } => Some(WireOutcome::Replaced),
        WirePlan::Mirror => Some(WireOutcome::Mirrored),
        WirePlan::CopyToLink => Some(WireOutcome::Replaced),
        WirePlan::Refuse => None,
    }
}

/// What is said after a plan was carried out; what is said of a fresh wire is
/// said when it is made.
pub open spec fn wired_text(plan: WirePlan, name: Seq<char>, target: Seq<char>) -> Option<Seq<char>> {
    match plan {
        WirePlan::Keep => Some("  "@ + name + ": already wired (-> .atc/skills)"@),
        WirePlan::LinkToCopy => Some("  "@ + name + ": replaced symlink with copy at "@ + target),
        WirePlan::Rewire { .. } => Some("  "@ + name + ": replaced wrong-target symlink"@),
        WirePlan::Mirror => Some("  "@ + name + ": mirrored .atc/skills into "@ + target),
        WirePlan::CopyToLink => Some("  "@ + name + ": replaced copy with symlink"@),
        WirePlan::Fresh { .. } => None,
        WirePlan::Refuse => None,
    }
}

pub fn wired_message(plan: WirePlan, name: &str, target: &str) -> (r: Option<String>)
    ensures
        strmap::opt_view(r) == wired_text(plan, name@, target@),
{
    let mut out = concat("  ", name);
    match plan {
        WirePlan::Keep => {
            push_str(&mut out, ": already wired (-> .atc/skills)");
            Some(out)
        },
        WirePlan::LinkToCopy => {
            push_str(&mut out, ": replaced symlink with copy at ");
            push_str(&mut out, target);
            Some(out)
        },
        WirePlan::Rewire { .. } => {
            push_str(&mut out, ": replaced wrong-target symlink");
            Some(out)
        },
        WirePlan::Mirror => {
            push_str(&mut out, ": mirrored .atc/skills into ");
            push_str(&mut out, target);
            Some(out)
        },
        WirePlan::CopyToLink => {
            push_str(&mut out, ": replaced copy with symlink");
            Some(out)
        },
        WirePlan::Fresh { .. } => None,
        WirePlan::Refuse => None,
    }
}

/// What is said of a fresh wire: a copy, or a link and where it points.
pub fn fresh_message(target: &str, link: Option<&str>) -> (r: String)
    ensures
        r@ == "  created "@ + target@ + match link {
            Some(l) => " -> "@ + l@,
            None => " (copy)"@,
        },
{
    let mut out = concat("  created ", target);
    push_str(
        &mut out,
        match link {
            Some(l) => concat(" -> ", l),
            None => " (copy)".to_owned(),
        }.as_str(),
    );
    out
}

/// What is said where no link could be made.
pub fn fallback_warning(error: &str, name: &str) -> (r: String)
    ensures
        r@ == "warning: symlink failed ("@ + error@
            + "); falling back to copy. Re-run with `atc init "@ + name@
            + " --copy` to make this permanent."@,
{
    let mut out = concat("warning: symlink failed (", error);
    push_str(&mut out, "); falling back to copy. Re-run with `atc init ");
    push_str(&mut out, name);
    push_str(&mut out, " --copy` to make this permanent.");
    out
}

/// The names of `known` that are among `present` but not in `source`.
pub open spec fn orphaned(
    present: Seq<Seq<char>>,
    known: Seq<Seq<char>>,
    source: Seq<Seq<char>>,
) -> Seq<Seq<char>> {
    present.filter(|n: Seq<char>| known.contains(n) && !source.contains(n))
}

/// The files of a copy that are to be removed: skills that are no longer in the
/// source. Files of other names are left alone.
pub fn files_to_remove(present: &Vec<String>, known: &Vec<String>, source: &Vec<String>) -> (r: Vec<
    String,
>)
    ensures
        text::views(r@) == orphaned(
            text::views(present@),
            text::views(known@),
            text::views(source@),
        ),
{
    let ghost all = text::views(present@);
    let ghost keep = |n: Seq<char>|
        text::views(known@).contains(n) && !text::views(source@).contains(n);
    let mut out: Vec<String> = Vec::new();
    let mut i: usize = 0;
    proof {
        reveal(Seq::filter);
        assert(all.take(0) =~= Seq::empty());
        assert(text::views(out@) =~= all.take(0).filter(keep));
    }
    while i < present.len()
        invariant
            i <= present.len(),
            all == text::views(present@),
            keep == (|n: Seq<char>|
                text::views(known@).contains(n) && !text::views(source@).contains(n)),
            text::views(out@) == all.take(i as int).filter(keep),
        decreases present.len() - i,
    {
        let name = present[i].clone();
        proof {
            reveal(Seq::filter);
            assert(all[i as int] == name@);
            assert(all.take(i + 1).drop_last() =~= all.take(i as int));
            assert(all.take(i + 1).last() == name@);
        }
        if list_contains(known, name.as_str()) && !list_contains(source, name.as_str()) {
            proof {
                text::views_push(out@, name);
            }
            out.push(name);
        }
        i += 1;
    }
    proof {
        assert(all.take(i as int) =~= all);
    }
    out
}

/// A file that is no known skill is never removed.
pub proof fn user_files_are_kept(
    present: Seq<Seq<char>>,
    known: Seq<Seq<char>>,
    source: Seq<Seq<char>>,
    file: Seq<char>,
)
    requires
        !known.contains(file) || source.contains(file),
    ensures
        !orphaned(present, known, source).contains(file),
{
    let keep = |n: Seq<char>| known.contains(n) && !source.contains(n);
    let r = present.filter(keep);
    if r.contains(file) {
        let i = choose|i: int| 0 <= i < r.len() && r[i] == file;
        present.lemma_filter_pred(keep, i);
    }
}

/// The skills that are not among the files.
pub open spec fn absent_skills(known: Seq<Seq<char>>, copied: Seq<Seq<char>>) -> Seq<Seq<char>> {
    known.filter(|n: Seq<char>| !copied.contains(n))
}

/// The skills that have to be restored, since they were not among the files
/// that were copied.
pub fn skills_to_restore(known: &Vec<String>, copied: &Vec<String>) -> (r: Vec<String>)
    ensures
        text::views(r@) == absent_skills(text::views(known@), text::views(copied@)),
{
    let ghost all = text::views(known@);
    let ghost keep = |n: Seq<char>| !text::views(copied@).contains(n);
    let mut out: Vec<String> = Vec::new();
    let mut i: usize = 0;
    proof {
        reveal(Seq::filter);
        assert(all.take(0) =~= Seq::empty());
        assert(text::views(out@) =~= all.take(0).filter(keep));
    }
    while i < known.len()
        invariant
            i <= known.len(),
            all == text::views(known@),
            keep == (|n: Seq<char>| !text::views(copied@).contains(n)),
            text::views(out@) == all.take(i as int).filter(keep),
        decreases known.len() - i,
    {
        let name = known[i].clone();
        proof {
            reveal(Seq::filter);
            assert(all[i as int] == name@);
            assert(all.take(i + 1).drop_last() =~= all.take(i as int));
            assert(all.take(i + 1).last() == name@);
        }
        if !list_contains(copied, name.as_str()) {
            proof {
                text::views_push(out@, name);
            }
            out.push(name);
        }
        i += 1;
    }
    proof {
        assert(all.take(i as int) =~= all);
    }
    out
}

/// The cells of an agent in the list.
pub open spec fn agent_cells(e: AgentEntry, s: AgentStatus) -> Seq<Seq<char>> {
    seq![e.name@, e.target_dir@, status_name(s), e.description@]
}

/// The list of agents. `statuses` holds the status of each.
pub fn list_agents(entries: &Vec<AgentEntry>, statuses: &Vec<AgentStatus>) -> (r: String)
    requires
        entries@.len() == statuses@.len(),
    ensures
        r@ == tables::framed_table(
            seq!["Agent"@, "Target"@, "Status"@, "Description"@],
            Seq::new(entries@.len(), |i: int| agent_cells(entries@[i], statuses@[i])),
        ),
{
    let header = vec![
        "Agent".to_owned(),
        "Target".to_owned(),
        "Status".to_owned(),
        "Description".to_owned(),
    ];
    proof {
        assert(text::views(header@) =~= seq!["Agent"@, "Target"@, "Status"@, "Description"@]);
    }
    let ghost all = Seq::new(entries@.len(), |i: int| agent_cells(entries@[i], statuses@[i]));
    let mut rows: Vec<Vec<String>> = Vec::new();
    let mut i: usize = 0;
    proof {
        assert(tables::grid(rows@) =~= all.take(0));
    }
    while i < entries.len()
        invariant
            i <= entries.len(),
            entries@.len() == statuses@.len(),
            all == Seq::new(entries@.len(), |i: int| agent_cells(entries@[i], statuses@[i])),
            tables::grid(rows@) == all.take(i as int),
        decreases entries.len() - i,
    {
        let e = &entries[i];
        let row = vec![
            e.name.clone(),
            e.target_dir.clone(),
            format_status(&statuses[i]).to_owned(),
            e.description.clone(),
        ];
        proof {
            assert(text::views(row@) =~= agent_cells(entries@[i as int], statuses@[i as int]));
            tables::grid_push(rows@, row);
            assert(all.take(i + 1) =~= all.take(i as int).push(text::views(row@)));
        }
        rows.push(row);
        i += 1;
    }
    proof {
        assert(all.take(i as int) =~= all);
    }
    render_framed_table(&header, &rows)
}

/// An agent that could not be wired, and why.
pub struct WireFailure {
    pub name: String,
    pub message: String,
}

/// The lines on agents that could not be wired.
pub open spec fn failure_lines(failures: Seq<WireFailure>) -> Seq<Seq<char>> {
    failures.map_values(|f: WireFailure| "    "@ + f.name@ + ": "@ + f.message@)
}

/// What is said after all agents were wired.
pub open spec fn summary_lines(
    wired: usize,
    skipped: Seq<Seq<char>>,
    failures: Seq<WireFailure>,
) -> Seq<Seq<char>> {
    seq![
        "\n--- atc init --all-agents summary ---"@,
        "  wired:   "@ + text::decimal(wired as nat),
    ] + (if skipped.len() > 0 {
        seq!["  skipped: "@ + text::joined(skipped, ", "@) + " (parent dir missing)"@]
    } else {
        Seq::empty()
    }) + (if failures.len() > 0 {
        seq!["  failed:"@] + failure_lines(failures)
    } else {
        Seq::empty()
    })
}

pub fn write_summary(wired: usize, skipped: &Vec<String>, failures: &Vec<WireFailure>) -> (r: Vec<
    String,
>)
    ensures
        text::views(r@) == summary_lines(wired, text::views(skipped@), failures@),
{
    let mut out = vec![
        "\n--- atc init --all-agents summary ---".to_owned(),
        concat("  wired:   ", write_u64(wired as u64).as_str()),
    ];
    if skipped.len() > 0 {
        let mut line = concat("  skipped: ", join(skipped, ", ").as_str());
        push_str(&mut line, " (parent dir missing)");
        out.push(line);
    }
    if failures.len() > 0 {
        out.push("  failed:".to_owned());
    }
    let ghost head = text::views(out@);
    let ghost all = failure_lines(failures@);
    let mut i: usize = 0;
    proof {
        assert(head =~= head + all.take(0));
    }
    while i < failures.len()
        invariant
            i <= failures.len(),
            all == failure_lines(failures@),
            text::views(out@) == head + all.take(i as int),
        decreases failures.len() - i,
    {
        let mut line = concat("    ", failures[i].name.as_str());
        push_str(&mut line, ": ");
        push_str(&mut line, failures[i].message.as_str());
        proof {
            text::views_push(out@, line);
            assert(all.take(i + 1) =~= all.take(i as int).push(line@));
            assert(head + all.take(i + 1) =~= (head + all.take(i as int)).push(line@));
        }
        out.push(line);
        i += 1;
    }
    proof {
        assert(all.take(i as int) =~= all);
        assert(text::views(out@) =~= summary_lines(wired, text::views(skipped@), failures@));
    }
    out
}

/// It is an error if an agent could not be wired.
pub fn check_failures(n: usize) -> (r: Result<(), String>)
    ensures
        if n > 0 {
            r matches Err(e) && e@ == text::decimal(n as nat) + " agent(s) failed to wire"@
        } else {
            r is Ok
        },
{
    if n > 0 {
        Err(concat(write_u64(n as u64).as_str(), " agent(s) failed to wire"))
    } else {
        Ok(())
    }
}

/// Each way of wiring has its occasion. Where nothing is, a link or a copy is made, as
/// asked. A link to the skills is kept, or becomes a copy where that is forced; one that
/// points elsewhere is wired anew where that is forced. A copy is brought up to date, or
/// becomes a link where that is forced. Anything else is refused.
pub proof fn wiring_is_exact(status: AgentStatus, opts: AgentOpts)
    ensures
        ({
            let plan = wire_plan(status, opts);
            let nothing = status is Available || status is ParentMissing;
            &&& plan is Fresh <==> nothing
            &&& plan matches WirePlan::Fresh { copy } ==> copy == opts.copy
            &&& plan == WirePlan::Keep <==> status is Wired && !opts.copy
            &&& plan == WirePlan::LinkToCopy <==> status is Wired && opts.copy && opts.force
            &&& plan is Rewire <==> status is WrongTarget && opts.force
            &&& plan matches WirePlan::Rewire { copy } ==> copy == opts.copy
            &&& plan == WirePlan::Mirror <==> status is Copied && opts.copy
            &&& plan == WirePlan::CopyToLink <==> status is Copied && !opts.copy && opts.force
        }),
{
}

/// An agent counts as wired exactly where a link points to the skills, as copied exactly
/// where a directory carries the marker, as free exactly where nothing is there, and
/// anything else that is no link is someone else's.
pub proof fn targets_say_how_they_are_wired(
    s: AgentStatus,
    probe: TargetProbe,
    expected: Seq<char>,
)
    requires
        status_is(s, probe, expected),
    ensures
        s is Wired <==> (probe matches TargetProbe::Symlink(to) && to@ == expected),
        s is WrongTarget <==> (probe matches TargetProbe::Symlink(to) && to@ != expected),
        s is WrongTarget ==> s->WrongTarget_0@ == probe->Symlink_0@,
        s is Copied <==> probe == (TargetProbe::Dir { marked: true }),
        s is UserDir <==> probe == (TargetProbe::Dir { marked: false }) || probe is Other,
        s is Available <==> probe == (TargetProbe::Absent { parent_exists: true }),
        s is ParentMissing <==> probe == (TargetProbe::Absent { parent_exists: false }),
{
}

/// A file of a copy is removed exactly where it is a skill that the source no longer has,
/// and a skill is restored exactly where it was not copied.
pub proof fn copies_follow_their_source(
    present: Seq<Seq<char>>,
    known: Seq<Seq<char>>,
    source: Seq<Seq<char>>,
    file: Seq<char>,
)
    ensures
        orphaned(present, known, source).contains(file) <==> present.contains(file)
            && known.contains(file) && !source.contains(file),
        absent_skills(known, source).contains(file) <==> known.contains(file) && !source.contains(
            file,
        ),
{
    let gone = |n: Seq<char>| known.contains(n) && !source.contains(n);
    let missing = |n: Seq<char>| !source.contains(n);
    let a = present.filter(gone);
    let b = known.filter(missing);
    if a.contains(file) {
        let i = choose|i: int| 0 <= i < a.len() && a[i] == file;
        present.lemma_filter_pred(gone, i);
        present.lemma_filter_contains_rev(gone, file);
    }
    if present.contains(file) && gone(file) {
        let i = choose|i: int| 0 <= i < present.len() && present[i] == file;
        present.lemma_filter_contains(gone, i);
    }
    if b.contains(file) {
        let i = choose|i: int| 0 <= i < b.len() && b[i] == file;
        known.lemma_filter_pred(missing, i);
        known.lemma_filter_contains_rev(missing, file);
    }
    if known.contains(file) && missing(file) {
        let i = choose|i: int| 0 <= i < known.len() && known[i] == file;
        known.lemma_filter_contains(missing, i);
    }
}

/// Wiring ends as its plan says: what is kept was wired already, what is refused has
/// no outcome, and a link that could not be made has become a copy.
pub proof fn outcomes_follow_their_plan(plan: WirePlan, linked: bool)
    ensures
        outcome(plan, linked) is None <==> plan is Refuse,
        outcome(plan, linked) == Some(WireOutcome::AlreadyWired) <==> plan is Keep,
        outcome(plan, linked) == Some(WireOutcome::SymlinkFallbackToCopy) <==> (plan
            matches WirePlan::Fresh { copy } && !copy && !linked),
        outcome(plan, linked) == Some(WireOutcome::Created) <==> plan is LinkToCopy || (plan
            matches WirePlan::Fresh { copy } && (copy || linked)),
        outcome(plan, linked) == Some(WireOutcome::Replaced) <==> plan is Rewire || plan
            is CopyToLink,
        outcome(plan, linked) == Some(WireOutcome::Mirrored) <==> plan is Mirror,
{
}

/// What is said of a wired agent names it, and the place where that matters.
pub proof fn wired_agents_are_named(plan: WirePlan, name: Seq<char>, target: Seq<char>)
    ensures
        wired_text(plan, name, target) is None <==> plan is Fresh || plan is Refuse,
        wired_text(plan, name, target) matches Some(said) ==> text::starts(
            said,
            "  "@ + name + ": "@,
        ),
        plan is LinkToCopy || plan is Mirror ==> text::ends(
            wired_text(plan, name, target)->0,
            target,
        ),
{
    reveal_strlit(": ");
    reveal_strlit(": already wired (-> .atc/skills)");
    reveal_strlit(": replaced symlink with copy at ");
    reveal_strlit(": replaced wrong-target symlink");
    reveal_strlit(": mirrored .atc/skills into ");
    reveal_strlit(": replaced copy with symlink");
    if let Some(said) = wired_text(plan, name, target) {
        let head = "  "@ + name + ": "@;
        assert(said.subrange(0, head.len() as int) =~= head);
        if plan is LinkToCopy || plan is Mirror {
            assert(said.subrange(said.len() - target.len(), said.len() as int) =~= target);
        }
    }
}

/// The way from an agent to the skills goes up once for each directory it lies in.
pub proof fn ways_go_up_step_by_step(n: nat)
    ensures
        way_up(0) == ".atc/skills"@,
        way_up(n + 1) == "../"@ + way_up(n),
        way_up(n).len() == 3 * n + 11,
    decreases n,
{
    reveal_strlit("../");
    reveal_strlit(".atc/skills");
    if n > 0 {
        ways_go_up_step_by_step((n - 1) as nat);
    }
}

/// The summary tells how many agents were wired, which were skipped, and of each that
/// failed why it did.
pub proof fn summaries_tell_what_became_of_agents(
    wired: usize,
    skipped: Seq<Seq<char>>,
    failures: Seq<WireFailure>,
    i: int,
)
    ensures
        ({
            let lines = summary_lines(wired, skipped, failures);
            &&& lines[1] == "  wired:   "@ + text::decimal(wired as nat)
            &&& skipped.len() > 0 ==> lines[2] == "  skipped: "@ + text::joined(skipped, ", "@)
                + " (parent dir missing)"@
            &&& 0 <= i < failures.len() ==> lines.contains(
                "    "@ + failures[i].name@ + ": "@ + failures[i].message@,
            )
            &&& lines.len() == 2 + (if skipped.len() > 0 {
                1int
            } else {
                0
            }) + (if failures.len() > 0 {
                1 + failures.len()
            } else {
                0
            })
        }),
{
    let lines = summary_lines(wired, skipped, failures);
    if 0 <= i < failures.len() {
        let k = (if skipped.len() > 0 {
            4int
        } else {
            3
        }) + i;
        assert(failure_lines(failures)[i] == "    "@ + failures[i].name@ + ": "@
            + failures[i].message@);
        assert(lines[k] == failure_lines(failures)[i]);
    }
}

} // verus!
