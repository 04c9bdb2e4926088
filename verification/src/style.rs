//! Color and style helpers for human-facing CLI output.
//!
//! Honors `NO_COLOR` (any value disables), `CLICOLOR_FORCE=1` (force-on),
//! and the `--color {auto,always,never}` flag.

use owo_colors::OwoColorize;
use vstd::prelude::*;
use crate::strmap;
use crate::text::{self, concat, push_str, same, to_lower};
use crate::types::{Cost, CostBand, Status, WorkUnitStatus};

verus! {

/// Color mode controlling whether ANSI escapes are emitted.
#[derive(Clone, Copy, Debug, PartialEq, Eq, Structural)]
pub enum ColorMode {
    /// Detect from TTY + `NO_COLOR`.
    Auto,
    /// Always emit ANSI codes.
    Always,
    /// Never emit ANSI codes.
    Never,
}

impl ColorMode {
    /// The mode that a flag value names, in any case of letters.
    pub open spec fn named(s: Seq<char>) -> Option<ColorMode> {
        let l = text::lowered(s);
        if l == "auto"@ {
            Some(ColorMode::Auto)
        } else if l == "always"@ {
            Some(ColorMode::Always)
        } else if l == "never"@ {
            Some(ColorMode::Never)
        } else {
            None
        }
    }

    pub fn parse(s: &str) -> (r: Result<ColorMode, String>)
        ensures
            match ColorMode::named(s@) {
                Some(m) => r == Ok::<ColorMode, String>(m),
                None => r matches Err(e) && e@ == "invalid --color value '"@ + text::lowered(s@)
                    + "' (expected auto, always, or never)"@,
            },
    {
        let l = to_lower(s);
        if same(l.as_str(), "auto") {
            Ok(ColorMode::Auto)
        } else if same(l.as_str(), "always") {
            Ok(ColorMode::Always)
        } else if same(l.as_str(), "never") {
            Ok(ColorMode::Never)
        } else {
            let mut e = concat("invalid --color value '", l.as_str());
            push_str(&mut e, "' (expected auto, always, or never)");
            Err(e)
        }
    }
}

/// The mode in force, as a number: 0 is auto, 1 always, 2 never.
pub struct ColorState {
    pub code: u8,
}

impl ColorState {
    pub open spec fn mode(self) -> ColorMode {
        if self.code == 1 {
            ColorMode::Always
        } else if self.code == 2 {
            ColorMode::Never
        } else {
            ColorMode::Auto
        }
    }
}

pub fn set_color_mode(state: &mut ColorState, mode: ColorMode)
    ensures
        final(state).mode() == mode,
        final(state).code <= 2,
{
    state.code = match mode {
        ColorMode::Auto => 0,
        ColorMode::Always => 1,
        ColorMode::Never => 2,
    };
}

pub fn current_mode(state: &ColorState) -> (r: ColorMode)
    ensures
        r == state.mode(),
{
    match state.code {
        1 => ColorMode::Always,
        2 => ColorMode::Never,
        _ => ColorMode::Auto,
    }
}

/// Whether styled output is emitted: the mode decides, and where it leaves it
/// open `NO_COLOR`, then `CLICOLOR_FORCE`, then the terminal.
pub open spec fn emits_color(
    mode: ColorMode,
    no_color: bool,
    force: Option<Seq<char>>,
    is_terminal: bool,
) -> bool {
    match mode {
        ColorMode::Always => true,
        ColorMode::Never => false,
        ColorMode::Auto => !no_color && (force == Some("1"@) || is_terminal),
    }
}

/// Returns true if styled output should be emitted right now.
pub fn colors_enabled(
    mode: ColorMode,
    no_color: bool,
    force: &Option<String>,
    is_terminal: bool,
) -> (r: bool)
    ensures
        r == emits_color(mode, no_color, strmap::opt_view(*force), is_terminal),
{
    match mode {
        ColorMode::Always => true,
        ColorMode::Never => false,
        ColorMode::Auto => {
            if no_color {
                return false;
            }
            if let Some(v) = force {
                if same(v.as_str(), "1") {
                    return true;
                }
            }
            is_terminal
        },
    }
}

/// The styles in use.
#[derive(Clone, Copy, Debug, PartialEq, Eq, Structural)]
pub enum Style {
    Plain,
    Cyan,
    Green,
    RedBold,
    Red,
    Yellow,
    Magenta,
    Blue,
    Dimmed,
    Bold,
}

/// The escape sequence that switches a style on; nothing for plain text.
pub open spec fn style_code(style: Style) -> Seq<char> {
    match style {
        Style::Plain => ""@,
        Style::Cyan => "\x1b[36m"@,
        Style::Green => "\x1b[32m"@,
        Style::RedBold => "\x1b[31;1m"@,
        Style::Red => "\x1b[31m"@,
        Style::Yellow => "\x1b[33m"@,
        Style::Magenta => "\x1b[35m"@,
        Style::Blue => "\x1b[34m"@,
        Style::Dimmed => "\x1b[2m"@,
        Style::Bold => "\x1b[1m"@,
    }
}

/// The text in a style: switched on before it and reset after it.
pub open spec fn styled(t: Seq<char>, style: Style) -> Seq<char> {
    if style == Style::Plain {
        t
    } else {
        style_code(style) + t + "\x1b[0m"@
    }
}

/// `owo_colors`: text styled with `Style::new().cyan()` is written as the
/// escape sequence of that style, the text, and the reset sequence.
#[verifier::external_body]
fn paint_cyan(t: &str) -> (r: String)
    ensures
        r@ == "\x1b[36m"@ + t@ + "\x1b[0m"@,
{
    t.style(owo_colors::Style::new().cyan()).to_string()
}

/// `owo_colors`: text styled with `Style::new().green()` is written as the
/// escape sequence of that style, the text, and the reset sequence.
#[verifier::external_body]
fn paint_green(t: &str) -> (r: String)
    ensures
        r@ == "\x1b[32m"@ + t@ + "\x1b[0m"@,
{
    t.style(owo_colors::Style::new().green()).to_string()
}

/// `owo_colors`: text styled with `Style::new().red().bold()` is written as the
/// escape sequence of that style, the text, and the reset sequence.
#[verifier::external_body]
fn paint_red_bold(t: &str) -> (r: String)
    ensures
        r@ == "\x1b[31;1m"@ + t@ + "\x1b[0m"@,
{
    t.style(owo_colors::Style::new().red().bold()).to_string()
}

/// `owo_colors`: text styled with `Style::new().red()` is written as the
/// escape sequence of that style, the text, and the reset sequence.
#[verifier::external_body]
fn paint_red(t: &str) -> (r: String)
    ensures
        r@ == "\x1b[31m"@ + t@ + "\x1b[0m"@,
{
    t.style(owo_colors::Style::new().red()).to_string()
}

/// `owo_colors`: text styled with `Style::new().yellow()` is written as the
/// escape sequence of that style, the text, and the reset sequence.
#[verifier::external_body]
fn paint_yellow(t: &str) -> (r: String)
    ensures
        r@ == "\x1b[33m"@ + t@ + "\x1b[0m"@,
{
    t.style(owo_colors::Style::new().yellow()).to_string()
}

/// `owo_colors`: text styled with `Style::new().magenta()` is written as the
/// escape sequence of that style, the text, and the reset sequence.
#[verifier::external_body]
fn paint_magenta(t: &str) -> (r: String)
    ensures
        r@ == "\x1b[35m"@ + t@ + "\x1b[0m"@,
{
    t.style(owo_colors::Style::new().magenta()).to_string()
}

/// `owo_colors`: text styled with `Style::new().blue()` is written as the
/// escape sequence of that style, the text, and the reset sequence.
#[verifier::external_body]
fn paint_blue(t: &str) -> (r: String)
    ensures
        r@ == "\x1b[34m"@ + t@ + "\x1b[0m"@,
{
    t.style(owo_colors::Style::new().blue()).to_string()
}

/// `owo_colors`: text styled with `Style::new().dimmed()` is written as the
/// escape sequence of that style, the text, and the reset sequence.
#[verifier::external_body]
fn paint_dimmed(t: &str) -> (r: String)
    ensures
        r@ == "\x1b[2m"@ + t@ + "\x1b[0m"@,
{
    t.style(owo_colors::Style::new().dimmed()).to_string()
}

/// `owo_colors`: text styled with `Style::new().bold()` is written as the
/// escape sequence of that style, the text, and the reset sequence.
#[verifier::external_body]
fn paint_bold(t: &str) -> (r: String)
    ensures
        r@ == "\x1b[1m"@ + t@ + "\x1b[0m"@,
{
    t.style(owo_colors::Style::new().bold()).to_string()
}

/// Apply the style to a text. When colors are disabled, the text stays as it is.
pub fn apply(t: &str, style: Style, colors: bool) -> (r: String)
    ensures
        r@ == if colors {
            styled(t@, style)
        } else {
            t@
        },
{
    if !colors {
        return t.to_owned();
    }
    match style {
        Style::Plain => t.to_owned(),
        Style::Cyan => paint_cyan(t),
        Style::Green => paint_green(t),
        Style::RedBold => paint_red_bold(t),
        Style::Red => paint_red(t),
        Style::Yellow => paint_yellow(t),
        Style::Magenta => paint_magenta(t),
        Style::Blue => paint_blue(t),
        Style::Dimmed => paint_dimmed(t),
        Style::Bold => paint_bold(t),
    }
}

/// Style for a status cell.
pub open spec fn style_of_status(status: Status) -> Style {
    match status {
        Status::Running => Style::Cyan,
        Status::Done => Style::Green,
        Status::Failed => Style::RedBold,
        Status::NeedsHuman => Style::Yellow,
        Status::NeedsReview => Style::Magenta,
        Status::Stopped => Style::Dimmed,
        Status::Retrying => Style::Blue,
    }
}

pub fn status_style(status: Status) -> (r: Style)
    ensures
        r == style_of_status(status),
{
    match status {
        Status::Running => Style::Cyan,
        Status::Done => Style::Green,
        Status::Failed => Style::RedBold,
        Status::NeedsHuman => Style::Yellow,
        Status::NeedsReview => Style::Magenta,
        Status::Stopped => Style::Dimmed,
        Status::Retrying => Style::Blue,
    }
}

/// Style for a work-unit status cell.
pub open spec fn style_of_unit_status(status: WorkUnitStatus) -> Style {
    match status {
        WorkUnitStatus::Active => Style::Cyan,
        WorkUnitStatus::Merged => Style::Green,
        WorkUnitStatus::Closed => Style::Dimmed,
        WorkUnitStatus::Abandoned => Style::Red,
    }
}

pub fn work_unit_status_style(status: WorkUnitStatus) -> (r: Style)
    ensures
        r == style_of_unit_status(status),
{
    match status {
        WorkUnitStatus::Active => Style::Cyan,
        WorkUnitStatus::Merged => Style::Green,
        WorkUnitStatus::Closed => Style::Dimmed,
        WorkUnitStatus::Abandoned => Style::Red,
    }
}

/// Style for a cost cell: emphasis grows with the band.
pub open spec fn style_of_cost(band: CostBand) -> Style {
    match band {
        CostBand::High => Style::Red,
        CostBand::Notable => Style::Yellow,
        CostBand::Low => Style::Plain,
    }
}

pub fn cost_style(band: CostBand) -> (r: Style)
    ensures
        r == style_of_cost(band),
{
    match band {
        CostBand::High => Style::Red,
        CostBand::Notable => Style::Yellow,
        CostBand::Low => Style::Plain,
    }
}

/// Dim style - for chrome (headers, separators, "-" placeholders).
pub fn dim() -> (r: Style)
    ensures
        r == Style::Dimmed,
{
    Style::Dimmed
}

/// Bold style - for content emphasis (task slug, primary anchors).
pub fn strong() -> (r: Style)
    ensures
        r == Style::Bold,
{
    Style::Bold
}

/// A text in a style if colors are on.
pub open spec fn shown(t: Seq<char>, style: Style, colors: bool) -> Seq<char> {
    if colors {
        styled(t, style)
    } else {
        t
    }
}

/// Convenience: render a status as colored text.
pub fn render_status(status: Status, colors: bool) -> (r: String)
    ensures
        r@ == shown(status.name(), style_of_status(status), colors),
{
    apply(status.as_str(), status_style(status), colors)
}

/// Convenience: render a work-unit status as colored text.
pub fn render_work_unit_status(status: WorkUnitStatus, colors: bool) -> (r: String)
    ensures
        r@ == shown(status.name(), style_of_unit_status(status), colors),
{
    apply(status.as_str(), work_unit_status_style(status), colors)
}

/// How a cost is shown: in its band's style, or a dash.
pub open spec fn shown_cost(cost: Option<Cost>, colors: bool) -> Seq<char> {
    match cost {
        Some(c) => shown("$"@ + c.amount@, style_of_cost(c.band), colors),
        None => shown("-"@, Style::Dimmed, colors),
    }
}

/// Convenience: render a cost as colored text. Returns "-" when None.
pub fn render_cost(cost: &Option<Cost>, colors: bool) -> (r: String)
    ensures
        r@ == shown_cost(*cost, colors),
{
    match cost {
        Some(c) => {
            let t = concat("$", c.amount.as_str());
            apply(t.as_str(), cost_style(c.band), colors)
        },
        None => apply("-", dim(), colors),
    }
}

/// Convenience: render a placeholder dash.
pub fn render_dash(colors: bool) -> (r: String)
    ensures
        r@ == shown("-"@, Style::Dimmed, colors),
{
    apply("-", dim(), colors)
}

/// Without colors a text is shown as it stands.
pub proof fn no_colors_no_escapes(t: Seq<char>, style: Style)
    ensures
        shown(t, style, false) == t,
{
}

/// Asking for styles, or for none, is final. Where it is left open, `NO_COLOR`
/// switches them off, `CLICOLOR_FORCE` set to `1` switches them on, and otherwise
/// a terminal gets them.
pub proof fn requests_for_color_are_final(
    no_color: bool,
    force: Option<Seq<char>>,
    is_terminal: bool,
)
    ensures
        emits_color(ColorMode::Always, no_color, force, is_terminal),
        !emits_color(ColorMode::Never, no_color, force, is_terminal),
        !emits_color(ColorMode::Auto, true, force, is_terminal),
        emits_color(ColorMode::Auto, false, Some("1"@), is_terminal),
        force != Some("1"@) ==> emits_color(ColorMode::Auto, false, force, is_terminal)
            == is_terminal,
{
}

/// Each status of a record has a style of its own, each status of a unit too, and
/// each cost band.
pub proof fn styles_tell_apart(
    a: Status,
    b: Status,
    u: WorkUnitStatus,
    v: WorkUnitStatus,
    c: CostBand,
    d: CostBand,
)
    ensures
        style_of_status(a) == style_of_status(b) ==> a == b,
        style_of_unit_status(u) == style_of_unit_status(v) ==> u == v,
        style_of_cost(c) == style_of_cost(d) ==> c == d,
        style_of_status(a) == Style::Green <==> a == Status::Done,
        style_of_status(a) == Style::RedBold <==> a == Status::Failed,
        style_of_status(a) == Style::Cyan <==> a == Status::Running,
        style_of_unit_status(u) == Style::Green <==> u == WorkUnitStatus::Merged,
        style_of_unit_status(u) == Style::Cyan <==> u == WorkUnitStatus::Active,
        style_of_unit_status(u) == Style::Red <==> u == WorkUnitStatus::Abandoned,
        style_of_cost(c) == Style::Red <==> c == CostBand::High,
        style_of_cost(c) == Style::Plain <==> c == CostBand::Low,
        style_of_status(a) != Style::Plain && style_of_unit_status(u) != Style::Plain,
{
}

/// A styled text is the text between the code that switches the style on and the one
/// that switches it off; plain text has neither, and two styles never share a code.
pub proof fn styles_are_switched_off_again(t: Seq<char>, style: Style, amount: String)
    ensures
        shown(t, style, false) == t,
        shown(t, Style::Plain, true) == t,
        style != Style::Plain ==> text::ends(shown(t, style, true), "\x1b[0m"@),
        style != Style::Plain ==> text::starts(shown(t, style, true), "\x1b["@),
        style != Style::Plain ==> text::occurs(shown(t, style, true), t),
        shown_cost(None, false) == "-"@,
        shown_cost(Some(Cost { amount, band: CostBand::Low }), true) == "$"@ + amount@,
{
    if style != Style::Plain {
        let all = shown(t, style, true);
        let code = style_code(style);
        let off = "\x1b[0m"@;
        assert(all.subrange(all.len() - off.len(), all.len() as int) =~= off);
        assert(all.subrange(code.len() as int, code.len() as int + t.len()) =~= t);
        assert(text::occurs_at(all, code.len() as int, t));
        reveal_strlit("\x1b[");
        reveal_strlit("\x1b[36m");
        reveal_strlit("\x1b[32m");
        reveal_strlit("\x1b[31;1m");
        reveal_strlit("\x1b[31m");
        reveal_strlit("\x1b[33m");
        reveal_strlit("\x1b[35m");
        reveal_strlit("\x1b[34m");
        reveal_strlit("\x1b[2m");
        reveal_strlit("\x1b[1m");
        assert(all.subrange(0, 2) =~= "\x1b["@);
    }
}

} // verus!
