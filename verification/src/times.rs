//! Points in time and spans of time.

use vstd::prelude::*;
use crate::spans::{self, is_countable};
use crate::strmap;
use crate::text::{self, concat, push_str, write_u64};
use crate::types::Timestamp;

verus! {

/// A span of time that is not negative.
#[derive(Clone, Copy, Debug, PartialEq, Eq, Structural)]
pub struct Span {
    pub secs: u64,
    pub nanos: u32,
}

impl Span {
    pub open spec fn total(self) -> int {
        self.secs * 1_000_000_000 + self.nanos
    }

    pub fn total_nanos(self) -> (r: i128)
        ensures
            r == self.total(),
    {
        self.secs as i128 * 1_000_000_000 + self.nanos as i128
    }
}

impl Timestamp {
    /// Nanoseconds since the epoch.
    pub open spec fn total(self) -> int {
        self.secs * 1_000_000_000 + self.nanos
    }

    pub fn total_nanos(self) -> (r: i128)
        ensures
            r == self.total(),
    {
        self.secs as i128 * 1_000_000_000 + self.nanos as i128
    }
}

/// What `humantime::parse_duration` makes of a text: seconds and nanoseconds,
/// or nothing where it is no duration.
pub uninterp spec fn parsed_duration(s: Seq<char>) -> Option<(u64, u32)>;

/// `humantime::parse_duration`: reads a duration such as `24h` or `250ms`. What
/// it accepts and what it gives is named, not described. It panics where parts of
/// seconds bring the sum to exactly one second more than can be counted; a text that
/// is countable has no such sum.
#[verifier::external_body]
fn parse_duration(s: &str) -> (r: Option<(u64, u32)>)
    requires
        spans::countable(s@),
    ensures
        r == parsed_duration(s@),
{
    humantime::parse_duration(s).ok().map(|d| (d.as_secs(), d.subsec_nanos()))
}

/// The span that a text stands for, where it can be counted.
pub open spec fn duration_of(s: Seq<char>) -> Option<(u64, u32)> {
    if spans::countable(s) {
        parsed_duration(s)
    } else {
        None
    }
}

fn read_duration(s: &str) -> (r: Option<(u64, u32)>)
    ensures
        r == duration_of(s@),
{
    if is_countable(s) {
        parse_duration(s)
    } else {
        None
    }
}

/// The longest span that counts as a recency bound: `i64::MAX` milliseconds.
pub open spec fn fits_bound(span: Span) -> bool {
    span.secs < 9_223_372_036_854_775 || (span.secs == 9_223_372_036_854_775 && span.nanos
        <= 807_000_000)
}

/// What a `--since` value stands for, given what it was read as.
pub open spec fn since_of(s: Seq<char>, parsed: Option<(u64, u32)>) -> Result<Span, Seq<char>> {
    match parsed {
        None => Err("invalid --since value '"@ + s + "' (try 24h, 2d, 1w)"@),
        Some((secs, nanos)) => if fits_bound(Span { secs, nanos }) {
            Ok(Span { secs, nanos })
        } else {
            Err("--since duration too large"@)
        },
    }
}

/// The view of a result whose error is a text.
pub open spec fn result_view<T>(r: Result<T, String>) -> Result<T, Seq<char>> {
    match r {
        Ok(v) => Ok(v),
        Err(e) => Err(e@),
    }
}

/// Checks a span that was read for `--since`.
pub fn check_since(s: &str, parsed: Option<(u64, u32)>) -> (r: Result<Span, String>)
    ensures
        result_view(r) == since_of(s@, parsed),
{
    match parsed {
        None => {
            let mut e = concat("invalid --since value '", s);
            push_str(&mut e, "' (try 24h, 2d, 1w)");
            Err(e)
        },
        Some((secs, nanos)) => if secs < 9_223_372_036_854_775 || (secs == 9_223_372_036_854_775
            && nanos <= 807_000_000) {
            Ok(Span { secs, nanos })
        } else {
            Err("--since duration too large".to_owned())
        },
    }
}

/// Parse `--since 24h` / `--since 2d` etc.
pub fn parse_since(s: &str) -> (r: Result<Span, String>)
    ensures
        result_view(r) == since_of(s@, duration_of(s@)),
{
    check_since(s, read_duration(s))
}

/// The interval between refreshes when none is given.
pub open spec fn default_poll_interval() -> Span {
    Span { secs: 2, nanos: 0 }
}

/// The shortest interval between refreshes.
pub open spec fn min_poll_interval() -> Span {
    Span { secs: 0, nanos: 250_000_000 }
}

/// What a `--poll-interval` value stands for, given what it was read as.
pub open spec fn poll_interval_of(s: Seq<char>, parsed: Option<(u64, u32)>) -> Result<Span, Seq<char>> {
    match parsed {
        None => Err("invalid --poll-interval value '"@ + s + "'"@),
        Some((secs, nanos)) => if (Span { secs, nanos }).total() < min_poll_interval().total() {
            Err("--poll-interval must be at least 250ms"@)
        } else {
            Ok(Span { secs, nanos })
        },
    }
}

/// Checks an interval that was read for `--poll-interval`.
pub fn check_poll_interval(s: &str, parsed: Option<(u64, u32)>) -> (r: Result<Span, String>)
    ensures
        result_view(r) == poll_interval_of(s@, parsed),
{
    match parsed {
        None => {
            let mut e = concat("invalid --poll-interval value '", s);
            push_str(&mut e, "'");
            Err(e)
        },
        Some((secs, nanos)) => {
            let span = Span { secs, nanos };
            if span.total_nanos() < 250_000_000 {
                Err("--poll-interval must be at least 250ms".to_owned())
            } else {
                Ok(span)
            }
        },
    }
}

/// Reads the refresh interval; it must not be shorter than the minimum.
pub fn parse_poll_interval(value: Option<&str>) -> (r: Result<Span, String>)
    ensures
        match value {
            Some(s) => result_view(r) == poll_interval_of(s@, duration_of(s@)),
            None => r == Ok::<Span, String>(default_poll_interval()),
        },
{
    match value {
        Some(s) => check_poll_interval(s, read_duration(s)),
        None => Ok(Span { secs: 2, nanos: 0 }),
    }
}

/// No interval that is accepted is shorter than the minimum.
pub proof fn poll_interval_is_not_too_fast(s: Seq<char>, parsed: Option<(u64, u32)>)
    requires
        poll_interval_of(s, parsed) is Ok,
    ensures
        poll_interval_of(s, parsed)->Ok_0.total() >= 250_000_000,
{
}

/// The patterns that times are written with.
pub open spec fn known_pattern(p: Seq<char>) -> bool {
    p == "%Y-%m-%dT%H:%M:%S"@ || p == "%Y-%m-%d %H:%M"@
}

/// A time in UTC written with a pattern, as `chrono` writes it; nothing where
/// the time is outside the range of `chrono::DateTime`.
pub uninterp spec fn written_time(secs: i64, nanos: u32, pattern: Seq<char>) -> Option<Seq<char>>;

/// `chrono::DateTime::from_timestamp` and `chrono::DateTime::format`: the time
/// in UTC, written with the pattern. The text is named, not described. Only
/// patterns that `chrono` knows are admitted, since printing another panics.
#[verifier::external_body]
fn format_time(secs: i64, nanos: u32, pattern: &str) -> (r: Option<String>)
    requires
        known_pattern(pattern@),
    ensures
        strmap::opt_view(r) == written_time(secs, nanos, pattern@),
{
    chrono::DateTime::from_timestamp(secs, nanos).map(|t| t.format(pattern).to_string())
}

/// A time in UTC as RFC 3339 has it, as `chrono` writes it; nothing where the
/// time is outside the range of `chrono::DateTime`.
pub uninterp spec fn rfc3339_time(secs: i64, nanos: u32) -> Option<Seq<char>>;

/// `chrono::DateTime::from_timestamp` and `chrono::DateTime::to_rfc3339`: the
/// time in UTC, written as RFC 3339 has it. The text is named, not described.
#[verifier::external_body]
fn format_rfc3339(secs: i64, nanos: u32) -> (r: Option<String>)
    ensures
        strmap::opt_view(r) == rfc3339_time(secs, nanos),
{
    chrono::DateTime::from_timestamp(secs, nanos).map(|t| t.to_rfc3339())
}

/// A text, or a dash for one that is missing.
pub open spec fn or_dash(o: Option<Seq<char>>) -> Seq<char> {
    match o {
        Some(s) => s,
        None => "-"@,
    }
}

fn unwrap_or_dash(o: Option<String>) -> (r: String)
    ensures
        r@ == or_dash(strmap::opt_view(o)),
{
    match o {
        Some(s) => s,
        None => "-".to_owned(),
    }
}

/// Date and time to the second; a dash for a time that cannot be written.
pub fn write_seconds(t: Timestamp) -> (r: String)
    ensures
        r@ == or_dash(written_time(t.secs, t.nanos, "%Y-%m-%dT%H:%M:%S"@)),
{
    unwrap_or_dash(format_time(t.secs, t.nanos, "%Y-%m-%dT%H:%M:%S"))
}

/// Date and time to the minute; a dash for a time that cannot be written.
pub fn write_minutes(t: Timestamp) -> (r: String)
    ensures
        r@ == or_dash(written_time(t.secs, t.nanos, "%Y-%m-%d %H:%M"@)),
{
    unwrap_or_dash(format_time(t.secs, t.nanos, "%Y-%m-%d %H:%M"))
}

/// The time as RFC 3339 has it; a dash for one that cannot be written.
pub fn write_rfc3339(t: Timestamp) -> (r: String)
    ensures
        r@ == or_dash(rfc3339_time(t.secs, t.nanos)),
{
    unwrap_or_dash(format_rfc3339(t.secs, t.nanos))
}

/// Whole seconds from `since` to `now`; none if `since` is later.
pub open spec fn age_secs(now: Timestamp, since: Timestamp) -> int {
    if now.total() <= since.total() {
        0
    } else {
        (now.total() - since.total()) / 1_000_000_000
    }
}

/// An age in its largest whole unit.
pub open spec fn age_text(secs: int) -> Seq<char> {
    if secs < 60 {
        text::decimal(secs as nat) + "s"@
    } else if secs < 3600 {
        text::decimal((secs / 60) as nat) + "m"@
    } else if secs < 86_400 {
        text::decimal((secs / 3600) as nat) + "h"@
    } else {
        text::decimal((secs / 86_400) as nat) + "d"@
    }
}

/// How long ago something was.
pub fn format_age(now: Timestamp, since: Timestamp) -> (r: String)
    ensures
        r@ == age_text(age_secs(now, since)),
{
    let delta: i128 = now.total_nanos() - since.total_nanos();
    let secs: i128 = if delta <= 0 {
        0
    } else {
        delta / 1_000_000_000
    };
    if secs < 60 {
        concat(write_u64(secs as u64).as_str(), "s")
    } else if secs < 3600 {
        concat(write_u64((secs / 60) as u64).as_str(), "m")
    } else if secs < 86_400 {
        concat(write_u64((secs / 3600) as u64).as_str(), "h")
    } else {
        concat(write_u64((secs / 86_400) as u64).as_str(), "d")
    }
}

/// Something that happened no longer ago than the span.
pub open spec fn within(now: Timestamp, span: Span, at: Timestamp) -> bool {
    at.total() >= now.total() - span.total()
}

pub fn is_within(now: Timestamp, span: Span, at: Timestamp) -> (r: bool)
    ensures
        r == within(now, span, at),
{
    at.total_nanos() >= now.total_nanos() - span.total_nanos()
}

/// A bound is accepted exactly where it can be counted in milliseconds, and as it was
/// read; an interval exactly where it is a quarter of a second or more. What was not read
/// is never accepted.
pub proof fn spans_are_accepted_as_read(s: Seq<char>, parsed: Option<(u64, u32)>)
    requires
        parsed matches Some((_, nanos)) ==> nanos < 1_000_000_000,
    ensures
        parsed is None ==> since_of(s, parsed) is Err && poll_interval_of(s, parsed) is Err,
        parsed is Some ==> {
            let (secs, nanos) = parsed->0;
            &&& since_of(s, parsed) is Ok <==> secs * 1_000_000_000 + nanos <= i64::MAX * 1_000_000
            &&& since_of(s, parsed) matches Ok(span) ==> span.secs == secs && span.nanos == nanos
            &&& poll_interval_of(s, parsed) is Ok <==> secs >= 1 || nanos >= 250_000_000
            &&& poll_interval_of(s, parsed) matches Ok(span) ==> span.secs == secs && span.nanos
                == nanos
        },
{
}

/// An age counts the largest unit that fits, and what is left over does not show.
pub proof fn ages_count_their_largest_unit(n: int, rest: int)
    ensures
        0 <= n < 60 ==> age_text(n) == text::decimal(n as nat) + "s"@,
        0 < n < 60 && 0 <= rest < 60 ==> age_text(n * 60 + rest) == text::decimal(n as nat) + "m"@,
        0 < n < 24 && 0 <= rest < 3600 ==> age_text(n * 3600 + rest) == text::decimal(n as nat)
            + "h"@,
        0 < n && 0 <= rest < 86_400 ==> age_text(n * 86_400 + rest) == text::decimal(n as nat)
            + "d"@,
{
    if 0 < n < 60 && 0 <= rest < 60 {
        assert((n * 60 + rest) / 60 == n) by (nonlinear_arith)
            requires
                0 <= rest < 60,
        ;
    }
    if 0 < n < 24 && 0 <= rest < 3600 {
        assert((n * 3600 + rest) / 3600 == n) by (nonlinear_arith)
            requires
                0 <= rest < 3600,
        ;
    }
    if 0 < n && 0 <= rest < 86_400 {
        assert((n * 86_400 + rest) / 86_400 == n) by (nonlinear_arith)
            requires
                0 <= rest < 86_400,
        ;
    }
}

/// An age is the whole seconds that have passed, and none where something is yet to come.
pub proof fn ages_are_whole_seconds(now: Timestamp, since: Timestamp)
    ensures
        now.total() >= since.total() ==> age_secs(now, since) * 1_000_000_000 <= now.total()
            - since.total() < (age_secs(now, since) + 1) * 1_000_000_000,
        now.total() < since.total() ==> age_secs(now, since) == 0,
{
}

/// Something is recent where no more time went by since than the span says, to the
/// nanosecond; what is yet to come is recent too.
pub proof fn recent_things_are_no_older_than_the_span(now: Timestamp, span: Span, at: Timestamp)
    ensures
        within(now, span, at) <==> (now.secs - at.secs) * 1_000_000_000 + (now.nanos - at.nanos)
            <= span.secs * 1_000_000_000 + span.nanos,
        within(now, span, now),
{
}

} // verus!
