//! How far a text of durations counts.
//!
//! A text such as `1h 30min 1.5s` is a row of numbers with units. The sum of the
//! numbers read so far is kept in nanoseconds, to tell whether it ever comes to the
//! first span that can no longer be counted in seconds.

use vstd::prelude::*;
use crate::text::{self, chars_of, same};

verus! {

/// The first span that cannot be counted: one second more than the largest number of
/// seconds, in nanoseconds.
pub const LIMIT: u128 = 18_446_744_073_709_551_616_000_000_000;

/// More digits than these behind a point are not read.
pub const FINEST: u128 = 10_000_000_000_000_000_000;

/// A letter of a unit of time.
pub open spec fn is_unit_letter(c: char) -> bool {
    'a' <= c <= 'z' || 'A' <= c <= 'Z' || c == '\u{b5}'
}

/// The nanoseconds in a unit; none in what is no unit.
pub open spec fn unit_nanos(u: Seq<char>) -> nat {
    if u == "nanos"@ || u == "nsec"@ || u == "ns"@ {
        1
    } else if u == "usec"@ || u == "us"@ || u == "\u{b5}s"@ {
        1_000
    } else if u == "millis"@ || u == "msec"@ || u == "ms"@ {
        1_000_000
    } else if u == "seconds"@ || u == "second"@ || u == "secs"@ || u == "sec"@ || u == "s"@ {
        1_000_000_000
    } else if u == "minutes"@ || u == "minute"@ || u == "min"@ || u == "mins"@ || u == "m"@ {
        60_000_000_000
    } else if u == "hours"@ || u == "hour"@ || u == "hr"@ || u == "hrs"@ || u == "h"@ {
        3_600_000_000_000
    } else if u == "days"@ || u == "day"@ || u == "d"@ {
        86_400_000_000_000
    } else if u == "weeks"@ || u == "week"@ || u == "wk"@ || u == "wks"@ || u == "w"@ {
        604_800_000_000_000
    } else if u == "months"@ || u == "month"@ || u == "M"@ {
        2_630_016_000_000_000
    } else if u == "years"@ || u == "year"@ || u == "yr"@ || u == "yrs"@ || u == "y"@ {
        31_557_600_000_000_000
    } else {
        0
    }
}

/// What was read of a text: the number in front of a unit, its digits behind a point as
/// `part` of `scale`, the letters of the unit, the sum of all numbers before, and
/// whether a sum came to the limit.
pub struct Reading {
    pub whole: nat,
    pub part: nat,
    pub scale: nat,
    pub pointed: bool,
    pub unit: Seq<char>,
    pub sum: nat,
    pub reached: bool,
}

impl Reading {
    pub open spec fn nothing() -> Reading {
        Reading {
            whole: 0,
            part: 0,
            scale: 1,
            pointed: false,
            unit: Seq::empty(),
            sum: 0,
            reached: false,
        }
    }

    /// Adds the number to the sum, first what is in front of its point, then what is
    /// behind. A number without a unit goes on.
    pub open spec fn summed(self) -> Reading {
        if self.unit.len() == 0 {
            self
        } else {
            let first = self.sum + self.whole * unit_nanos(self.unit);
            let second = first + self.part * unit_nanos(self.unit) / self.scale;
            Reading {
                sum: second,
                reached: self.reached || first == LIMIT || second == LIMIT,
                ..Reading::nothing()
            }
        }
    }

    /// Reads a digit.
    pub open spec fn with_digit(self, d: nat) -> Reading {
        if !self.pointed {
            Reading { whole: self.whole * 10 + d, ..self }
        } else if self.scale * 10 <= FINEST {
            Reading { part: self.part * 10 + d, scale: self.scale * 10, ..self }
        } else {
            self
        }
    }

    /// Reads one character.
    pub open spec fn next(self, c: char) -> Reading {
        if is_unit_letter(c) {
            Reading { unit: self.unit.push(c), ..self }
        } else if '0' <= c <= '9' {
            self.summed().with_digit((c as int - '0' as int) as nat)
        } else if c == '.' {
            Reading { pointed: true, ..self.summed() }
        } else {
            self.summed()
        }
    }
}

/// What the first `n` characters of a text say.
pub open spec fn reading(s: Seq<char>, n: int) -> Reading
    decreases n,
{
    if n <= 0 {
        Reading::nothing()
    } else {
        reading(s, n - 1).next(s[n - 1])
    }
}

/// The sum never comes to the limit.
pub open spec fn countable(s: Seq<char>) -> bool {
    !reading(s, s.len() as int).summed().reached
}

/// A number, or one that stands for all beyond the limit.
spec fn capped(n: int) -> int {
    if n > LIMIT {
        LIMIT + 1
    } else {
        n
    }
}

/// A reading at work.
struct Meter {
    whole: u128,
    part: u128,
    scale: u128,
    pointed: bool,
    unit: String,
    sum: u128,
    reached: bool,
}

fn nanos_of(u: &str) -> (r: u128)
    ensures
        r == unit_nanos(u@),
{
    if same(u, "nanos") || same(u, "nsec") || same(u, "ns") {
        1
    } else if same(u, "usec") || same(u, "us") || same(u, "\u{b5}s") {
        1_000
    } else if same(u, "millis") || same(u, "msec") || same(u, "ms") {
        1_000_000
    } else if same(u, "seconds") || same(u, "second") || same(u, "secs") || same(u, "sec") || same(
        u,
        "s",
    ) {
        1_000_000_000
    } else if same(u, "minutes") || same(u, "minute") || same(u, "min") || same(u, "mins") || same(
        u,
        "m",
    ) {
        60_000_000_000
    } else if same(u, "hours") || same(u, "hour") || same(u, "hr") || same(u, "hrs") || same(
        u,
        "h",
    ) {
        3_600_000_000_000
    } else if same(u, "days") || same(u, "day") || same(u, "d") {
        86_400_000_000_000
    } else if same(u, "weeks") || same(u, "week") || same(u, "wk") || same(u, "wks") || same(
        u,
        "w",
    ) {
        604_800_000_000_000
    } else if same(u, "months") || same(u, "month") || same(u, "M") {
        2_630_016_000_000_000
    } else if same(u, "years") || same(u, "year") || same(u, "yr") || same(u, "yrs") || same(
        u,
        "y",
    ) {
        31_557_600_000_000_000
    } else {
        0
    }
}

fn cap(n: u128) -> (r: u128)
    ensures
        r == capped(n as int),
{
    if n > LIMIT {
        LIMIT + 1
    } else {
        n
    }
}

/// The product of a capped number, capped again.
fn times(n: u128, by: u128, Ghost(exact): Ghost<nat>) -> (r: u128)
    requires
        n == capped(exact as int),
    ensures
        r == capped(exact * by),
{
    if by == 0 {
        proof {
            assert(exact * by == 0) by (nonlinear_arith)
                requires
                    by == 0,
            ;
        }
        return 0;
    }
    if n > LIMIT / by {
        proof {
            let q = LIMIT as int / by as int;
            assert(exact >= q + 1);
            assert(exact * by >= (q + 1) * by) by (nonlinear_arith)
                requires
                    exact >= q + 1,
                    by > 0,
            ;
            assert((q + 1) * by > LIMIT) by (nonlinear_arith)
                requires
                    q == LIMIT as int / by as int,
                    by > 0,
            ;
        }
        return LIMIT + 1;
    }
    proof {
        let q = LIMIT as int / by as int;
        assert(q <= LIMIT) by (nonlinear_arith)
            requires
                q == LIMIT as int / by as int,
                by > 0,
        ;
        assert(n == exact);
        assert(n * by <= q * by) by (nonlinear_arith)
            requires
                n <= q,
                by > 0,
        ;
        assert(q * by <= LIMIT) by (nonlinear_arith)
            requires
                q == LIMIT as int / by as int,
                by > 0,
        ;
    }
    n * by
}

impl Meter {
    spec fn is_at(self, r: Reading) -> bool {
        &&& self.whole == capped(r.whole as int)
        &&& self.part == r.part
        &&& self.scale == r.scale
        &&& r.part < r.scale <= FINEST
        &&& self.pointed == r.pointed
        &&& self.unit@ == r.unit
        &&& self.sum == capped(r.sum as int)
        &&& self.reached == r.reached
    }

    fn add_up(self, Ghost(r): Ghost<Reading>) -> (m: Meter)
        requires
            self.is_at(r),
        ensures
            m.is_at(r.summed()),
    {
        if self.unit.as_str().unicode_len() == 0 {
            return self;
        }
        let by = nanos_of(self.unit.as_str());
        let first = cap(self.sum + times(self.whole, by, Ghost(r.whole)));
        proof {
            assert(by <= 31_557_600_000_000_000);
            assert(self.part * by <= FINEST * 31_557_600_000_000_000) by (nonlinear_arith)
                requires
                    self.part <= FINEST,
                    by <= 31_557_600_000_000_000,
            ;
            assert(self.part * by / self.scale as int <= self.part * by) by (nonlinear_arith)
                requires
                    self.scale >= 1,
                    self.part * by >= 0,
            ;
        }
        let second = cap(first + self.part * by / self.scale);
        Meter {
            whole: 0,
            part: 0,
            scale: 1,
            pointed: false,
            unit: String::new(),
            sum: second,
            reached: self.reached || first == LIMIT || second == LIMIT,
        }
    }

    fn read_digit(self, d: u128, Ghost(r): Ghost<Reading>) -> (m: Meter)
        requires
            self.is_at(r),
            d <= 9,
        ensures
            m.is_at(r.with_digit(d as nat)),
    {
        let mut m = self;
        if !m.pointed {
            m.whole = cap(m.whole * 10 + d);
        } else if m.scale * 10 <= FINEST {
            m.part = m.part * 10 + d;
            m.scale = m.scale * 10;
        }
        m
    }

    fn read_char(self, c: char, Ghost(r): Ghost<Reading>) -> (m: Meter)
        requires
            self.is_at(r),
        ensures
            m.is_at(r.next(c)),
    {
        if ('a' <= c && c <= 'z') || ('A' <= c && c <= 'Z') || c == '\u{b5}' {
            let mut m = self;
            m.unit.push(c);
            return m;
        }
        let mut m = self.add_up(Ghost(r));
        if '0' <= c && c <= '9' {
            return m.read_digit(c as u128 - 48, Ghost(r.summed()));
        }
        if c == '.' {
            m.pointed = true;
        }
        m
    }
}

/// Whether the sum never comes to the limit.
pub fn is_countable(t: &str) -> (r: bool)
    ensures
        r == countable(t@),
{
    let chars = chars_of(t);
    let mut m = Meter {
        whole: 0,
        part: 0,
        scale: 1,
        pointed: false,
        unit: String::new(),
        sum: 0,
        reached: false,
    };
    let mut i: usize = 0;
    while i < chars.len()
        invariant
            i <= chars.len(),
            m.is_at(reading(chars@, i as int)),
        decreases chars.len() - i,
    {
        m = m.read_char(chars[i], Ghost(reading(chars@, i as int)));
        i += 1;
    }
    let m = m.add_up(Ghost(reading(chars@, i as int)));
    !m.reached
}

proof fn digits_are_read(s: Seq<char>, n: int)
    requires
        0 <= n <= s.len(),
        forall|i: int| 0 <= i < n ==> '0' <= #[trigger] s[i] <= '9',
    ensures
        reading(s, n) == (Reading { whole: text::number(s.take(n)), ..Reading::nothing() }),
    decreases n,
{
    if n > 0 {
        digits_are_read(s, n - 1);
        assert(s.take(n).drop_last() =~= s.take(n - 1));
        assert(s.take(n).last() == s[n - 1]);
    } else {
        assert(s.take(0) =~= Seq::<char>::empty());
    }
}

proof fn letters_are_read(s: Seq<char>, k: int, n: int)
    requires
        0 <= k <= n <= s.len(),
        forall|i: int| 0 <= i < k ==> '0' <= #[trigger] s[i] <= '9',
        forall|i: int| k <= i < n ==> is_unit_letter(#[trigger] s[i]),
    ensures
        reading(s, n) == (Reading {
            whole: text::number(s.take(k)),
            unit: s.subrange(k, n),
            ..Reading::nothing()
        }),
    decreases n - k,
{
    if n > k {
        letters_are_read(s, k, n - 1);
        assert(s.subrange(k, n - 1).push(s[n - 1]) =~= s.subrange(k, n));
    } else {
        digits_are_read(s, k);
        assert(s.subrange(k, k) =~= Seq::<char>::empty());
    }
}

/// A number with a unit behind it stands for so many of that unit.
pub proof fn numbers_count_their_unit(n: nat, unit: Seq<char>)
    requires
        unit.len() > 0,
        forall|i: int| 0 <= i < unit.len() ==> is_unit_letter(#[trigger] unit[i]),
    ensures
        ({
            let s = text::decimal(n) + unit;
            reading(s, s.len() as int).summed().sum == n * unit_nanos(unit)
        }),
{
    let d = text::decimal(n);
    let s = d + unit;
    let k = d.len() as int;
    text::decimal_is_number(n);
    assert forall|i: int| 0 <= i < k implies '0' <= #[trigger] s[i] <= '9' by {
        assert(s[i] == d[i]);
    }
    assert forall|i: int| k <= i < s.len() implies is_unit_letter(#[trigger] s[i]) by {
        assert(s[i] == unit[i - k]);
    }
    letters_are_read(s, k, s.len() as int);
    assert(s.take(k) =~= d);
    assert(s.subrange(k, s.len() as int) =~= unit);
    let r = reading(s, s.len() as int);
    assert(0 * unit_nanos(unit) / 1 == 0);
}

} // verus!
