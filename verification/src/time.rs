//! Spans of time.

use crate::text;
use crate::text::{decimal_text, digit_str};
use vstd::prelude::*;
use vstd::string::*;

verus! {

/// Nanoseconds in a second.
pub const NANOS_PER_SEC: u128 = 1_000_000_000;

/// Nanoseconds in a millisecond.
pub const NANOS_PER_MILLI: u128 = 1_000_000;

/// A span of time, exact to the nanosecond.
#[derive(Debug, Clone, Copy, PartialEq, Eq, Structural)]
pub struct TimeSpan {
    /// The length of the span.
    pub nanos: u128,
}

impl View for TimeSpan {
    type V = TimeSpan;

    open spec fn view(&self) -> TimeSpan {
        *self
    }
}

impl TimeSpan {
    /// A span of whole seconds.
    pub fn from_secs(secs: u64) -> (span: TimeSpan)
        ensures
            span.nanos == secs * 1_000_000_000,
    {
        TimeSpan { nanos: secs as u128 * NANOS_PER_SEC }
    }

    /// A span of whole milliseconds.
    pub fn from_millis(millis: u64) -> (span: TimeSpan)
        ensures
            span.nanos == millis * 1_000_000,
    {
        TimeSpan { nanos: millis as u128 * NANOS_PER_MILLI }
    }

    /// The whole seconds in the span.
    pub open spec fn secs(self) -> nat {
        (self.nanos / NANOS_PER_SEC) as nat
    }

    /// What is left of the span after another: nothing when the other is
    /// the longer one.
    pub open spec fn minus(self, other: TimeSpan) -> TimeSpan {
        TimeSpan {
            nanos: if self.nanos >= other.nanos {
                (self.nanos - other.nanos) as u128
            } else {
                0
            },
        }
    }

    /// The shorter of two spans.
    pub open spec fn shorter(self, other: TimeSpan) -> TimeSpan {
        if self.nanos <= other.nanos {
            self
        } else {
            other
        }
    }

    /// The whole seconds in the span.
    pub fn as_secs(self) -> (secs: u128)
        ensures
            secs == self.secs(),
    {
        self.nanos / NANOS_PER_SEC
    }

    /// What is left of the span after another: nothing when the other is
    /// the longer one.
    pub fn saturating_sub(self, other: TimeSpan) -> (rest: TimeSpan)
        ensures
            rest == self.minus(other),
    {
        if self.nanos >= other.nanos {
            TimeSpan { nanos: self.nanos - other.nanos }
        } else {
            TimeSpan { nanos: 0 }
        }
    }

    /// The shorter of two spans.
    pub fn at_most(self, other: TimeSpan) -> (span: TimeSpan)
        ensures
            span == self.shorter(other),
    {
        if self.nanos <= other.nanos {
            self
        } else {
            other
        }
    }
}

// ── Text form ──────────────────────────────────────────────────────────

/// The digits of a fraction, the most significant first, without trailing
/// zeros. `unit` is what a one in the first place is worth.
pub open spec fn fraction_digits(part: nat, unit: nat) -> Seq<char>
    decreases unit,
{
    if part == 0 || unit == 0 {
        Seq::empty()
    } else {
        text::digit_text(part / unit) + fraction_digits(part % unit, unit / 10)
    }
}

/// A number of whole units with a fraction, where there is one.
pub open spec fn fixed_point(whole: nat, part: nat, unit: nat) -> Seq<char> {
    if part == 0 {
        text::decimal(whole)
    } else {
        text::decimal(whole) + "."@ + fraction_digits(part, unit)
    }
}

impl TimeSpan {
    /// The span in words: exact, in the largest of seconds, milliseconds,
    /// microseconds and nanoseconds that it holds one of.
    pub open spec fn label(self) -> Seq<char> {
        let n = self.nanos as nat;
        if n >= 1_000_000_000 {
            fixed_point(n / 1_000_000_000, n % 1_000_000_000, 100_000_000) + "s"@
        } else if n >= 1_000_000 {
            fixed_point(n / 1_000_000, n % 1_000_000, 100_000) + "ms"@
        } else if n >= 1_000 {
            fixed_point(n / 1_000, n % 1_000, 100) + "µs"@
        } else {
            text::decimal(n) + "ns"@
        }
    }

    /// The span in words, such as `1.5s` or `100ms`.
    pub fn render(self) -> (label: String)
        ensures
            label@ == self.label(),
    {
        proof {
            reveal_with_fuel(power_of_ten, 10);
        }
        let n: u128 = self.nanos;
        if n >= 1_000_000_000 {
            let mut label = render_fixed(n / 1_000_000_000, n % 1_000_000_000, 100_000_000);
            label.append("s");
            label
        } else if n >= 1_000_000 {
            let mut label = render_fixed(n / 1_000_000, n % 1_000_000, 100_000);
            label.append("ms");
            label
        } else if n >= 1_000 {
            let mut label = render_fixed(n / 1_000, n % 1_000, 100);
            label.append("µs");
            label
        } else {
            let mut label = decimal_text(n);
            label.append("ns");
            label
        }
    }
}

/// One, ten, a hundred and so on.
spec fn power_of_ten(n: nat) -> bool
    decreases n,
{
    n == 1 || (n >= 10 && n % 10 == 0 && power_of_ten(n / 10))
}

/// Write a number of whole units with a fraction, where there is one.
fn render_fixed(whole: u128, part: u128, unit: u128) -> (text: String)
    requires
        part < 10 * unit,
        power_of_ten(unit as nat),
    ensures
        text@ == fixed_point(whole as nat, part as nat, unit as nat),
{
    let mut text = decimal_text(whole);
    if part == 0 {
        return text;
    }
    text.append(".");
    let ghost start = text@;
    let mut rest: u128 = part;
    let mut at: u128 = unit;
    while rest > 0 && at > 0
        invariant
            at > 0 ==> rest < 10 * at && power_of_ten(at as nat),
            start + fraction_digits(part as nat, unit as nat) == text@ + fraction_digits(
                rest as nat,
                at as nat,
            ),
        decreases at,
    {
        assert(rest / at < 10) by (nonlinear_arith)
            requires
                rest < 10 * at,
                at > 0,
        ;
        let digit: u8 = (rest / at) as u8;
        let ghost before = text@;
        text.append(digit_str(digit));
        proof {
            let tail = fraction_digits((rest % at) as nat, (at / 10) as nat);
            assert(text@ + tail =~= before + (text::digit_text((rest / at) as nat) + tail));
        }
        rest = rest % at;
        at = at / 10;
    }
    assert(text@ + Seq::<char>::empty() =~= text@);
    text
}

/// What is left of a span and what was taken make up the span again, unless
/// more was taken than it holds, when nothing is left.
pub proof fn spans_are_used_up(span: TimeSpan, used: TimeSpan)
    ensures
        used.nanos <= span.nanos ==> span.minus(used).nanos + used.nanos == span.nanos,
        used.nanos >= span.nanos ==> span.minus(used).nanos == 0,
{
}

/// The shorter of two spans is one of them and no longer than either.
pub proof fn the_shorter_span_is_no_longer(a: TimeSpan, b: TimeSpan)
    ensures
        a.shorter(b) == a || a.shorter(b) == b,
        a.shorter(b).nanos <= a.nanos,
        a.shorter(b).nanos <= b.nanos,
{
}

/// The whole seconds of a span fit into it, and one more would not.
pub proof fn whole_seconds_fit(span: TimeSpan)
    ensures
        span.secs() * 1_000_000_000 <= span.nanos,
        span.nanos < (span.secs() + 1) * 1_000_000_000,
{
}

/// A span of whole seconds, of at least one, is written as their number.
pub proof fn whole_seconds_are_written_plainly(span: TimeSpan, secs: nat)
    requires
        secs > 0,
        span.nanos == secs * 1_000_000_000,
    ensures
        span.label() == text::decimal(secs) + "s"@,
{
}

/// What the digits of a fraction are worth, where a one in the first place is
/// worth `unit`.
pub open spec fn fraction_worth(digits: Seq<char>, unit: nat) -> nat
    decreases digits.len(),
{
    if digits.len() == 0 {
        0
    } else {
        (digits[0] as u32 - '0' as u32) as nat * unit + fraction_worth(
            digits.drop_first(),
            unit / 10,
        )
    }
}

proof fn fractions_read_back(part: nat, unit: nat)
    requires
        part < 10 * unit,
        power_of_ten(unit),
    ensures
        fraction_worth(fraction_digits(part, unit), unit) == part,
        part > 0 ==> fraction_digits(part, unit).len() > 0 && fraction_digits(part, unit).last()
            != '0',
    decreases unit,
{
    if part > 0 {
        let digit = part / unit;
        let rest = part % unit;
        assert(digit < 10 && rest < unit && part == digit * unit + rest) by (nonlinear_arith)
            requires
                part < 10 * unit,
                unit > 0,
                digit == part / unit,
                rest == part % unit,
        ;
        text::decimals_read_back(digit);
        let text = text::digit_text(digit);
        assert(text == text::decimal(digit));
        reveal_strlit("0");
        reveal_strlit("1");
        reveal_strlit("2");
        reveal_strlit("3");
        reveal_strlit("4");
        reveal_strlit("5");
        reveal_strlit("6");
        reveal_strlit("7");
        reveal_strlit("8");
        reveal_strlit("9");
        assert(text.len() == 1);
        assert((text[0] as u32 - '0' as u32) as nat == digit);
        let tail = fraction_digits(rest, unit / 10);
        let all = fraction_digits(part, unit);
        assert(all =~= text + tail);
        assert(all[0] == text[0]);
        assert(all.drop_first() =~= tail);
        if unit > 1 {
            fractions_read_back(rest, unit / 10);
        } else {
            assert(rest == 0);
            assert(tail =~= Seq::empty());
        }
        if rest == 0 {
            assert(tail =~= Seq::empty());
            assert(digit > 0) by (nonlinear_arith)
                requires
                    part > 0,
                    rest == 0,
                    part == digit * unit + rest,
            ;
            assert(all.last() == text[0]);
        } else {
            assert(all.last() == tail.last());
        }
    }
}

/// A span is written in the largest unit that it holds one of, without losing a
/// nanosecond: the whole units, then the rest as a fraction of a unit where
/// there is one, which reads back as the rest and has no trailing zero.
pub proof fn labels_are_exact(span: TimeSpan, one: nat)
    requires
        one == 1_000_000_000 || one == 1_000_000 || one == 1_000,
        span.nanos >= one,
        one < 1_000_000_000 ==> span.nanos < 1_000 * one,
    ensures
        ({
            let unit = if one == 1_000_000_000 {
                "s"@
            } else if one == 1_000_000 {
                "ms"@
            } else {
                "µs"@
            };
            let whole = span.nanos as nat / one;
            let part = span.nanos as nat % one;
            let fraction = fraction_digits(part, one / 10);
            &&& part == 0 ==> span.label() == text::decimal(whole) + unit
            &&& part > 0 ==> span.label() == text::decimal(whole) + "."@ + fraction + unit
            &&& part > 0 ==> fraction_worth(fraction, one / 10) == part && fraction.last() != '0'
        }),
{
    reveal_with_fuel(power_of_ten, 10);
    fractions_read_back(span.nanos as nat % one, one / 10);
}

/// A span shorter than a microsecond is written in whole nanoseconds.
pub proof fn short_spans_are_written_in_nanoseconds(span: TimeSpan)
    requires
        span.nanos < 1_000,
    ensures
        span.label() == text::decimal(span.nanos as nat) + "ns"@,
{
}

} // verus!
