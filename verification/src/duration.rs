//! Spans of time, and how they are written in logs.

#[allow(unused_imports)]
use crate::text::{decimal, decimal_text, last_digit};
use crate::text::number_text;
use std::time::Duration;
use vstd::prelude::*;

verus! {

/// The length of a span of time, in nanoseconds.
pub uninterp spec fn duration_nanos(duration: Duration) -> nat;

/// So many seconds, in nanoseconds.
pub open spec fn seconds(n: nat) -> nat {
    n * 1_000_000_000
}

/// A span of whole seconds: `Duration::from_secs`.
///
/// The contract says that it is that many seconds long.
pub assume_specification[ Duration::from_secs ](secs: u64) -> (duration: Duration)
    ensures
        duration_nanos(duration) == seconds(secs as nat),
;

/// The whole seconds of a span: `Duration::as_secs`.
///
/// The contract says that they are counted without the fraction of a second.
pub assume_specification[ Duration::as_secs ](duration: &Duration) -> (secs: u64)
    ensures
        secs == duration_nanos(*duration) / 1_000_000_000,
;

/// The fraction of a second in a span: `Duration::subsec_nanos`.
///
/// The contract says that it is counted in nanoseconds, without the whole seconds.
pub assume_specification[ Duration::subsec_nanos ](duration: &Duration) -> (nanos: u32)
    ensures
        nanos == duration_nanos(*duration) % 1_000_000_000,
;

/// The digits of `n` from the one that counts units of `unit` on, as far as they
/// are not all zero.
pub open spec fn fraction_digits(n: nat, unit: nat) -> Seq<char>
    decreases unit,
{
    if n == 0 || unit == 0 {
        Seq::empty()
    } else {
        seq![last_digit(n / unit)] + fraction_digits(n % unit, unit / 10)
    }
}

/// `n` as a number of units of `unit`: the whole ones, and the rest as a decimal
/// fraction where there is one.
pub open spec fn decimal_fraction(n: nat, unit: nat) -> Seq<char> {
    decimal_text(n / unit) + if n % unit == 0 {
        Seq::empty()
    } else {
        seq!['.'] + fraction_digits(n % unit, unit / 10)
    }
}

/// How a span of time is written in logs: in the largest of seconds, milliseconds,
/// microseconds and nanoseconds of which it holds one.
pub open spec fn duration_debug(nanos: nat) -> Seq<char> {
    if nanos >= 1_000_000_000 {
        decimal_fraction(nanos, 1_000_000_000) + "s"@
    } else if nanos >= 1_000_000 {
        decimal_fraction(nanos, 1_000_000) + "ms"@
    } else if nanos >= 1_000 {
        decimal_fraction(nanos, 1_000) + "\u{b5}s"@
    } else {
        decimal_text(nanos) + "ns"@
    }
}

/// Appends the digits of `n` from the one that counts units of `unit` on.
fn push_digits(text: &mut String, n: u32, unit: u32)
    ensures
        final(text)@ == old(text)@ + fraction_digits(n as nat, unit as nat),
    decreases unit,
{
    if n == 0 || unit == 0 {
        return ;
    }
    let digit: u32 = (n / unit) % 10;
    text.push((digit as u8 + 48) as char);
    assert(text@ == old(text)@ + seq![last_digit(n as nat / unit as nat)]);
    push_digits(text, n % unit, unit / 10);
}

/// `whole` and, where there is one, the fraction that `rest` is of ten times `unit`.
fn decimal_fraction_text(whole: u64, rest: u32, unit: u32) -> (text: String)
    ensures
        text@ == decimal_text(whole as nat) + if rest == 0 {
            Seq::empty()
        } else {
            seq!['.'] + fraction_digits(rest as nat, unit as nat)
        },
{
    let mut text = number_text(whole);
    if rest > 0 {
        text.push('.');
        push_digits(&mut text, rest, unit);
    }
    text
}

/// How a span of time is written in logs.
pub fn duration_text(duration: &Duration) -> (text: String)
    ensures
        text@ == duration_debug(duration_nanos(*duration)),
{
    let secs: u64 = duration.as_secs();
    let nanos: u32 = duration.subsec_nanos();
    if secs > 0 {
        let mut text = decimal_fraction_text(secs, nanos, 100_000_000);
        text.append("s");
        text
    } else if nanos >= 1_000_000 {
        let mut text = decimal_fraction_text(
            (nanos / 1_000_000) as u64,
            nanos % 1_000_000,
            100_000,
        );
        text.append("ms");
        text
    } else if nanos >= 1_000 {
        let mut text = decimal_fraction_text((nanos / 1_000) as u64, nanos % 1_000, 100);
        text.append("\u{b5}s");
        text
    } else {
        let mut text = number_text(nanos as u64);
        text.append("ns");
        text
    }
}

/// So many seconds are that many times a thousand million nanoseconds.
pub proof fn law_seconds_count_nanoseconds(n: nat)
    ensures
        seconds(n) == n * 1_000_000_000,
{
}

/// A whole number of units is written without a fraction, in the largest unit of
/// which the span holds one.
pub proof fn law_whole_units_have_no_fraction(n: nat)
    ensures
        n > 0 ==> duration_debug(n * 1_000_000_000) == decimal_text(n) + "s"@,
        0 < n < 1_000 ==> duration_debug(n * 1_000_000) == decimal_text(n) + "ms"@,
        0 < n < 1_000 ==> duration_debug(n * 1_000) == decimal_text(n) + "\u{b5}s"@,
        n < 1_000 ==> duration_debug(n) == decimal_text(n) + "ns"@,
{
    assert(decimal_text(n) + Seq::<char>::empty() == decimal_text(n));
}

/// What is more than whole units follows behind a period, with the unit at the end.
pub proof fn law_rest_is_written_as_a_fraction(whole: nat, rest: nat)
    ensures
        whole > 0 && 0 < rest < 1_000_000_000 ==> duration_debug(whole * 1_000_000_000 + rest)
            == decimal_text(whole) + seq!['.'] + fraction_digits(rest, 100_000_000) + "s"@,
        0 < whole < 1_000 && 0 < rest < 1_000_000 ==> duration_debug(whole * 1_000_000 + rest)
            == decimal_text(whole) + seq!['.'] + fraction_digits(rest, 100_000) + "ms"@,
        0 < whole < 1_000 && 0 < rest < 1_000 ==> duration_debug(whole * 1_000 + rest)
            == decimal_text(whole) + seq!['.'] + fraction_digits(rest, 100) + "\u{b5}s"@,
{
    let text = decimal_text(whole);
    let dot = seq!['.'];
    assert(text + (dot + fraction_digits(rest, 100_000_000)) == text + dot + fraction_digits(
        rest,
        100_000_000,
    ));
    assert(text + (dot + fraction_digits(rest, 100_000)) == text + dot + fraction_digits(
        rest,
        100_000,
    ));
    assert(text + (dot + fraction_digits(rest, 100)) == text + dot + fraction_digits(rest, 100));
}

/// Ten to the power of `k`.
pub open spec fn ten_to(k: nat) -> nat
    decreases k,
{
    if k == 0 {
        1
    } else {
        10 * ten_to((k - 1) as nat)
    }
}

/// The digits of a fraction write it: filled up with zeros to all places, they are
/// the number itself, and the last of them is no zero.
pub proof fn law_fraction_digits_write_the_fraction(n: nat, k: nat)
    requires
        0 < n < 10 * ten_to(k),
    ensures
        1 <= fraction_digits(n, ten_to(k)).len() <= k + 1,
        forall|i: int|
            0 <= i < fraction_digits(n, ten_to(k)).len() ==> 48 <= #[trigger] fraction_digits(
                n,
                ten_to(k),
            )[i] as int <= 57,
        decimal(fraction_digits(n, ten_to(k))) * ten_to(
            (k + 1 - fraction_digits(n, ten_to(k)).len()) as nat,
        ) == n,
        fraction_digits(n, ten_to(k)).last() != '0',
    decreases k,
{
    let unit = ten_to(k);
    lemma_ten_to(k);
    let text = fraction_digits(n, unit);
    let head = n / unit;
    let rest = n % unit;
    assert(head < 10 && n == head * unit + rest && rest < unit) by (nonlinear_arith)
        requires
            n < 10 * unit,
            unit > 0,
            head == n / unit,
            rest == n % unit,
    ;
    let more = fraction_digits(rest, unit / 10);
    assert(text == seq![last_digit(head)] + more);
    lemma_first_digit(last_digit(head), more);
    assert(last_digit(head) as int == head + 48);
    if rest == 0 {
        assert(more == Seq::<char>::empty());
        assert(text == seq![last_digit(head)]);
        assert(head * unit == n);
        assert(head > 0) by (nonlinear_arith)
            requires
                head * unit == n,
                n > 0,
                unit > 0,
        ;
        assert(decimal(more) == 0);
        assert(head * ten_to(0) == head) by (nonlinear_arith)
            requires
                ten_to(0) == 1,
        ;
    } else {
        assert(k > 0);
        let less = (k - 1) as nat;
        assert(unit / 10 == ten_to(less));
        law_fraction_digits_write_the_fraction(rest, less);
        let places = (k + 1 - text.len()) as nat;
        assert(places == less + 1 - more.len());
        lemma_ten_to_sum(more.len(), places);
        assert(ten_to(more.len()) * ten_to(places) == unit);
        assert(decimal(text) * ten_to(places) == head * unit + decimal(more) * ten_to(places))
            by (nonlinear_arith)
            requires
                decimal(text) == head * ten_to(more.len()) + decimal(more),
                ten_to(more.len()) * ten_to(places) == unit,
        ;
        assert forall|i: int| 0 <= i < text.len() implies 48 <= #[trigger] text[i] as int <= 57 by {
            if i > 0 {
                assert(48 <= more[i - 1] as int <= 57);
            }
        }
        assert(text.last() == more.last());
    }
}

proof fn lemma_ten_to(k: nat)
    ensures
        ten_to(k) > 0,
    decreases k,
{
    if k > 0 {
        lemma_ten_to((k - 1) as nat);
    }
}

proof fn lemma_ten_to_sum(a: nat, b: nat)
    ensures
        ten_to(a) * ten_to(b) == ten_to(a + b),
    decreases a,
{
    if a > 0 {
        let less = (a - 1) as nat;
        lemma_ten_to_sum(less, b);
        assert((10 * ten_to(less)) * ten_to(b) == 10 * (ten_to(less) * ten_to(b)))
            by (nonlinear_arith);
        assert((a + b - 1) as nat == less + b);
    } else {
        assert(ten_to(0) * ten_to(b) == ten_to(b)) by (nonlinear_arith)
            requires
                ten_to(0) == 1,
        ;
    }
}

/// What the first of several digits counts.
proof fn lemma_first_digit(c: char, more: Seq<char>)
    requires
        48 <= c as int <= 57,
    ensures
        decimal(seq![c] + more) == (c as int - 48) * ten_to(more.len()) + decimal(more),
    decreases more.len(),
{
    let text = seq![c] + more;
    if more.len() == 0 {
        assert(text.drop_last() == Seq::<char>::empty());
        assert(decimal(text.drop_last()) == 0);
        assert((c as int - 48) * ten_to(0) == c as int - 48) by (nonlinear_arith)
            requires
                ten_to(0) == 1,
        ;
        assert(decimal(more) == 0);
    } else {
        lemma_first_digit(c, more.drop_last());
        assert(text.drop_last() == seq![c] + more.drop_last());
        let n = c as int - 48;
        let power = ten_to(more.drop_last().len()) as int;
        assert(ten_to(more.len()) == 10 * power);
        assert(n * ten_to(more.len()) == 10 * (n * power)) by (nonlinear_arith)
            requires
                ten_to(more.len()) == 10 * power,
        ;
        assert(text.last() == more.last());
    }
}

} // verus!
