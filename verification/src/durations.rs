//! The model of `std::time::Duration` used by the contracts: whole seconds and
//! the sub-second nanoseconds, as std reports them.

use std::time::Duration;
use vstd::prelude::*;
use crate::text::{dec_text, digit_char, push_chars, push_decimal};

verus! {

/// What `Duration::as_secs` reports for `d`.
pub uninterp spec fn duration_secs(d: Duration) -> u64;

/// What `Duration::subsec_nanos` reports for `d`.
pub uninterp spec fn duration_subsec_nanos(d: Duration) -> u32;

/// std's `Clone` for `Duration` (a `Copy` type): the clone is the same value.
pub assume_specification[ <Duration as Clone>::clone ](d: &Duration) -> (r: Duration)
    ensures
        r == *d,
;

/// The whole span in nanoseconds.
pub open spec fn duration_nanos(d: Duration) -> int {
    duration_secs(d) * 1_000_000_000 + duration_subsec_nanos(d)
}

/// The longest span a `Duration` can hold, in nanoseconds.
pub open spec fn max_duration_nanos() -> int {
    u64::MAX * 1_000_000_000 + 999_999_999
}

/// std's `Duration::as_secs`: the whole seconds in `d`.
#[verifier::external_body]
pub(crate) fn secs_of(d: Duration) -> (r: u64)
    ensures
        r == duration_secs(d),
{
    d.as_secs()
}

/// std's `Duration::subsec_nanos`: the fractional part of `d` in nanoseconds,
/// always below one second.
#[verifier::external_body]
pub(crate) fn subsec_nanos_of(d: Duration) -> (r: u32)
    ensures
        r == duration_subsec_nanos(d),
        r < 1_000_000_000,
{
    d.subsec_nanos()
}

/// std's `Duration::new`: with `nanos` under one second it keeps both parts as
/// given (and cannot overflow).
#[verifier::external_body]
pub(crate) fn duration_from_parts(secs: u64, nanos: u32) -> (d: Duration)
    requires
        nanos < 1_000_000_000,
    ensures
        duration_secs(d) == secs,
        duration_subsec_nanos(d) == nanos,
{
    Duration::new(secs, nanos)
}

/// A span of whole seconds.
pub fn duration_from_secs(secs: u64) -> (d: Duration)
    ensures
        duration_secs(d) == secs,
        duration_subsec_nanos(d) == 0,
{
    duration_from_parts(secs, 0)
}

/// `d * k`, or the longest `Duration` when that does not fit (std's
/// `Duration::saturating_mul`).
pub fn saturating_mul_duration(d: Duration, k: u32) -> (r: Duration)
    ensures
        duration_subsec_nanos(r) < 1_000_000_000,
        duration_nanos(r) == if duration_nanos(d) * k <= max_duration_nanos() {
            duration_nanos(d) * k
        } else {
            max_duration_nanos()
        },
{
    let secs = secs_of(d);
    let nanos = subsec_nanos_of(d);
    assert(nanos as int * k as int <= 999_999_999 * 4_294_967_295) by (nonlinear_arith)
        requires
            nanos < 1_000_000_000,
            k <= 4_294_967_295,
    ;
    assert(secs as int * k as int <= 18_446_744_073_709_551_615 * 4_294_967_295)
        by (nonlinear_arith)
        requires
            secs <= 18_446_744_073_709_551_615,
            k <= 4_294_967_295,
    ;
    let total_n: u64 = nanos as u64 * k as u64;
    let extra: u64 = total_n / 1_000_000_000;
    let rem: u32 = (total_n % 1_000_000_000) as u32;
    let s2: u128 = secs as u128 * k as u128 + extra as u128;
    proof {
        let s = secs as int;
        let n = nanos as int;
        let kk = k as int;
        assert(total_n == n * kk);
        assert(total_n == extra * 1_000_000_000 + rem);
        assert((s * 1_000_000_000 + n) * kk == (s * kk) * 1_000_000_000 + n * kk)
            by (nonlinear_arith);
        assert((s * kk + extra) * 1_000_000_000 == (s * kk) * 1_000_000_000 + extra
            * 1_000_000_000) by (nonlinear_arith);
    }
    if s2 > u64::MAX as u128 {
        proof {
            assert(s2 * 1_000_000_000 >= (u64::MAX as int + 1) * 1_000_000_000) by (nonlinear_arith)
                requires
                    s2 > u64::MAX,
            ;
        }
        duration_from_parts(u64::MAX, 999_999_999)
    } else {
        proof {
            assert(s2 * 1_000_000_000 <= u64::MAX as int * 1_000_000_000) by (nonlinear_arith)
                requires
                    s2 <= u64::MAX,
            ;
        }
        duration_from_parts(s2 as u64, rem)
    }
}

// ---------------------------------------------------------------------------
// The text `{:?}` gives a Duration (std's `Debug` for `Duration`)
// ---------------------------------------------------------------------------

/// The powers of ten a fractional digit walk divides by.
pub open spec fn is_digit_divisor(d: nat) -> bool {
    d == 1 || d == 10 || d == 100 || d == 1_000 || d == 10_000 || d == 100_000 || d == 1_000_000
        || d == 10_000_000 || d == 100_000_000
}

/// The significant fractional digits of `frac`, the first one worth `divisor`,
/// trailing zeros dropped.
pub open spec fn frac_text(frac: nat, divisor: nat) -> Seq<char>
    decreases divisor,
{
    if frac == 0 || divisor == 0 {
        seq![]
    } else {
        seq![digit_char((frac / divisor) as int)] + frac_text(frac % divisor, divisor / 10)
    }
}

/// An integer part, an optional `.` with the fractional digits, and a unit.
pub open spec fn decimal_with_unit(int_part: nat, frac: nat, divisor: nat, unit: Seq<char>) -> Seq<
    char,
> {
    dec_text(int_part) + (if frac > 0 {
        seq!['.'] + frac_text(frac, divisor)
    } else {
        seq![]
    }) + unit
}

/// The `Debug` rendering of a span of `secs` seconds and `nanos` nanoseconds:
/// the largest unit that is not zero, with every significant decimal.
pub open spec fn duration_debug_text(secs: nat, nanos: nat) -> Seq<char> {
    if secs > 0 {
        decimal_with_unit(secs, nanos, 100_000_000, seq!['s'])
    } else if nanos >= 1_000_000 {
        decimal_with_unit(nanos / 1_000_000, nanos % 1_000_000, 100_000, seq!['m', 's'])
    } else if nanos >= 1_000 {
        decimal_with_unit(nanos / 1_000, nanos % 1_000, 100, seq!['\u{b5}', 's'])
    } else {
        decimal_with_unit(nanos, 0, 1, seq!['n', 's'])
    }
}

fn push_frac(out: &mut Vec<char>, frac: u32, divisor: u32)
    requires
        is_digit_divisor(divisor as nat),
        frac < divisor as int * 10,
    ensures
        final(out)@ == old(out)@ + frac_text(frac as nat, divisor as nat),
    decreases divisor,
{
    if frac == 0 {
        return;
    }
    let d: u8 = (frac / divisor) as u8;
    out.push((48u8 + d) as char);
    let next: u32 = divisor / 10;
    let ghost mid = out@;
    assert(frac_text(frac as nat, divisor as nat) == seq![digit_char((frac / divisor) as int)]
        + frac_text((frac % divisor) as nat, next as nat));
    assert(mid =~= old(out)@ + seq![digit_char((frac / divisor) as int)]);
    if next > 0 {
        push_frac(out, frac % divisor, next);
    } else {
        assert(frac % divisor == 0);
        assert(frac_text((frac % divisor) as nat, next as nat) =~= seq![]);
    }
    assert(final(out)@ =~= old(out)@ + frac_text(frac as nat, divisor as nat));
}

fn push_decimal_with_unit(
    out: &mut Vec<char>,
    int_part: u64,
    frac: u32,
    divisor: u32,
    unit: &Vec<char>,
)
    requires
        is_digit_divisor(divisor as nat),
        frac < divisor as int * 10,
    ensures
        final(out)@ == old(out)@ + decimal_with_unit(
            int_part as nat,
            frac as nat,
            divisor as nat,
            unit@,
        ),
{
    push_decimal(out, int_part);
    if frac > 0 {
        out.push('.');
        push_frac(out, frac, divisor);
    }
    push_chars(out, unit);
    assert(final(out)@ =~= old(out)@ + decimal_with_unit(
        int_part as nat,
        frac as nat,
        divisor as nat,
        unit@,
    ));
}

/// Appends the `Debug` rendering of `d` (`42s`, `200ms`, `1.5s`).
pub fn push_duration_debug(out: &mut Vec<char>, d: Duration)
    ensures
        final(out)@ == old(out)@ + duration_debug_text(
            duration_secs(d) as nat,
            duration_subsec_nanos(d) as nat,
        ),
{
    let secs = secs_of(d);
    let nanos = subsec_nanos_of(d);
    if secs > 0 {
        let unit = vec!['s'];
        assert(unit@ =~= seq!['s']);
        push_decimal_with_unit(out, secs, nanos, 100_000_000, &unit);
    } else if nanos >= 1_000_000 {
        let unit = vec!['m', 's'];
        assert(unit@ =~= seq!['m', 's']);
        push_decimal_with_unit(out, (nanos / 1_000_000) as u64, nanos % 1_000_000, 100_000, &unit);
    } else if nanos >= 1_000 {
        let unit = vec!['\u{b5}', 's'];
        assert(unit@ =~= seq!['\u{b5}', 's']);
        push_decimal_with_unit(out, (nanos / 1_000) as u64, nanos % 1_000, 100, &unit);
    } else {
        let unit = vec!['n', 's'];
        assert(unit@ =~= seq!['n', 's']);
        push_decimal_with_unit(out, nanos as u64, 0, 1, &unit);
    }
}

} // verus!
