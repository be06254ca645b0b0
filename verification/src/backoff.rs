//! Retry backoff and `Retry-After` interpretation: pure, total decisions.
//!
//! The random jitter that scales a backoff is floating point and is applied
//! outside the library; what is decided here is everything jitter is applied to.

use std::time::Duration;
use vstd::prelude::*;
use crate::durations::{
    duration_from_secs, duration_nanos, duration_secs, duration_subsec_nanos, max_duration_nanos,
    saturating_mul_duration, secs_of, subsec_nanos_of,
};
use crate::text::{
    chars_of, contains_char, parse_u64, parse_u64_spec, push_chars, push_str, string_of, trim,
    trim_spec,
};

verus! {

broadcast use vstd::std_specs::vec::group_vec_axioms;

/// The result of reading one or more `Retry-After` header values.
#[derive(Debug, Clone, PartialEq, Eq)]
pub enum RetryAfter {
    /// No header, or one that means "use the formula" (`0`, or a zero cap).
    Absent,
    /// A delta-seconds value within the cap. Honor it.
    Honor(Duration),
    /// A valid value above the cap. The caller abandons retrying.
    TooLong {
        /// What the server requested.
        requested: Duration,
    },
    /// A header was present but could not be read. The caller abandons retrying.
    Unintelligible {
        /// The raw value(s) received, joined with `", "`.
        raw: String,
    },
}

// ---------------------------------------------------------------------------
// Specification
// ---------------------------------------------------------------------------

/// `s` cut at every `c` (std's `str::split`): always at least one piece.
pub open spec fn split_spec(s: Seq<char>, c: char) -> Seq<Seq<char>>
    decreases s.len(),
{
    if s.len() == 0 {
        seq![Seq::<char>::empty()]
    } else {
        let p = split_spec(s.drop_last(), c);
        if s.last() == c {
            p.push(Seq::<char>::empty())
        } else {
            p.update(p.len() - 1, p.last().push(s.last()))
        }
    }
}

/// A merged header `a, b, ...` (an intermediary joined repeated headers): its
/// value when every piece is the same number, none otherwise.
pub open spec fn merged_value(t: Seq<char>) -> Option<u64> {
    let segs = split_spec(t, ',');
    match parse_u64_spec(trim_spec(segs[0])) {
        None => None,
        Some(n) => if forall|k: int|
            1 <= k < segs.len() ==> parse_u64_spec(trim_spec(#[trigger] segs[k])) == Some(n) {
            Some(n)
        } else {
            None
        },
    }
}

/// The delta-seconds one raw header value carries, when it carries one.
pub open spec fn header_value(raw: Seq<char>) -> Option<u64> {
    let t = trim_spec(raw);
    if t.len() == 0 {
        None
    } else if t.contains(',') {
        merged_value(t)
    } else {
        parse_u64_spec(t)
    }
}

/// The first readable value among the headers, in order of arrival.
pub open spec fn first_header_value(values: Seq<Seq<char>>) -> Option<u64>
    decreases values.len(),
{
    if values.len() == 0 {
        None
    } else {
        match header_value(values[0]) {
            Some(n) => Some(n),
            None => first_header_value(values.drop_first()),
        }
    }
}

/// The pieces joined with `sep` between consecutive ones (std's `join`).
pub open spec fn join_spec(values: Seq<Seq<char>>, sep: Seq<char>) -> Seq<char>
    decreases values.len(),
{
    if values.len() == 0 {
        Seq::<char>::empty()
    } else if values.len() == 1 {
        values[0]
    } else {
        join_spec(values.drop_last(), sep) + sep + values.last()
    }
}

/// The views of a slice of strings.
pub open spec fn views_of(values: Seq<String>) -> Seq<Seq<char>> {
    values.map_values(|s: String| s@)
}

/// What `parse_retry_after` decides for `values` against `cap`.
pub open spec fn retry_after_decision(r: RetryAfter, values: Seq<Seq<char>>, cap: Duration) -> bool {
    if duration_nanos(cap) == 0 || values.len() == 0 {
        r is Absent
    } else {
        match first_header_value(values) {
            Some(n) => if n == 0 {
                r is Absent
            } else if n > duration_secs(cap) {
                r matches RetryAfter::TooLong { requested } && duration_secs(requested) == n
                    && duration_subsec_nanos(requested) == 0
            } else {
                r matches RetryAfter::Honor(d) && duration_secs(d) == n && duration_subsec_nanos(d)
                    == 0
            },
            None => r matches RetryAfter::Unintelligible { raw } && raw@ == join_spec(
                values,
                ", "@,
            ),
        }
    }
}

// ---------------------------------------------------------------------------
// Implementation
// ---------------------------------------------------------------------------

proof fn lemma_split_nonempty(s: Seq<char>, c: char)
    ensures
        split_spec(s, c).len() >= 1,
    decreases s.len(),
{
    if s.len() > 0 {
        lemma_split_nonempty(s.drop_last(), c);
    }
}

/// The pieces of `s` between occurrences of `c`.
fn split_chars(s: &Vec<char>, c: char) -> (r: Vec<Vec<char>>)
    ensures
        r.len() == split_spec(s@, c).len(),
        forall|k: int| 0 <= k < r.len() ==> (#[trigger] r@[k])@ == split_spec(s@, c)[k],
{
    let mut done: Vec<Vec<char>> = Vec::new();
    let mut cur: Vec<char> = Vec::new();
    let mut i: usize = 0;
    assert(s@.take(0) =~= Seq::<char>::empty());
    while i < s.len()
        invariant
            i <= s.len(),
            done.len() + 1 == split_spec(s@.take(i as int), c).len(),
            forall|k: int|
                0 <= k < done.len() ==> (#[trigger] done@[k])@ == split_spec(
                    s@.take(i as int),
                    c,
                )[k],
            cur@ == split_spec(s@.take(i as int), c).last(),
        decreases s.len() - i,
    {
        let ghost prev = split_spec(s@.take(i as int), c);
        let ghost next_take = s@.take(i + 1);
        assert(next_take.drop_last() =~= s@.take(i as int));
        assert(next_take.last() == s@[i as int]);
        proof {
            lemma_split_nonempty(s@.take(i as int), c);
        }
        if s[i] == c {
            let finished = cur;
            done.push(finished);
            cur = Vec::new();
            assert(split_spec(next_take, c) == prev.push(Seq::<char>::empty()));
        } else {
            cur.push(s[i]);
            assert(split_spec(next_take, c) == prev.update(
                prev.len() - 1,
                prev.last().push(s@[i as int]),
            ));
        }
        i = i + 1;
    }
    assert(s@.take(s.len() as int) =~= s@);
    done.push(cur);
    done
}

/// The value of a merged header, as `merged_value` describes it.
fn merged_header_value(t: &Vec<char>) -> (r: Option<u64>)
    ensures
        r == merged_value(t@),
{
    let segs = split_chars(t, ',');
    proof {
        lemma_split_nonempty(t@, ',');
    }
    let first = trim(&segs[0]);
    let first_n = match parse_u64(&first) {
        Some(n) => n,
        None => {
            return None;
        },
    };
    let mut k: usize = 1;
    while k < segs.len()
        invariant
            1 <= k <= segs.len(),
            segs.len() == split_spec(t@, ',').len(),
            forall|j: int| 0 <= j < segs.len() ==> (#[trigger] segs@[j])@ == split_spec(t@, ',')[j],
            parse_u64_spec(trim_spec(split_spec(t@, ',')[0])) == Some(first_n),
            forall|j: int|
                1 <= j < k ==> parse_u64_spec(trim_spec(#[trigger] split_spec(t@, ',')[j])) == Some(
                    first_n,
                ),
        decreases segs.len() - k,
    {
        let seg = trim(&segs[k]);
        assert(segs@[k as int]@ == split_spec(t@, ',')[k as int]);
        if seg.len() == 0 {
            return None;
        }
        match parse_u64(&seg) {
            Some(n) => {
                if n != first_n {
                    return None;
                }
            },
            None => {
                return None;
            },
        }
        k = k + 1;
    }
    Some(first_n)
}

/// The delta-seconds one raw header value carries.
fn read_header_value(raw: &String) -> (r: Option<u64>)
    ensures
        r == header_value(raw@),
{
    let chars = chars_of(raw.as_str());
    let t = trim(&chars);
    if t.len() == 0 {
        return None;
    }
    if contains_char(&t, ',') {
        merged_header_value(&t)
    } else {
        parse_u64(&t)
    }
}

/// The raw values joined with `", "`, for diagnostics.
fn join_raw(values: &[String]) -> (r: String)
    ensures
        r@ == join_spec(views_of(values@), ", "@),
{
    let ghost vs = views_of(values@);
    let mut out: Vec<char> = Vec::new();
    if values.len() == 0 {
        return string_of(&out);
    }
    let first = chars_of(values[0].as_str());
    push_chars(&mut out, &first);
    assert(vs.take(1).drop_last() =~= Seq::<Seq<char>>::empty());
    assert(join_spec(vs.take(1), ", "@) == vs[0]);
    let mut i: usize = 1;
    while i < values.len()
        invariant
            1 <= i <= values.len(),
            vs == views_of(values@),
            out@ == join_spec(vs.take(i as int), ", "@),
        decreases values.len() - i,
    {
        push_str(&mut out, ", ");
        let next = chars_of(values[i].as_str());
        push_chars(&mut out, &next);
        assert(vs.take(i + 1).drop_last() =~= vs.take(i as int));
        assert(vs.take(i + 1).last() == values@[i as int]@);
        i = i + 1;
    }
    assert(vs.take(values.len() as int) =~= vs);
    string_of(&out)
}

/// Parses the raw `Retry-After` header value(s) against the acceptance cap.
///
/// Total: never panics, never errs. The first value that reads as a
/// delta-seconds count decides (a merged `a, b` reads only when every piece is
/// the same number); `0` or a zero `cap` means the formula applies; a value
/// above `cap` (compared in whole seconds) means abandon; when headers are
/// present but none reads, the raw values are reported as unintelligible.
pub fn parse_retry_after(values: &[String], cap: Duration) -> (r: RetryAfter)
    ensures
        retry_after_decision(r, views_of(values@), cap),
        r matches RetryAfter::Honor(d) ==> 0 < duration_secs(d) <= duration_secs(cap),
        r matches RetryAfter::TooLong { requested } ==> duration_secs(requested) > duration_secs(
            cap,
        ),
{
    let ghost vs = views_of(values@);
    let cap_secs = secs_of(cap);
    let cap_nanos = subsec_nanos_of(cap);
    if cap_secs == 0 && cap_nanos == 0 {
        return RetryAfter::Absent;
    }
    if values.len() == 0 {
        return RetryAfter::Absent;
    }
    let mut i: usize = 0;
    assert(vs.skip(0) =~= vs);
    while i < values.len()
        invariant
            i <= values.len(),
            vs == views_of(values@),
            vs.len() == values.len(),
            first_header_value(vs) == first_header_value(vs.skip(i as int)),
            cap_secs == duration_secs(cap),
            cap_nanos == duration_subsec_nanos(cap),
            duration_nanos(cap) != 0,
        decreases values.len() - i,
    {
        let v = read_header_value(&values[i]);
        assert(vs.skip(i as int)[0] == values@[i as int]@);
        assert(vs.skip(i as int).drop_first() =~= vs.skip(i + 1));
        match v {
            Some(n) => {
                if n == 0 {
                    return RetryAfter::Absent;
                }
                let requested = duration_from_secs(n);
                if n > cap_secs {
                    return RetryAfter::TooLong { requested };
                }
                return RetryAfter::Honor(requested);
            },
            None => {},
        }
        i = i + 1;
    }
    assert(vs.skip(values.len() as int) =~= Seq::<Seq<char>>::empty());
    RetryAfter::Unintelligible { raw: join_raw(values) }
}

// ---------------------------------------------------------------------------
// The backoff formula
// ---------------------------------------------------------------------------

/// Failure class for backoff-policy purposes: the kind of a provider error
/// without its data.
#[derive(Debug, Clone, Copy, PartialEq, Eq, Structural)]
#[non_exhaustive]
pub enum RetryClass {
    /// Client-side timeout.
    Timeout,
    /// Network failure (DNS, connection refused, reset).
    Network,
    /// HTTP response with an error status.
    Http,
    /// Authentication failure.
    Auth,
    /// CLI subprocess failure.
    Process,
    /// Nested session detected.
    NestedSession,
    /// Deliberate abandonment of retrying.
    RetryAbandoned,
    /// Response body over the buffering cap.
    ResponseTooLarge,
    /// Failure reported by a provider implemented outside this crate.
    External,
}

/// `2^k`.
pub open spec fn pow2(k: nat) -> nat
    decreases k,
{
    if k == 0 {
        1
    } else {
        2 * pow2((k - 1) as nat)
    }
}

/// The least of two spans.
pub open spec fn min_int(a: int, b: int) -> int {
    if a <= b {
        a
    } else {
        b
    }
}

/// The wait, in nanoseconds, before jitter: `base` on the flat path, else
/// `base * 2^attempt` (held at the longest `Duration` when it does not fit),
/// and never above `cap`.
pub open spec fn backoff_ceiling_nanos(
    attempt: u32,
    is_flat: bool,
    base_nanos: int,
    cap_nanos: int,
) -> int {
    let raw = if is_flat {
        base_nanos
    } else {
        min_int(base_nanos * pow2(attempt as nat), max_duration_nanos())
    };
    min_int(raw, cap_nanos)
}

proof fn lemma_pow2_step(b: int, i: nat)
    requires
        b >= 0,
    ensures
        b * pow2(i + 1) == 2 * (b * pow2(i)),
        pow2(i) >= 1,
    decreases i,
{
    assert(pow2(i + 1) == 2 * pow2(i));
    assert(b * (2 * pow2(i)) == 2 * (b * pow2(i))) by (nonlinear_arith);
    if i > 0 {
        lemma_pow2_step(b, (i - 1) as nat);
    }
}

proof fn lemma_pow2_monotone(b: int, i: nat, j: nat)
    requires
        b >= 0,
        i <= j,
    ensures
        b * pow2(i) <= b * pow2(j),
    decreases j - i,
{
    if i < j {
        lemma_pow2_monotone(b, i, (j - 1) as nat);
        lemma_pow2_step(b, (j - 1) as nat);
        assert(b * pow2((j - 1) as nat) >= 0) by (nonlinear_arith)
            requires
                b >= 0,
                pow2((j - 1) as nat) >= 1,
        ;
    }
}

fn class_in(flat_classes: &[RetryClass], class: RetryClass) -> (b: bool)
    ensures
        b == flat_classes@.contains(class),
{
    let mut i: usize = 0;
    while i < flat_classes.len()
        invariant
            i <= flat_classes.len(),
            forall|j: int| 0 <= j < i ==> flat_classes@[j] != class,
        decreases flat_classes.len() - i,
    {
        if flat_classes[i] == class {
            assert(flat_classes@[i as int] == class);
            return true;
        }
        i = i + 1;
    }
    false
}

/// Whether `a` is a shorter span than `b`.
fn duration_lt(a: Duration, b: Duration) -> (r: bool)
    ensures
        r == (duration_nanos(a) < duration_nanos(b)),
{
    let (asec, anan) = (secs_of(a), subsec_nanos_of(a));
    let (bsec, bnan) = (secs_of(b), subsec_nanos_of(b));
    proof {
        if asec < bsec {
            assert(asec * 1_000_000_000 + 1_000_000_000 <= bsec * 1_000_000_000) by (
            nonlinear_arith)
                requires
                    asec < bsec,
            ;
        }
        if asec > bsec {
            assert(bsec * 1_000_000_000 + 1_000_000_000 <= asec * 1_000_000_000) by (
            nonlinear_arith)
                requires
                    asec > bsec,
            ;
        }
    }
    asec < bsec || (asec == bsec && anan < bnan)
}

/// Whether a span is longer than zero.
fn is_nonzero(d: Duration) -> (r: bool)
    ensures
        r == (duration_nanos(d) > 0),
{
    secs_of(d) > 0 || subsec_nanos_of(d) > 0
}

/// The wait the backoff formula allows before the next attempt, before jitter
/// scales it into `[0, result]`.
///
/// - A class in `flat_classes` waits `base` whatever the attempt.
/// - Any other class waits `base * 2^attempt`, saturating at the longest
///   `Duration`.
/// - Either way the result is bounded by `cap`.
///
/// `attempt` is the 0-based retry index. Total: never panics, never overflows.
pub fn backoff_ceiling(
    attempt: u32,
    class: RetryClass,
    base: Duration,
    cap: Duration,
    flat_classes: &[RetryClass],
) -> (r: Duration)
    ensures
        duration_nanos(r) == backoff_ceiling_nanos(
            attempt,
            flat_classes@.contains(class),
            duration_nanos(base),
            duration_nanos(cap),
        ),
        duration_nanos(r) <= duration_nanos(cap),
{
    let flat = class_in(flat_classes, class);
    if flat {
        return if duration_lt(cap, base) {
            cap
        } else {
            base
        };
    }
    let _ = subsec_nanos_of(base);
    let ghost b = duration_nanos(base);
    let mut d = base;
    let mut i: u32 = 0;
    proof {
        assert(pow2(0) == 1);
        assert(b * pow2(0) == b);
    }
    // Doubling stops early once the span has reached the cap (the result is
    // the cap from then on) or when it is zero (it stays zero), so at most a
    // few dozen doublings ever run.
    while i < attempt && duration_lt(d, cap) && is_nonzero(d)
        invariant
            i <= attempt,
            b == duration_nanos(base),
            b >= 0,
            duration_subsec_nanos(d) < 1_000_000_000,
            duration_nanos(d) == min_int(b * pow2(i as nat), max_duration_nanos()),
        decreases attempt - i,
    {
        let ghost before = duration_nanos(d);
        d = saturating_mul_duration(d, 2);
        proof {
            lemma_pow2_step(b, i as nat);
        }
        i = i + 1;
    }
    proof {
        lemma_pow2_monotone(b, i as nat, attempt as nat);
        lemma_pow2_step(b, i as nat);
        lemma_pow2_step(b, attempt as nat);
        if duration_nanos(d) == 0 {
            assert(b == 0) by (nonlinear_arith)
                requires
                    b >= 0,
                    pow2(i as nat) >= 1,
                    b * pow2(i as nat) == 0,
            ;
            assert(b * pow2(attempt as nat) == 0) by (nonlinear_arith)
                requires
                    b == 0,
            ;
        }
    }
    if duration_lt(cap, d) {
        cap
    } else {
        d
    }
}

// ---------------------------------------------------------------------------
// Laws
// ---------------------------------------------------------------------------

/// On the flat path the wait does not grow with the attempt.
pub proof fn law_flat_path_ignores_attempt(
    a1: u32,
    a2: u32,
    base_nanos: int,
    cap_nanos: int,
)
    ensures
        backoff_ceiling_nanos(a1, true, base_nanos, cap_nanos) == backoff_ceiling_nanos(
            a2,
            true,
            base_nanos,
            cap_nanos,
        ),
{
}

/// On the exponential path a later attempt never waits less than an earlier one.
pub proof fn law_exponential_path_never_shrinks(
    a1: u32,
    a2: u32,
    base_nanos: int,
    cap_nanos: int,
)
    requires
        a1 <= a2,
        base_nanos >= 0,
    ensures
        backoff_ceiling_nanos(a1, false, base_nanos, cap_nanos) <= backoff_ceiling_nanos(
            a2,
            false,
            base_nanos,
            cap_nanos,
        ),
{
    lemma_pow2_monotone(base_nanos, a1 as nat, a2 as nat);
}

/// Below saturation and the cap, each retry doubles the wait exactly.
pub proof fn law_exponential_path_doubles(attempt: u32, base_nanos: int, cap_nanos: int)
    requires
        attempt < u32::MAX,
        base_nanos >= 0,
        base_nanos * pow2(attempt as nat + 1) <= max_duration_nanos(),
        base_nanos * pow2(attempt as nat + 1) <= cap_nanos,
    ensures
        backoff_ceiling_nanos((attempt + 1) as u32, false, base_nanos, cap_nanos) == 2
            * backoff_ceiling_nanos(attempt, false, base_nanos, cap_nanos),
{
    lemma_pow2_step(base_nanos, attempt as nat);
    lemma_pow2_monotone(base_nanos, attempt as nat, attempt as nat + 1);
}

} // verus!
