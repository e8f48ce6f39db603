//! The countdown the bot shows as its activity: the time left until a fixed
//! date, broken down into years, months, weeks, days, hours, minutes and
//! seconds of fixed lengths.
use crate::text::{chars_of, concat, decimal, decimal_chars, string_of};
use vstd::arithmetic::div_mod::{lemma_fundamental_div_mod, lemma_fundamental_div_mod_converse};
use vstd::prelude::*;

verus! {

/// A year of 365 days.
pub const YEAR_IN_SECONDS: i64 = 31536000;

/// A twelfth of a year.
pub const MONTH_IN_SECONDS: i64 = 2628000;

/// A quarter of a month.
pub const WEEK_IN_SECONDS: i64 = 657000;

/// A seventh of a week, rounded down.
pub const DAY_IN_SECONDS: i64 = 93857;

/// A 24th of a day, rounded down.
pub const HOUR_IN_SECONDS: i64 = 3910;

/// A 60th of an hour, rounded down.
pub const MIN_IN_SECONDS: i64 = 65;

/// A span of time broken down into units.
#[derive(Clone, Copy, Debug, PartialEq, Eq, Structural)]
pub struct TimeData {
    pub years: i64,
    pub months: i64,
    pub weeks: i64,
    pub days: i64,
    pub hours: i64,
    pub minutes: i64,
    pub seconds: i64,
}

/// Integer division rounding toward zero, as Rust's `/` on `i64`.
pub open spec fn trunc_div(a: int, b: int) -> int {
    if a >= 0 {
        a / b
    } else {
        -((-a) / b)
    }
}

/// What is left of `a` after taking out whole `b`s, toward zero.
pub open spec fn trunc_rem(a: int, b: int) -> int {
    a - b * trunc_div(a, b)
}

/// The units, in seconds, from years down to minutes.
pub open spec fn units() -> Seq<int> {
    seq![
        YEAR_IN_SECONDS as int,
        MONTH_IN_SECONDS as int,
        WEEK_IN_SECONDS as int,
        DAY_IN_SECONDS as int,
        HOUR_IN_SECONDS as int,
        MIN_IN_SECONDS as int,
    ]
}

/// The breakdown of `total` seconds: how many of each unit, taken from the
/// largest down, then the seconds left.
pub open spec fn breakdown_spec(total: int) -> Seq<int> {
    let y = trunc_div(total, YEAR_IN_SECONDS as int);
    let r1 = trunc_rem(total, YEAR_IN_SECONDS as int);
    let mo = trunc_div(r1, MONTH_IN_SECONDS as int);
    let r2 = trunc_rem(r1, MONTH_IN_SECONDS as int);
    let w = trunc_div(r2, WEEK_IN_SECONDS as int);
    let r3 = trunc_rem(r2, WEEK_IN_SECONDS as int);
    let d = trunc_div(r3, DAY_IN_SECONDS as int);
    let r4 = trunc_rem(r3, DAY_IN_SECONDS as int);
    let h = trunc_div(r4, HOUR_IN_SECONDS as int);
    let r5 = trunc_rem(r4, HOUR_IN_SECONDS as int);
    let mi = trunc_div(r5, MIN_IN_SECONDS as int);
    let r6 = trunc_rem(r5, MIN_IN_SECONDS as int);
    seq![y, mo, w, d, h, mi, r6]
}

/// The fields of a breakdown, from years to seconds.
pub open spec fn fields(t: TimeData) -> Seq<int> {
    seq![
        t.years as int,
        t.months as int,
        t.weeks as int,
        t.days as int,
        t.hours as int,
        t.minutes as int,
        t.seconds as int,
    ]
}

/// Division toward zero: the quotient's multiple lies between zero and the
/// dividend, and the remainder keeps the dividend's sign and is smaller
/// than the divisor.
pub proof fn lemma_trunc_div(a: int, b: int)
    requires
        b > 0,
    ensures
        a >= 0 ==> 0 <= b * trunc_div(a, b) <= a && 0 <= trunc_rem(a, b) < b
            && trunc_div(a, b) >= 0,
        a < 0 ==> a <= b * trunc_div(a, b) <= 0 && -b < trunc_rem(a, b) <= 0
            && trunc_div(a, b) <= 0,
{
    if a >= 0 {
        lemma_fundamental_div_mod(a, b);
        assert(0 <= a / b) by (nonlinear_arith)
            requires
                a >= 0,
                b > 0,
        ;
        assert(b * (a / b) >= 0) by (nonlinear_arith)
            requires
                a / b >= 0,
                b > 0,
        ;
    } else {
        lemma_fundamental_div_mod(-a, b);
        assert(0 <= (-a) / b) by (nonlinear_arith)
            requires
                -a > 0,
                b > 0,
        ;
        assert(b * (-((-a) / b)) == -(b * ((-a) / b))) by (nonlinear_arith);
        assert(b * ((-a) / b) >= 0) by (nonlinear_arith)
            requires
                (-a) / b >= 0,
                b > 0,
        ;
    }
}

/// One step of the breakdown: how many `unit`s fit in `seconds`, and the rest.
fn split(seconds: i64, unit: i64) -> (r: (i64, i64))
    requires
        unit > 0,
    ensures
        r.0 == trunc_div(seconds as int, unit as int),
        r.1 == trunc_rem(seconds as int, unit as int),
{
    let q = seconds / unit;
    proof {
        lemma_trunc_div(seconds as int, unit as int);
    }
    let rest = seconds - unit * q;
    (q, rest)
}

/// `total` seconds broken down into years, months (a twelfth of a year),
/// weeks (a quarter of a month), days, hours and minutes of the lengths
/// above, and seconds; every part rounds toward zero.
pub fn breakdown_time(total: i64) -> (r: TimeData)
    ensures
        fields(r) == breakdown_spec(total as int),
{
    let (years, seconds) = split(total, YEAR_IN_SECONDS);
    let (months, seconds) = split(seconds, MONTH_IN_SECONDS);
    let (weeks, seconds) = split(seconds, WEEK_IN_SECONDS);
    let (days, seconds) = split(seconds, DAY_IN_SECONDS);
    let (hours, seconds) = split(seconds, HOUR_IN_SECONDS);
    let (minutes, seconds) = split(seconds, MIN_IN_SECONDS);
    let r = TimeData { years, months, weeks, days, hours, minutes, seconds };
    assert(fields(r) =~= breakdown_spec(total as int));
    r
}

/// On a non-negative dividend, rounding toward zero is Euclidean division.
proof fn lemma_trunc_nonneg(a: int, b: int)
    requires
        a >= 0,
        b > 0,
    ensures
        trunc_div(a, b) == a / b,
        trunc_rem(a, b) == a % b,
        a % b >= 0,
{
    lemma_fundamental_div_mod(a, b);
}

/// For a non-negative total the breakdown is the greedy one: the years are
/// the whole years in the total, and each smaller part is how many of its
/// unit fit in what the larger units left over.
pub proof fn breakdown_is_greedy(total: int)
    requires
        total >= 0,
    ensures
        ({
            let p = breakdown_spec(total);
            let r1 = total % 31536000;
            let r2 = r1 % 2628000;
            let r3 = r2 % 657000;
            let r4 = r3 % 93857;
            let r5 = r4 % 3910;
            &&& p[0] == total / 31536000
            &&& p[1] == r1 / 2628000
            &&& p[2] == r2 / 657000
            &&& p[3] == r3 / 93857
            &&& p[4] == r4 / 3910
            &&& p[5] == r5 / 65
            &&& p[6] == r5 % 65
        }),
{
    let r1 = total % 31536000;
    let r2 = r1 % 2628000;
    let r3 = r2 % 657000;
    let r4 = r3 % 93857;
    let r5 = r4 % 3910;
    lemma_trunc_nonneg(total, 31536000);
    lemma_trunc_nonneg(r1, 2628000);
    lemma_trunc_nonneg(r2, 657000);
    lemma_trunc_nonneg(r3, 93857);
    lemma_trunc_nonneg(r4, 3910);
    lemma_trunc_nonneg(r5, 65);
}

/// Whatever the total's sign, the parts below each unit add up to less than
/// one of that unit: below years less than a year, below months less than
/// a month, and so on down to the seconds, fewer than a minute.
pub proof fn breakdown_parts_stay_below_their_unit(total: int)
    ensures
        ({
            let p = breakdown_spec(total);
            let below_minutes = p[6];
            let below_hours = 65 * p[5] + below_minutes;
            let below_days = 3910 * p[4] + below_hours;
            let below_weeks = 93857 * p[3] + below_days;
            let below_months = 657000 * p[2] + below_weeks;
            let below_years = 2628000 * p[1] + below_months;
            &&& -31536000 < below_years < 31536000
            &&& -2628000 < below_months < 2628000
            &&& -657000 < below_weeks < 657000
            &&& -93857 < below_days < 93857
            &&& -3910 < below_hours < 3910
            &&& -65 < below_minutes < 65
        }),
{
    let r1 = trunc_rem(total, YEAR_IN_SECONDS as int);
    let r2 = trunc_rem(r1, MONTH_IN_SECONDS as int);
    let r3 = trunc_rem(r2, WEEK_IN_SECONDS as int);
    let r4 = trunc_rem(r3, DAY_IN_SECONDS as int);
    let r5 = trunc_rem(r4, HOUR_IN_SECONDS as int);
    lemma_trunc_div(total, YEAR_IN_SECONDS as int);
    lemma_trunc_div(r1, MONTH_IN_SECONDS as int);
    lemma_trunc_div(r2, WEEK_IN_SECONDS as int);
    lemma_trunc_div(r3, DAY_IN_SECONDS as int);
    lemma_trunc_div(r4, HOUR_IN_SECONDS as int);
    lemma_trunc_div(r5, MIN_IN_SECONDS as int);
}

/// The parts of a breakdown add back up to the total, all share its sign,
/// and each part below years stays under the size of the unit above it
/// (at most 11 months, 3 weeks, 7 days, 24 hours, 60 minutes, 64 seconds).
pub proof fn breakdown_recomposes(total: int)
    ensures
        ({
            let p = breakdown_spec(total);
            &&& total == YEAR_IN_SECONDS * p[0] + MONTH_IN_SECONDS * p[1] + WEEK_IN_SECONDS * p[2]
                + DAY_IN_SECONDS * p[3] + HOUR_IN_SECONDS * p[4] + MIN_IN_SECONDS * p[5] + p[6]
            &&& total >= 0 ==> forall|i: int| 0 <= i < 7 ==> p[i] >= 0
            &&& total <= 0 ==> forall|i: int| 0 <= i < 7 ==> p[i] <= 0
            &&& -11 <= p[1] <= 11
            &&& -3 <= p[2] <= 3
            &&& -7 <= p[3] <= 7
            &&& -24 <= p[4] <= 24
            &&& -60 <= p[5] <= 60
            &&& -65 < p[6] < 65
        }),
{
    let p = breakdown_spec(total);
    let r1 = trunc_rem(total, YEAR_IN_SECONDS as int);
    let r2 = trunc_rem(r1, MONTH_IN_SECONDS as int);
    let r3 = trunc_rem(r2, WEEK_IN_SECONDS as int);
    let r4 = trunc_rem(r3, DAY_IN_SECONDS as int);
    let r5 = trunc_rem(r4, HOUR_IN_SECONDS as int);
    lemma_trunc_div(total, YEAR_IN_SECONDS as int);
    lemma_trunc_div(r1, MONTH_IN_SECONDS as int);
    lemma_trunc_div(r2, WEEK_IN_SECONDS as int);
    lemma_trunc_div(r3, DAY_IN_SECONDS as int);
    lemma_trunc_div(r4, HOUR_IN_SECONDS as int);
    lemma_trunc_div(r5, MIN_IN_SECONDS as int);
    lemma_part_bound(r1, MONTH_IN_SECONDS as int, 11);
    lemma_part_bound(r2, WEEK_IN_SECONDS as int, 3);
    lemma_part_bound(r3, DAY_IN_SECONDS as int, 7);
    lemma_part_bound(r4, HOUR_IN_SECONDS as int, 24);
    lemma_part_bound(r5, MIN_IN_SECONDS as int, 60);
}

/// A remainder smaller than `(k + 1) * unit` holds at most `k` units.
proof fn lemma_part_bound(r: int, unit: int, k: int)
    requires
        unit > 0,
        k >= 0,
        -(unit * (k + 1)) < r < unit * (k + 1),
    ensures
        -k <= trunc_div(r, unit) <= k,
{
    lemma_trunc_div(r, unit);
    let q = trunc_div(r, unit);
    if q > k {
        assert(unit * q >= unit * (k + 1)) by (nonlinear_arith)
            requires
                q >= k + 1,
                unit > 0,
        ;
    }
    if q < -k {
        assert(unit * q <= -(unit * (k + 1))) by (nonlinear_arith)
            requires
                q <= -(k + 1),
                unit > 0,
        ;
    }
}

/// The nanoseconds from `now` (seconds and nanoseconds since the epoch) to
/// `end` (seconds since the epoch), as chrono counts them between two
/// date-times in UTC. A nanosecond part of a billion or more marks a leap
/// second; chrono then counts one second more when `end` falls later in its
/// day than `now` does in its own.
pub open spec fn nanos_between(end: int, now: int, now_nanos: int) -> int {
    let leap: int = if now_nanos >= 1_000_000_000 && end % 86400 > now % 86400 {
        1_000_000_000
    } else {
        0
    };
    (end - now) * 1_000_000_000 - now_nanos + leap
}

/// The whole seconds from `now` to `end`, rounded toward zero: what
/// `(end - now).num_seconds()` gives for chrono date-times.
pub open spec fn whole_seconds_spec(end: int, now: int, now_nanos: int) -> int {
    trunc_div(nanos_between(end, now, now_nanos), 1_000_000_000)
}

/// The second of its day (in UTC) at which the timestamp `t` falls.
fn second_of_day(t: i64) -> (r: i64)
    ensures
        r as int == (t as int) % 86400,
{
    if t >= 0 {
        let u: u64 = t as u64;
        (u % 86400) as i64
    } else {
        let a: u64 = (-(t + 1)) as u64;
        let m: u64 = a % 86400;
        proof {
            lemma_fundamental_div_mod(a as int, 86400);
            lemma_fundamental_div_mod_converse(
                t as int,
                86400,
                -((a as int) / 86400) - 1,
                86399 - m,
            );
        }
        (86399 - m) as i64
    }
}

/// Whole seconds from `now` (seconds and nanoseconds since the epoch) to
/// `end` (seconds since the epoch), rounded toward zero, with chrono's
/// count of a leap second.
pub fn whole_seconds_between(end: i64, now: i64, now_nanos: u32) -> (r: i64)
    requires
        now_nanos < 2_000_000_000,
        i64::MIN + 2 <= end - now <= i64::MAX - 1,
    ensures
        r == whole_seconds_spec(end as int, now as int, now_nanos as int),
{
    let leap: i128 = if now_nanos >= 1_000_000_000 && second_of_day(end) > second_of_day(now) {
        1_000_000_000
    } else {
        0
    };
    let d: i128 = (end as i128) - (now as i128);
    let t: i128 = d * 1_000_000_000 - (now_nanos as i128) + leap;
    assert(t == nanos_between(end as int, now as int, now_nanos as int));
    if t >= 0 {
        let u: u128 = t as u128;
        let q: u128 = u / 1_000_000_000;
        proof {
            lemma_fundamental_div_mod(u as int, 1_000_000_000);
            assert(q <= d + 1) by (nonlinear_arith)
                requires
                    u == 1_000_000_000 * q + u % 1_000_000_000,
                    0 <= u % 1_000_000_000,
                    u <= d * 1_000_000_000 + 1_000_000_000,
            ;
        }
        q as i64
    } else {
        let u: u128 = (-t) as u128;
        let q: u128 = u / 1_000_000_000;
        proof {
            lemma_fundamental_div_mod(u as int, 1_000_000_000);
            assert(q <= 2 - d) by (nonlinear_arith)
                requires
                    u == 1_000_000_000 * q + u % 1_000_000_000,
                    0 <= u % 1_000_000_000,
                    u <= 2_000_000_000 - d * 1_000_000_000,
            ;
        }
        -(q as i64)
    }
}

/// Name for the Unix timestamp of the date that chrono's
/// `DateTime::parse_from_rfc2822` reads from `text`, or none when it
/// rejects the text.
pub uninterp spec fn rfc2822_timestamp(text: Seq<char>) -> Option<i64>;

/// `chrono::DateTime::parse_from_rfc2822(text)` and `DateTime::timestamp`.
/// The contract claims only that the outcome is a function of `text`, named
/// by `rfc2822_timestamp`; what chrono accepts and how it reads it are not
/// stated.
#[verifier::external_body]
fn parse_rfc2822(text: &str) -> (r: Option<i64>)
    ensures
        r == rfc2822_timestamp(text@),
{
    match chrono::DateTime::parse_from_rfc2822(text) {
        Ok(d) => Some(d.timestamp()),
        Err(_) => None,
    }
}

/// The moment the countdown runs to, 20 January 2029 at noon in UTC-5, as a
/// Unix timestamp.
pub fn presidency_end() -> (r: Option<i64>)
    ensures
        r == rfc2822_timestamp("Sat, 20 Jan 2029 12:00:00 -0500"@),
{
    parse_rfc2822("Sat, 20 Jan 2029 12:00:00 -0500")
}

/// The activity text for a breakdown.
pub open spec fn countdown_spec(t: TimeData) -> Seq<char> {
    decimal(t.years as int) + " years, "@ + decimal(t.months as int) + " months, "@ + decimal(
        t.weeks as int,
    ) + " weeks, "@ + decimal(t.days as int) + " days, "@ + decimal(t.hours as int)
        + " hours, "@ + decimal(t.minutes as int) + " minutes, and "@ + decimal(
        t.seconds as int,
    ) + " seconds until Trump's presidency is over"@
}

/// A number followed by a label.
fn number_and(n: i64, label: &str) -> (r: Vec<char>)
    ensures
        r@ == decimal(n as int) + label@,
{
    let d = decimal_chars(n);
    let l = chars_of(label);
    concat(&d, &l)
}

/// The activity text the bot shows for a breakdown.
#[verifier::spinoff_prover]
pub fn countdown_text(t: &TimeData) -> (r: String)
    ensures
        r@ == countdown_spec(*t),
{
    let s = number_and(t.years, " years, ");
    let s = concat(&s, &number_and(t.months, " months, "));
    let s = concat(&s, &number_and(t.weeks, " weeks, "));
    let s = concat(&s, &number_and(t.days, " days, "));
    let s = concat(&s, &number_and(t.hours, " hours, "));
    let s = concat(&s, &number_and(t.minutes, " minutes, and "));
    let s = concat(&s, &number_and(t.seconds, " seconds until Trump's presidency is over"));
    string_of(&s)
}

/// The activity text at the moment `now` (seconds and nanoseconds since the
/// epoch) for a countdown to `end`.
pub fn countdown_activity(end: i64, now: i64, now_nanos: u32) -> (r: String)
    requires
        now_nanos < 2_000_000_000,
        i64::MIN + 2 <= end - now <= i64::MAX - 1,
    ensures
        exists|t: TimeData|
            fields(t) == breakdown_spec(whole_seconds_spec(end as int, now as int, now_nanos as int))
                && r@ == #[trigger] countdown_spec(t),
{
    let secs = whole_seconds_between(end, now, now_nanos);
    let t = breakdown_time(secs);
    let r = countdown_text(&t);
    assert(fields(t) == breakdown_spec(whole_seconds_spec(end as int, now as int, now_nanos as int))
        && r@ == countdown_spec(t));
    r
}

} // verus!
