//! The event log's text: timestamps, line format and the rotation rule.
//! Appending to the file happens in the binary.

use core::time::Duration;
use std::time::{SystemTime, SystemTimeError, UNIX_EPOCH};
use vstd::prelude::*;
use vstd::string::*;

use crate::text::{
    decimal, lemma_before_after_common, lemma_before_extend, lemma_four_digits_before,
    lemma_two_digits_before, push_decimal, push_two_digits, text_before, two_digits,
};

verus! {

pub open spec fn is_leap(y: int) -> bool {
    (y % 4 == 0 && y % 100 != 0) || y % 400 == 0
}

pub open spec fn days_in_year(y: int) -> int {
    if is_leap(y) {
        366
    } else {
        365
    }
}

/// Days in month `m` (1 = January) of year `y`.
pub open spec fn days_in_month(y: int, m: int) -> int {
    if m == 2 {
        if is_leap(y) {
            29
        } else {
            28
        }
    } else if m == 4 || m == 6 || m == 9 || m == 11 {
        30
    } else {
        31
    }
}

/// Leap years among the years 1 ..= y - 1.
pub open spec fn leaps_before(y: int) -> int {
    (y - 1) / 4 - (y - 1) / 100 + (y - 1) / 400
}

/// Days from 1970-01-01 to January 1st of year `y`.
pub open spec fn days_before_year(y: int) -> int {
    365 * (y - 1970) + leaps_before(y) - leaps_before(1970)
}

/// Days from January 1st to the first of month `m` in year `y`.
pub open spec fn days_before_month(y: int, m: int) -> int
    decreases m,
{
    if m <= 1 {
        0
    } else {
        days_before_month(y, m - 1) + days_in_month(y, m - 1)
    }
}

/// A calendar date (proleptic Gregorian) no earlier than 1970.
pub open spec fn is_date(y: int, m: int, d: int) -> bool {
    y >= 1970 && 1 <= m <= 12 && 1 <= d <= days_in_month(y, m)
}

/// Days from 1970-01-01 to the given date.
pub open spec fn day_number(y: int, m: int, d: int) -> int {
    days_before_year(y) + days_before_month(y, m) + d - 1
}

/// "YYYY-MM-DD HH:MM:SSZ" (the year has at least four digits from 1970 on).
pub open spec fn render_timestamp(y: int, m: int, d: int, h: int, mi: int, s: int) -> Seq<char> {
    decimal(y as nat) + "-"@ + two_digits(m as nat) + "-"@ + two_digits(d as nat) + " "@
        + two_digits(h as nat) + ":"@ + two_digits(mi as nat) + ":"@ + two_digits(s as nat)
        + "Z"@
}

/// The rendering of `secs` seconds after the Unix epoch, for the date
/// `(y, m, d)` that day falls on.
pub open spec fn timestamp_of(secs: int, y: int, m: int, d: int) -> Seq<char> {
    let tod = secs % 86400;
    render_timestamp(y, m, d, tod / 3600, (tod % 3600) / 60, tod % 60)
}

#[verifier::external_type_specification]
#[verifier::external_body]
pub struct ExSystemTime(SystemTime);

#[verifier::external_type_specification]
#[verifier::external_body]
pub struct ExSystemTimeError(SystemTimeError);

/// `SystemTime::now`: the clock's current reading. Nothing is claimed of it.
pub assume_specification[ SystemTime::now ]() -> SystemTime;

/// `SystemTime::duration_since`: the time elapsed since `earlier`, or an
/// error when the clock reads earlier than that. Nothing is claimed of it.
pub assume_specification[ SystemTime::duration_since ](
    t: &SystemTime,
    earlier: SystemTime,
) -> std::result::Result<Duration, SystemTimeError>;

/// `Duration::as_secs`: the whole seconds of a duration. Nothing is claimed
/// of it (a duration is an opaque value here).
pub assume_specification[ Duration::as_secs ](d: &Duration) -> u64;

/// `std::time::UNIX_EPOCH`, 1970-01-01 00:00:00 UTC. Nothing is claimed of it.
#[verifier::external_body]
fn unix_epoch() -> SystemTime {
    UNIX_EPOCH
}

proof fn lemma_year_step(y: int)
    requires
        y >= 1,
    ensures
        days_before_year(y + 1) == days_before_year(y) + days_in_year(y),
{
    assert(y / 4 - (y - 1) / 4 == (if y % 4 == 0 { 1int } else { 0 }));
    assert(y / 100 - (y - 1) / 100 == (if y % 100 == 0 { 1int } else { 0 }));
    assert(y / 400 - (y - 1) / 400 == (if y % 400 == 0 { 1int } else { 0 }));
}

proof fn lemma_months_fill_year(y: int)
    ensures
        days_before_month(y, 13) == days_in_year(y),
{
    reveal_with_fuel(days_before_month, 13);
}

proof fn lemma_days_before_year_grows(a: int, b: int)
    requires
        1970 <= a <= b,
    ensures
        days_before_year(b) - days_before_year(a) >= 365 * (b - a),
    decreases b - a,
{
    if a < b {
        lemma_days_before_year_grows(a, b - 1);
        lemma_year_step(b - 1);
    }
}

proof fn lemma_days_before_month_grows(y: int, a: int, b: int)
    requires
        1 <= a <= b,
    ensures
        days_before_month(y, b) - days_before_month(y, a) >= 28 * (b - a),
    decreases b - a,
{
    if a < b {
        lemma_days_before_month_grows(y, a, b - 1);
    }
}

/// `(y1, m1, d1)` comes before `(y2, m2, d2)` on the calendar.
pub open spec fn date_before(y1: int, m1: int, d1: int, y2: int, m2: int, d2: int) -> bool {
    y1 < y2 || (y1 == y2 && (m1 < m2 || (m1 == m2 && d1 < d2)))
}

/// Day numbers follow the calendar: an earlier date has a smaller day
/// number.
pub proof fn lemma_date_order(y1: int, m1: int, d1: int, y2: int, m2: int, d2: int)
    requires
        is_date(y1, m1, d1),
        is_date(y2, m2, d2),
        date_before(y1, m1, d1, y2, m2, d2),
    ensures
        day_number(y1, m1, d1) < day_number(y2, m2, d2),
{
    assert forall|y: int, m: int, d: int| is_date(y, m, d) implies days_before_year(y) <= #[trigger] day_number(
        y,
        m,
        d,
    ) < days_before_year(y + 1) by {
        lemma_months_fill_year(y);
        lemma_year_step(y);
        lemma_days_before_month_grows(y, m + 1, 13);
        lemma_days_before_month_grows(y, 1, m);
    }
    if y1 < y2 {
        lemma_days_before_year_grows(y1 + 1, y2);
    } else if m1 < m2 {
        lemma_days_before_month_grows(y1, m1 + 1, m2);
    }
}

/// A day number names at most one date: the date in a `format_epoch`
/// result is determined by the seconds.
pub proof fn law_date_unique(y1: int, m1: int, d1: int, y2: int, m2: int, d2: int)
    requires
        is_date(y1, m1, d1),
        is_date(y2, m2, d2),
        day_number(y1, m1, d1) == day_number(y2, m2, d2),
    ensures
        y1 == y2 && m1 == m2 && d1 == d2,
{
    if date_before(y1, m1, d1, y2, m2, d2) {
        lemma_date_order(y1, m1, d1, y2, m2, d2);
    } else if date_before(y2, m2, d2, y1, m1, d1) {
        lemma_date_order(y2, m2, d2, y1, m1, d1);
    }
}

/// One field of a timestamp after the year: a separator, the field's two
/// digits, and the rest of the text.
spec fn field_then(sep: Seq<char>, f: int, rest: Seq<char>) -> Seq<char> {
    sep + (two_digits(f as nat) + rest)
}

/// The text after the year: "-MM-DD HH:MM:SSZ".
spec fn stamp_tail(m: int, d: int, h: int, mi: int, s: int) -> Seq<char> {
    field_then(
        "-"@,
        m,
        field_then(
            "-"@,
            d,
            field_then(" "@, h, field_then(":"@, mi, field_then(":"@, s, "Z"@))),
        ),
    )
}

proof fn lemma_stamp_split(y: int, m: int, d: int, h: int, mi: int, s: int)
    ensures
        render_timestamp(y, m, d, h, mi, s) == decimal(y as nat) + stamp_tail(m, d, h, mi, s),
{
    assert(render_timestamp(y, m, d, h, mi, s) =~= decimal(y as nat) + stamp_tail(m, d, h, mi, s));
}

/// A smaller field, or an equal field followed by an earlier rest, sorts
/// first.
proof fn lemma_field_before(sep: Seq<char>, f1: int, f2: int, r1: Seq<char>, r2: Seq<char>)
    requires
        0 <= f1 < 100,
        0 <= f2 < 100,
        f1 < f2 || (f1 == f2 && text_before(r1, r2)),
    ensures
        text_before(field_then(sep, f1, r1), field_then(sep, f2, r2)),
{
    if f1 < f2 {
        lemma_two_digits_before(f1 as nat, f2 as nat);
        lemma_before_extend(two_digits(f1 as nat), two_digits(f2 as nat), r1, r2);
    } else {
        lemma_before_after_common(two_digits(f1 as nat), r1, r2);
    }
    lemma_before_after_common(sep, two_digits(f1 as nat) + r1, two_digits(f2 as nat) + r2);
}

/// Renderings of four-digit years sort as the instants they render.
proof fn lemma_render_before(
    y1: int,
    m1: int,
    d1: int,
    h1: int,
    mi1: int,
    s1: int,
    y2: int,
    m2: int,
    d2: int,
    h2: int,
    mi2: int,
    s2: int,
)
    requires
        1000 <= y1 <= 9999 && 1000 <= y2 <= 9999,
        0 <= m1 < 100 && 0 <= d1 < 100 && 0 <= h1 < 100 && 0 <= mi1 < 100 && 0 <= s1 < 100,
        0 <= m2 < 100 && 0 <= d2 < 100 && 0 <= h2 < 100 && 0 <= mi2 < 100 && 0 <= s2 < 100,
        date_before(y1, m1, d1, y2, m2, d2) || (y1 == y2 && m1 == m2 && d1 == d2 && (h1 < h2 || (h1
            == h2 && (mi1 < mi2 || (mi1 == mi2 && s1 < s2))))),
    ensures
        text_before(render_timestamp(y1, m1, d1, h1, mi1, s1), render_timestamp(y2, m2, d2, h2, mi2, s2)),
{
    let ts1 = field_then(":"@, s1, "Z"@);
    let ts2 = field_then(":"@, s2, "Z"@);
    let tmi1 = field_then(":"@, mi1, ts1);
    let tmi2 = field_then(":"@, mi2, ts2);
    let th1 = field_then(" "@, h1, tmi1);
    let th2 = field_then(" "@, h2, tmi2);
    let td1 = field_then("-"@, d1, th1);
    let td2 = field_then("-"@, d2, th2);
    let tm1 = field_then("-"@, m1, td1);
    let tm2 = field_then("-"@, m2, td2);
    if s1 < s2 {
        lemma_field_before(":"@, s1, s2, "Z"@, "Z"@);
    }
    if mi1 < mi2 || (mi1 == mi2 && text_before(ts1, ts2)) {
        lemma_field_before(":"@, mi1, mi2, ts1, ts2);
    }
    if h1 < h2 || (h1 == h2 && text_before(tmi1, tmi2)) {
        lemma_field_before(" "@, h1, h2, tmi1, tmi2);
    }
    if d1 < d2 || (d1 == d2 && text_before(th1, th2)) {
        lemma_field_before("-"@, d1, d2, th1, th2);
    }
    if m1 < m2 || (m1 == m2 && text_before(td1, td2)) {
        lemma_field_before("-"@, m1, m2, td1, td2);
    }
    lemma_stamp_split(y1, m1, d1, h1, mi1, s1);
    lemma_stamp_split(y2, m2, d2, h2, mi2, s2);
    if y1 < y2 {
        lemma_four_digits_before(y1 as nat, y2 as nat);
        lemma_before_extend(decimal(y1 as nat), decimal(y2 as nat), tm1, tm2);
    } else {
        lemma_before_after_common(decimal(y1 as nat), tm1, tm2);
    }
}

/// Timestamps sort as time does: of two instants before the year 10000,
/// the later one renders as the later text, so a log's lines sort into the
/// order they were written.
pub proof fn law_timestamps_sort_in_time_order(
    secs1: int,
    y1: int,
    m1: int,
    d1: int,
    secs2: int,
    y2: int,
    m2: int,
    d2: int,
)
    requires
        0 <= secs1 < secs2 < 253_402_300_800,
        is_date(y1, m1, d1),
        day_number(y1, m1, d1) == secs1 / 86400,
        is_date(y2, m2, d2),
        day_number(y2, m2, d2) == secs2 / 86400,
    ensures
        text_before(timestamp_of(secs1, y1, m1, d1), timestamp_of(secs2, y2, m2, d2)),
{
    assert forall|y: int, m: int, d: int|
        is_date(y, m, d) && #[trigger] day_number(y, m, d) < 2_932_897 implies y <= 9999 by {
        if y >= 10000 {
            lemma_days_before_year_grows(10000, y);
            lemma_days_before_month_grows(y, 1, m);
        }
    }
    let t1 = secs1 % 86400;
    let t2 = secs2 % 86400;
    if secs1 / 86400 < secs2 / 86400 {
        if date_before(y2, m2, d2, y1, m1, d1) {
            lemma_date_order(y2, m2, d2, y1, m1, d1);
        } else if y1 == y2 && m1 == m2 && d1 == d2 {
        }
        assert(date_before(y1, m1, d1, y2, m2, d2));
    } else {
        law_date_unique(y1, m1, d1, y2, m2, d2);
        assert(t1 < t2);
        assert(t1 == 3600 * (t1 / 3600) + 60 * ((t1 % 3600) / 60) + t1 % 60);
        assert(t2 == 3600 * (t2 / 3600) + 60 * ((t2 % 3600) / 60) + t2 % 60);
    }
    lemma_render_before(
        y1,
        m1,
        d1,
        t1 / 3600,
        (t1 % 3600) / 60,
        t1 % 60,
        y2,
        m2,
        d2,
        t2 / 3600,
        (t2 % 3600) / 60,
        t2 % 60,
    );
}

/// Days from 1 March of year 400·k to 1 March of year 400·k + `y`
/// (0 <= y <= 400): the civil calendar's year lengths, counted from March so
/// the leap day closes the year.
spec fn march_year_start(y: int) -> int {
    365 * y + y / 4 - y / 100 + y / 400
}

/// Days from 1 March to the first of the `k`-th month counted from March
/// (0 = March, ..., 10 = January, 11 = February, 12 = the next March).
spec fn march_month_start(k: int) -> int {
    (153 * k + 2) / 5
}

/// The year-of-era step of the algorithm lands in the right year.
proof fn lemma_year_of_era(doe: u64)
    requires
        doe < 146097,
    ensures
        ({
            let yoe = (doe - doe / 1460 + doe / 36524 - doe / 146096) / 365;
            &&& yoe < 400
            &&& 365 * yoe + yoe / 4 - yoe / 100 <= doe
            &&& doe < 365 * (yoe + 1) + (yoe + 1) / 4 - (yoe + 1) / 100 + (yoe + 1) / 400
        }),
{
    assert({
        let yoe = (doe - doe / 1460 + doe / 36524 - doe / 146096) / 365;
        &&& yoe < 400
        &&& 365 * yoe + yoe / 4 - yoe / 100 <= doe
        &&& doe < 365 * (yoe + 1) + (yoe + 1) / 4 - (yoe + 1) / 100 + (yoe + 1) / 400
    }) by (bit_vector)
        requires
            doe < 146097,
    ;
}

/// The month step of the algorithm lands in the right month.
proof fn lemma_month_of_year(doy: u64)
    requires
        doy < 366,
    ensures
        ({
            let mp = (5 * doy + 2) / 153;
            &&& mp < 12
            &&& (153 * mp + 2) / 5 <= doy
            &&& doy < (153 * (mp + 1) + 2) / 5
        }),
{
    assert({
        let mp = (5 * doy + 2) / 153;
        &&& mp < 12
        &&& (153 * mp + 2) / 5 <= doy
        &&& doy < (153 * (mp + 1) + 2) / 5
    }) by (bit_vector)
        requires
            doy < 366,
    ;
}

/// Leap years repeat every 400 years, and so does the count of leap days.
proof fn lemma_era_shift(e: int, yoe: int)
    requires
        e >= 0,
        0 <= yoe < 400,
    ensures
        leaps_before(400 * e + yoe) == 97 * e + leaps_before(yoe),
        is_leap(400 * e + yoe + 1) == is_leap(yoe + 1),
{
    let y = 400 * e + yoe;
    assert((y - 1) / 4 == 100 * e + (yoe - 1) / 4);
    assert((y - 1) / 100 == 4 * e + (yoe - 1) / 100);
    assert((y - 1) / 400 == e + (yoe - 1) / 400);
    assert((y + 1) % 4 == (yoe + 1) % 4);
    assert((y + 1) % 100 == (yoe + 1) % 100);
    assert((y + 1) % 400 == (yoe + 1) % 400);
}

/// 1 March of year 400·e + yoe, counted in days from 1970-01-01.
#[verifier::spinoff_prover]
#[verifier::rlimit(40)]
proof fn lemma_march_first(e: int, yoe: int)
    requires
        e >= 0,
        0 <= yoe < 400,
    ensures
        days_before_year(400 * e + yoe + 1) - 306 == 146097 * e + march_year_start(yoe) - 719468,
{
    lemma_era_shift(e, yoe);
    lemma_era_shift(e, yoe + 1 - 1);
    let y = 400 * e + yoe;
    assert(yoe / 400 == 0);
    assert(leaps_before(y + 1) == leaps_before(y) + (if is_leap(y) { 1int } else { 0 })) by {
        assert(y / 4 - (y - 1) / 4 == (if y % 4 == 0 { 1int } else { 0 }));
        assert(y / 100 - (y - 1) / 100 == (if y % 100 == 0 { 1int } else { 0 }));
        assert(y / 400 - (y - 1) / 400 == (if y % 400 == 0 { 1int } else { 0 }));
    }
    assert(is_leap(y) == is_leap(yoe)) by {
        assert(y % 4 == yoe % 4);
        assert(y % 100 == yoe % 100);
        assert(y % 400 == yoe % 400);
    }
    assert(leaps_before(yoe) + (if is_leap(yoe) { 1int } else { 0 }) == yoe / 4 - yoe / 100) by {
        assert(yoe / 4 - (yoe - 1) / 4 == (if yoe % 4 == 0 { 1int } else { 0 }));
        assert(yoe / 100 - (yoe - 1) / 100 == (if yoe % 100 == 0 { 1int } else { 0 }));
        assert(yoe / 400 - (yoe - 1) / 400 == (if yoe % 400 == 0 { 1int } else { 0 }));
    }
}

/// A March-based year has 365 days plus the leap day of the following
/// calendar year.
proof fn lemma_march_year_length(e: int, yoe: int)
    requires
        e >= 0,
        0 <= yoe < 400,
    ensures
        march_year_start(yoe + 1) - march_year_start(yoe) == days_in_year(400 * e + yoe + 1),
{
    lemma_era_shift(e, yoe);
    let n = yoe + 1;
    assert(n / 4 - yoe / 4 == (if n % 4 == 0 { 1int } else { 0 }));
    assert(n / 100 - yoe / 100 == (if n % 100 == 0 { 1int } else { 0 }));
    assert(n / 400 - yoe / 400 == (if n % 400 == 0 { 1int } else { 0 }));
}

/// Month starts counted from March, against the calendar's own month table.
proof fn lemma_march_months(y: int, k: int)
    requires
        0 <= k < 12,
    ensures
        k < 10 ==> days_before_month(y, k + 3) == days_before_month(y, 3) + march_month_start(k),
        k < 10 ==> march_month_start(k + 1) - march_month_start(k) == days_in_month(y, k + 3),
        k >= 10 ==> days_before_month(y + 1, k - 9) == march_month_start(k) - 306,
        k == 10 ==> march_month_start(11) - march_month_start(10) == days_in_month(y + 1, 1),
        k == 11 ==> march_month_start(11) + days_in_month(y + 1, 2) == days_in_year(y + 1),
{
    reveal_with_fuel(days_before_month, 13);
}

/// The civil date that the algorithm reads off a day of a 400-year era:
/// `doy` days after 1 March of year 400·e + yoe, in the `mp`-th month counted
/// from March.
proof fn lemma_civil_date(e: int, yoe: int, doy: int, mp: int)
    requires
        e >= 0,
        0 <= yoe < 400,
        400 * e + yoe >= 1969,
        146097 * e + march_year_start(yoe) + doy >= 719468,
        0 <= doy < march_year_start(yoe + 1) - march_year_start(yoe),
        0 <= mp < 12,
        march_month_start(mp) <= doy < march_month_start(mp + 1),
    ensures
        ({
            let m = if mp < 10 { mp + 3 } else { mp - 9 };
            let y = 400 * e + yoe + (if m <= 2 { 1int } else { 0 });
            let d = doy - march_month_start(mp) + 1;
            &&& is_date(y, m, d)
            &&& day_number(y, m, d) == 146097 * e + march_year_start(yoe) + doy - 719468
        }),
{
    let yy = 400 * e + yoe;
    lemma_march_first(e, yoe);
    lemma_march_year_length(e, yoe);
    lemma_march_months(yy, mp);
    lemma_year_step(yy);
    let n = 146097 * e + march_year_start(yoe) + doy - 719468;
    assert(n == days_before_year(yy + 1) - 306 + doy);
    if mp < 10 {
        assert(days_before_month(yy, 3) == 59 + days_in_year(yy) - 365) by {
            reveal_with_fuel(days_before_month, 3);
        }
        assert(yy >= 1970) by {
            if yy == 1969 {
                assert(days_before_year(1970) == 0);
                assert(march_month_start(mp + 1) <= march_month_start(10)) by (nonlinear_arith)
                    requires
                        mp < 10,
                ;
            }
        }
    } else {
        assert(yy + 1 >= 1970);
    }
}

/// Epoch seconds as "YYYY-MM-DD HH:MM:SSZ" (UTC, proleptic Gregorian),
/// without a date crate: the standard civil-from-days algorithm (Howard
/// Hinnant's), counting 400-year eras from 1 March of year 0.
#[verifier::spinoff_prover]
#[verifier::rlimit(40)]
pub fn format_epoch(secs: u64) -> (r: String)
    ensures
        exists|y: int, m: int, d: int|
            is_date(y, m, d) && day_number(y, m, d) == secs / 86400 && r@ == timestamp_of(
                secs as int,
                y,
                m,
                d,
            ),
{
    let days: u64 = secs / 86_400;
    let tod: u64 = secs % 86_400;
    let (h, mi, s): (u64, u64, u64) = (tod / 3600, (tod % 3600) / 60, tod % 60);
    let z: u64 = days + 719_468;
    let era: u64 = z / 146_097;
    let doe: u64 = z % 146_097;
    proof {
        lemma_year_of_era(doe);
    }
    let yoe: u64 = (doe - doe / 1_460 + doe / 36_524 - doe / 146_096) / 365;
    let doy: u64 = doe - (365 * yoe + yoe / 4 - yoe / 100);
    proof {
        lemma_month_of_year(doy);
    }
    let mp: u64 = (5 * doy + 2) / 153;
    let d: u64 = doy - (153 * mp + 2) / 5 + 1;
    let m: u64 = if mp < 10 {
        mp + 3
    } else {
        mp - 9
    };
    let y: u64 = yoe + era * 400 + (if m <= 2 {
        1
    } else {
        0
    });
    proof {
        assert(400 * (era as int) + yoe as int >= 1969) by {
            assert(z >= 719_468);
        }
        lemma_civil_date(era as int, yoe as int, doy as int, mp as int);
    }
    let mut out = String::new();
    push_decimal(&mut out, y);
    out.append("-");
    push_two_digits(&mut out, m);
    out.append("-");
    push_two_digits(&mut out, d);
    out.append(" ");
    push_two_digits(&mut out, h);
    out.append(":");
    push_two_digits(&mut out, mi);
    out.append(":");
    push_two_digits(&mut out, s);
    out.append("Z");
    assert(out@ =~= timestamp_of(secs as int, y as int, m as int, d as int));
    out
}

/// The current UTC time, rendered as `format_epoch` does (a clock that
/// reads before the epoch counts as the epoch). Whatever the clock says, the
/// text is the rendering of some calendar instant. Which instant is left
/// unsaid: the clock's reading is an opaque value here, so the contract
/// cannot tie the text to it.
pub fn timestamp_utc() -> (r: String)
    ensures
        exists|secs: int, y: int, m: int, d: int|
            0 <= secs && is_date(y, m, d) && day_number(y, m, d) == secs / 86400 && r@
                == timestamp_of(secs, y, m, d),
{
    let now = SystemTime::now();
    let secs: u64 = match now.duration_since(unix_epoch()) {
        Ok(d) => d.as_secs(),
        Err(_) => 0,
    };
    format_epoch(secs)
}

/// One log line: "[timestamp] message".
pub fn log_line(timestamp: &str, msg: &str) -> (r: String)
    ensures
        r@ == "["@ + timestamp@ + "] "@ + msg@,
{
    let mut line = String::from_str("[");
    line.append(timestamp);
    line.append("] ");
    line.append(msg);
    line
}

/// A log that only grows eventually fills someone's disk: at `max_bytes` or
/// more the file rolls to `.log.old` (one generation), bounding total use at
/// about twice the limit.
pub fn needs_rotation(len: u64, max_bytes: u64) -> (r: bool)
    ensures
        r == (len >= max_bytes),
{
    len >= max_bytes
}

/// Where the log rolls over: 512 KiB.
pub const MAX_LOG_BYTES: u64 = 524_288;

} // verus!
