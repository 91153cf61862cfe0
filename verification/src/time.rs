//! Dates of the proleptic Gregorian calendar.
use vstd::prelude::*;

use crate::number::{decimal, digit, digits_value, law_decimal_round_trip, show_u64};
use crate::order::{before, lemma_before_irreflexive};
use crate::text::{cat2, cat3, cat5};

verus! {

/// A calendar date.
pub struct Date {
    pub year: int,
    pub month: int,
    pub day: int,
}

pub open spec fn is_leap(y: int) -> bool {
    y % 4 == 0 && (y % 100 != 0 || y % 400 == 0)
}

pub open spec fn month_len(y: int, m: int) -> int {
    if m == 2 {
        if is_leap(y) {
            29
        } else {
            28
        }
    } else if m == 4 || m == 6 || m == 9 || m == 11 {
        30
    } else {
        31
    }
}

/// The days of year `y` before month `m`.
pub open spec fn days_before_month(y: int, m: int) -> int
    decreases m,
{
    if m <= 1 {
        0
    } else {
        days_before_month(y, m - 1) + month_len(y, m - 1)
    }
}

/// The leap years from year 1 up to year `y`.
pub open spec fn leap_years_to(y: int) -> int {
    y / 4 - y / 100 + y / 400
}

/// The days from the start of 1970 to the start of year `y`.
pub open spec fn days_before_year(y: int) -> int {
    365 * (y - 1970) + leap_years_to(y - 1) - leap_years_to(1969)
}

pub open spec fn is_date(d: Date) -> bool {
    1 <= d.month <= 12 && 1 <= d.day <= month_len(d.year, d.month)
}

/// The days from 1970-01-01 to `d`.
pub open spec fn day_number(d: Date) -> int {
    days_before_year(d.year) + days_before_month(d.year, d.month) + d.day - 1
}

/// The date that lies `days` days after 1970-01-01.
pub open spec fn date_of(days: int) -> Date {
    choose|d: Date| is_date(d) && day_number(d) == days
}

/// A number below one hundred with two digits.
pub open spec fn two_digits(n: int) -> Seq<char> {
    if n < 10 {
        "0"@ + decimal(n as nat)
    } else {
        decimal(n as nat)
    }
}

/// A date and a time of day, in seconds, as `YYYY-MM-DD HH:MM:SS`.
pub open spec fn time_text(d: Date, t: int) -> Seq<char> {
    decimal(d.year as nat) + "-"@ + two_digits(d.month) + "-"@ + two_digits(d.day) + " "@
        + two_digits(t / 3600) + ":"@ + two_digits((t / 60) % 60) + ":"@ + two_digits(t % 60)
}

/// Unix milliseconds as `YYYY-MM-DD HH:MM:SS`.
pub open spec fn shown_time(ms: int) -> Seq<char> {
    let seconds = ms / 1000;
    time_text(date_of(seconds / 86400), seconds % 86400)
}

fn show_two_digits(n: u64) -> (r: String)
    ensures
        r@ == two_digits(n as int),
{
    let s = show_u64(n);
    if n < 10 {
        cat2("0", s.as_str())
    } else {
        s
    }
}

/// The days of a year that starts in March before its month `mp`, which counts from 0.
pub open spec fn days_before_march_month(mp: int) -> int {
    (153 * mp + 2) / 5
}

/// A day of a 400-year cycle of March-based years falls into the computed year.
proof fn lemma_year_of_era(doe: int)
    requires
        0 <= doe <= 146096,
    ensures
        ({
            let yoe = (doe - doe / 1460 + doe / 36524 - doe / 146096) / 365;
            let doy = doe - (365 * yoe + yoe / 4 - yoe / 100);
            &&& 0 <= yoe <= 399
            &&& 0 <= doy <= 365
            &&& doy == 365 ==> is_leap(yoe + 1)
        }),
{
    let c = if doe == 146096 {
        3
    } else {
        doe / 36524
    };
    let r = doe - 36524 * c;
    let q = if r / 1461 > 24 {
        24
    } else {
        r / 1461
    };
    let s = r - 1461 * q;
    assert(0 <= c <= 3);
    assert(0 <= r <= 36524);
    assert(0 <= q <= 24);
    assert(0 <= s <= 1460);
    assert(doe == 36524 * c + 1461 * q + s);
    let e = (24 * c + q + s) / 1460;
    assert(0 <= e <= 1);
    assert(doe / 1460 == 25 * c + q + e) by {
        assert(doe == 1460 * (25 * c + q) + (24 * c + q + s));
    }
    assert(doe / 36524 - doe / 146096 == c);
    let n = doe - doe / 1460 + doe / 36524 - doe / 146096;
    assert(n == 365 * (100 * c + 4 * q) + (s - e));
    let t = (s - e) / 365;
    assert(s - e >= 0);
    assert(0 <= t <= 3);
    let yoe = n / 365;
    assert(yoe == 100 * c + 4 * q + t);
    assert(yoe / 4 == 25 * c + q);
    assert(yoe / 100 == c);
    let doy = doe - (365 * yoe + yoe / 4 - yoe / 100);
    assert(doy == s - 365 * t);
    if doy == 365 {
        assert(t == 3 && s == 1460);
        assert(yoe + 1 == 100 * c + 4 * (q + 1));
        assert((yoe + 1) % 4 == 0);
        if q == 24 {
            assert(c == 3) by {
                if c < 3 {
                    assert(r < 36524);
                }
            }
            assert((yoe + 1) % 400 == 0);
        } else {
            assert((yoe + 1) % 100 == 4 * (q + 1));
        }
    }
}

/// A day of a March-based year falls into the computed month.
proof fn lemma_month_of_year(doy: int)
    requires
        0 <= doy <= 365,
    ensures
        ({
            let mp = (5 * doy + 2) / 153;
            &&& 0 <= mp <= 11
            &&& days_before_march_month(mp) <= doy
            &&& doy < days_before_march_month(mp + 1) || (mp == 11 && doy <= 365)
        }),
{
}

/// The days before a month, counted from January and from March.
proof fn lemma_march_months(y: int, mp: int)
    requires
        0 <= mp <= 11,
    ensures
        ({
            let m = if mp < 10 {
                mp + 3
            } else {
                mp - 9
            };
            let leap: int = if is_leap(y) {
                1
            } else {
                0
            };
            &&& mp < 10 ==> days_before_month(y, m) == 59 + leap + days_before_march_month(mp)
            &&& mp == 10 ==> days_before_month(y, m) == 0
            &&& mp == 11 ==> days_before_month(y, m) == 31
            &&& mp < 11 ==> days_before_march_month(mp + 1) - days_before_march_month(mp)
                == month_len(y, m)
        }),
{
    reveal_with_fuel(days_before_month, 13);
}

proof fn lemma_leap_step(y: int)
    ensures
        leap_years_to(y) - leap_years_to(y - 1) == if is_leap(y) {
            1int
        } else {
            0int
        },
{
    lemma_quotient_step(y, 4);
    lemma_quotient_step(y, 100);
    lemma_quotient_step(y, 400);
    assert(y % 100 == 0 ==> y % 4 == 0) by {
        assert(y == 100 * (y / 100) + y % 100);
    }
    assert(y % 400 == 0 ==> y % 100 == 0) by {
        assert(y == 400 * (y / 400) + y % 400);
    }
}

proof fn lemma_quotient_step(y: int, n: int)
    requires
        n > 1,
    ensures
        y / n - (y - 1) / n == if y % n == 0 {
            1int
        } else {
            0int
        },
{
    let q = y / n;
    let r = y % n;
    vstd::arithmetic::div_mod::lemma_fundamental_div_mod(y, n);
    if r == 0 {
        assert(y - 1 == n * (q - 1) + (n - 1)) by (nonlinear_arith)
            requires
                y == n * q,
        ;
        vstd::arithmetic::div_mod::lemma_fundamental_div_mod_converse(y - 1, n, q - 1, n - 1);
    } else {
        assert(y - 1 == n * q + (r - 1));
        vstd::arithmetic::div_mod::lemma_fundamental_div_mod_converse(y - 1, n, q, r - 1);
    }
}

/// A later year starts after every day of an earlier one.
proof fn lemma_years_ascend(a: int, b: int)
    requires
        a < b,
    ensures
        days_before_year(a) + 365 + (if is_leap(a) {
            1int
        } else {
            0int
        }) <= days_before_year(b),
    decreases b - a,
{
    lemma_leap_step(b - 1);
    if a < b - 1 {
        lemma_years_ascend(a, b - 1);
    }
}

proof fn lemma_months_ascend(y: int, a: int, b: int)
    requires
        1 <= a < b,
    ensures
        days_before_month(y, a) + month_len(y, a) <= days_before_month(y, b),
    decreases b - a,
{
    if a < b - 1 {
        lemma_months_ascend(y, a, b - 1);
    }
}

/// The days of a whole year.
proof fn lemma_year_len(y: int)
    ensures
        days_before_month(y, 12) + 31 == 365 + (if is_leap(y) {
            1int
        } else {
            0int
        }),
{
    reveal_with_fuel(days_before_month, 13);
}

/// Two dates with the same day number are the same date.
pub proof fn law_day_number_tells_dates_apart(a: Date, b: Date)
    requires
        is_date(a),
        is_date(b),
        day_number(a) == day_number(b),
    ensures
        a == b,
{
    lemma_date_in_year(a);
    lemma_date_in_year(b);
    if a.year < b.year {
        lemma_years_ascend(a.year, b.year);
    } else if b.year < a.year {
        lemma_years_ascend(b.year, a.year);
    } else if a.month < b.month {
        lemma_months_ascend(a.year, a.month, b.month);
    } else if b.month < a.month {
        lemma_months_ascend(a.year, b.month, a.month);
    }
}

proof fn lemma_date_in_year(d: Date)
    requires
        is_date(d),
    ensures
        0 <= days_before_month(d.year, d.month),
        days_before_month(d.year, d.month) + d.day <= 365 + (if is_leap(d.year) {
            1int
        } else {
            0int
        }),
{
    lemma_year_len(d.year);
    if d.month < 12 {
        lemma_months_ascend(d.year, d.month, 12);
    }
    if d.month > 1 {
        lemma_months_ascend(d.year, 1, d.month);
    }
}

/// Leap years repeat every 400 years.
#[verifier::spinoff_prover]
proof fn lemma_cycle(era: int, yoe: int)
    requires
        0 <= yoe < 400,
    ensures
        leap_years_to(yoe + era * 400) == 97 * era + yoe / 4 - yoe / 100,
{
    let y = yoe + era * 400;
    assert(y / 4 == 100 * era + yoe / 4);
    assert(y / 100 == 4 * era + yoe / 100);
    assert(y / 400 == era);
}

#[verifier::spinoff_prover]
proof fn lemma_leap_cycle(era: int, y: int)
    ensures
        is_leap(y + era * 400) == is_leap(y),
{
    assert((y + era * 400) % 4 == y % 4);
    assert((y + era * 400) % 100 == y % 100);
    assert((y + era * 400) % 400 == y % 400);
}

/// What the computation of a date from a day number gives.
#[verifier::spinoff_prover]
proof fn lemma_civil(days: int, era: int, doe: int, yoe: int, doy: int, mp: int)
    requires
        0 <= days,
        era == (days + 719468) / 146097,
        doe == days + 719468 - era * 146097,
        yoe == (doe - doe / 1460 + doe / 36524 - doe / 146096) / 365,
        doy == doe - (365 * yoe + yoe / 4 - yoe / 100),
        mp == (5 * doy + 2) / 153,
    ensures
        ({
            let month = if mp < 10 {
                mp + 3
            } else {
                mp - 9
            };
            let d = Date {
                year: yoe + era * 400 + (if month <= 2 {
                    1int
                } else {
                    0int
                }),
                month,
                day: doy - (153 * mp + 2) / 5 + 1,
            };
            is_date(d) && day_number(d) == days && d == date_of(days)
        }),
{
    lemma_year_of_era(doe);
    lemma_month_of_year(doy);
    let month = if mp < 10 {
        mp + 3
    } else {
        mp - 9
    };
    let march_year = yoe + era * 400;
    let year = march_year + (if month <= 2 {
        1int
    } else {
        0int
    });
    let d = Date { year, month, day: doy - (153 * mp + 2) / 5 + 1 };
    lemma_march_months(year, mp);
    lemma_cycle(era, yoe);
    assert(365 * march_year + leap_years_to(march_year) + doy == days + 719468);
    lemma_leap_step(march_year);
    assert(leap_years_to(1969) == 477);
    assert(is_date(d)) by {
        if mp == 11 {
            assert(days_before_march_month(11) == 337);
            if doy == 365 {
                assert(is_leap(yoe + 1));
                assert(year == (yoe + 1) + 400 * era);
                lemma_leap_cycle(era, yoe + 1);
                assert(is_leap(year));
            }
        }
    }
    assert(day_number(d) == days) by {
        if mp >= 10 {
            assert(days_before_march_month(10) == 306);
            assert(days_before_march_month(11) == 337);
        }
    }
    assert(date_of(days) == d) by {
        let other = date_of(days);
        assert(is_date(other) && day_number(other) == days);
        law_day_number_tells_dates_apart(d, other);
    }
}

/// The first millisecond of the year 10000.
pub open spec fn year_10000() -> int {
    253_402_300_800_000
}

/// The date of a day from 1970 on is a date, and has its day number.
proof fn lemma_date_of(days: int)
    requires
        0 <= days,
    ensures
        is_date(date_of(days)),
        day_number(date_of(days)) == days,
{
    let era = (days + 719468) / 146097;
    let doe = days + 719468 - era * 146097;
    let yoe = (doe - doe / 1460 + doe / 36524 - doe / 146096) / 365;
    let doy = doe - (365 * yoe + yoe / 4 - yoe / 100);
    lemma_civil(days, era, doe, yoe, doy, (5 * doy + 2) / 153);
}

/// One date lies before another.
pub open spec fn is_earlier(a: Date, b: Date) -> bool {
    a.year < b.year || (a.year == b.year && (a.month < b.month || (a.month == b.month && a.day
        < b.day)))
}

/// Dates are ordered as their day numbers are.
proof fn lemma_dates_ascend(a: Date, b: Date)
    requires
        is_date(a),
        is_date(b),
    ensures
        is_earlier(a, b) == (day_number(a) < day_number(b)),
{
    lemma_date_in_year(a);
    lemma_date_in_year(b);
    if a.year < b.year {
        lemma_years_ascend(a.year, b.year);
    } else if b.year < a.year {
        lemma_years_ascend(b.year, a.year);
    } else if a.month < b.month {
        lemma_months_ascend(a.year, a.month, b.month);
    } else if b.month < a.month {
        lemma_months_ascend(a.year, b.month, a.month);
    }
}

/// The years up to 9999 have four digits from 1970 on.
proof fn lemma_year_in_range(days: int)
    requires
        0 <= days < year_10000() / 86_400_000,
    ensures
        1970 <= date_of(days).year <= 9999,
{
    let d = date_of(days);
    lemma_date_of(days);
    lemma_date_in_year(d);
    assert(leap_years_to(1969) == 477);
    assert(leap_years_to(9999) == 2424);
    if d.year < 1970 {
        lemma_years_ascend(d.year, 1970);
    }
    if d.year > 10000 {
        lemma_years_ascend(10000, d.year);
    }
}

proof fn lemma_two_digits(n: int)
    requires
        0 <= n < 100,
    ensures
        two_digits(n) == seq![digit(n / 10), digit(n % 10)],
{
    reveal_with_fuel(decimal, 3);
    reveal_strlit("0");
    assert(two_digits(n) =~= seq![digit(n / 10), digit(n % 10)]);
}

proof fn lemma_four_digits(n: int)
    requires
        1000 <= n <= 9999,
    ensures
        decimal(n as nat) == seq![digit(n / 1000), digit(n / 100 % 10), digit(n / 10 % 10), digit(n % 10)],
{
    reveal_with_fuel(decimal, 5);
    assert(n / 10 / 10 == n / 100);
    assert(n / 10 / 10 / 10 == n / 1000);
    assert(decimal(n as nat) =~= seq![
        digit(n / 1000),
        digit(n / 100 % 10),
        digit(n / 10 % 10),
        digit(n % 10),
    ]);
}

/// What comes first in two texts of one length decides, then what follows.
proof fn lemma_before_joined(p: Seq<char>, q: Seq<char>, a: Seq<char>, b: Seq<char>)
    requires
        p.len() == q.len(),
    ensures
        before(p, q) ==> before(p + a, q + b),
        p == q && before(a, b) ==> before(p + a, q + b),
    decreases p.len(),
{
    if p.len() == 0 {
        assert(p + a =~= a);
        assert(q + b =~= b);
    } else {
        assert((p + a).drop_first() =~= p.drop_first() + a);
        assert((q + b).drop_first() =~= q.drop_first() + b);
        lemma_before_joined(p.drop_first(), q.drop_first(), a, b);
    }
}

proof fn lemma_two_digits_ascend(m: int, n: int)
    requires
        0 <= m < n < 100,
    ensures
        before(two_digits(m), two_digits(n)),
{
    lemma_two_digits(m);
    lemma_two_digits(n);
    reveal_with_fuel(before, 3);
}

/// Four digits are two pairs.
proof fn lemma_two_pairs(n: int)
    requires
        1000 <= n <= 9999,
    ensures
        decimal(n as nat) == two_digits(n / 100) + two_digits(n % 100),
{
    lemma_four_digits(n);
    lemma_two_digits(n / 100);
    lemma_two_digits(n % 100);
    assert(n / 100 / 10 == n / 1000);
    assert(n % 100 / 10 == n / 10 % 10);
    assert(n % 100 % 10 == n % 10);
    assert(decimal(n as nat) =~= two_digits(n / 100) + two_digits(n % 100));
}

proof fn lemma_four_digits_ascend(m: int, n: int)
    requires
        1000 <= m < n <= 9999,
    ensures
        before(decimal(m as nat), decimal(n as nat)),
{
    lemma_two_pairs(m);
    lemma_two_pairs(n);
    lemma_two_digits(m / 100);
    lemma_two_digits(n / 100);
    lemma_before_joined(
        two_digits(m / 100),
        two_digits(n / 100),
        two_digits(m % 100),
        two_digits(n % 100),
    );
    if m / 100 < n / 100 {
        lemma_two_digits_ascend(m / 100, n / 100);
    } else {
        lemma_two_digits_ascend(m % 100, n % 100);
    }
}

/// The next field of two texts: where the fields so far decide, they still do; where they agree,
/// the numbers decide.
proof fn lemma_next_field(p: Seq<char>, q: Seq<char>, sep: Seq<char>, m: int, n: int)
    requires
        p.len() == q.len(),
        p == q || before(p, q),
        0 <= m < 100,
        0 <= n < 100,
        p == q ==> m <= n,
    ensures
        ({
            let (a, b) = (p + sep + two_digits(m), q + sep + two_digits(n));
            &&& a.len() == b.len()
            &&& p == q && m == n ==> a == b
            &&& !(p == q && m == n) ==> before(a, b)
        }),
{
    lemma_two_digits(m);
    lemma_two_digits(n);
    lemma_before_joined(p, q, sep, sep);
    lemma_before_joined(p + sep, q + sep, two_digits(m), two_digits(n));
    if p == q && m < n {
        lemma_two_digits_ascend(m, n);
    }
}

proof fn lemma_time_text_ascends(a: Date, t: int, b: Date, u: int)
    requires
        is_date(a),
        is_date(b),
        1970 <= a.year <= 9999,
        1970 <= b.year <= 9999,
        0 <= t < 86400,
        0 <= u < 86400,
        is_earlier(a, b) || (a == b && t <= u),
    ensures
        a == b && t == u ==> time_text(a, t) == time_text(b, u),
        !(a == b && t == u) ==> before(time_text(a, t), time_text(b, u)),
{
    let (p0, q0) = (decimal(a.year as nat), decimal(b.year as nat));
    lemma_four_digits(a.year);
    lemma_four_digits(b.year);
    if a.year < b.year {
        lemma_four_digits_ascend(a.year, b.year);
        lemma_before_irreflexive(p0);
    }
    let (h, m, s) = (t / 3600, t / 60 % 60, t % 60);
    let (i, n, r) = (u / 3600, u / 60 % 60, u % 60);
    assert(t == h * 3600 + m * 60 + s && u == i * 3600 + n * 60 + r);
    lemma_next_field(p0, q0, "-"@, a.month, b.month);
    let (p1, q1) = (p0 + "-"@ + two_digits(a.month), q0 + "-"@ + two_digits(b.month));
    lemma_told_apart(p1, q1);
    lemma_next_field(p1, q1, "-"@, a.day, b.day);
    let (p2, q2) = (p1 + "-"@ + two_digits(a.day), q1 + "-"@ + two_digits(b.day));
    lemma_told_apart(p2, q2);
    lemma_next_field(p2, q2, " "@, h, i);
    let (p3, q3) = (p2 + " "@ + two_digits(h), q2 + " "@ + two_digits(i));
    lemma_told_apart(p3, q3);
    lemma_next_field(p3, q3, ":"@, m, n);
    let (p4, q4) = (p3 + ":"@ + two_digits(m), q3 + ":"@ + two_digits(n));
    lemma_told_apart(p4, q4);
    lemma_next_field(p4, q4, ":"@, s, r);
}

/// A text does not come before itself.
proof fn lemma_told_apart(p: Seq<char>, q: Seq<char>)
    ensures
        before(p, q) ==> p != q,
{
    lemma_before_irreflexive(p);
}

/// Before the year 10000, shown times are ordered as the times are, and are the same for the same
/// second alone.
pub proof fn law_shown_times_are_ordered(a: int, b: int)
    requires
        0 <= a <= b < year_10000(),
    ensures
        (shown_time(a) == shown_time(b)) == (a / 1000 == b / 1000),
        a / 1000 < b / 1000 ==> before(shown_time(a), shown_time(b)),
{
    let (x, y) = (a / 1000, b / 1000);
    let (d, e) = (date_of(x / 86400), date_of(y / 86400));
    lemma_date_of(x / 86400);
    lemma_date_of(y / 86400);
    lemma_year_in_range(x / 86400);
    lemma_year_in_range(y / 86400);
    lemma_dates_ascend(d, e);
    if x / 86400 == y / 86400 {
        assert(x % 86400 <= y % 86400);
    }
    lemma_time_text_ascends(d, x % 86400, e, y % 86400);
    lemma_told_apart(shown_time(a), shown_time(b));
}

/// The digits of `s` from `from` on, up to `to`, write the number `n`.
pub open spec fn field_is(s: Seq<char>, from: int, to: int, n: int) -> bool {
    digits_value(s.subrange(from, to)) == Some(n as nat)
}

proof fn lemma_pair_value(n: int)
    requires
        0 <= n < 100,
    ensures
        digits_value(two_digits(n)) == Some(n as nat),
{
    lemma_two_digits(n);
    let s = two_digits(n);
    reveal_with_fuel(digits_value, 3);
    assert(s.drop_last() =~= seq![digit(n / 10)]);
    assert(s.drop_last().drop_last() =~= Seq::<char>::empty());
}

/// Before the year 10000, a shown time has the form `YYYY-MM-DD HH:MM:SS`: its fields write a date
/// and a time of day, and these give the second back.
pub proof fn law_shown_time_has_its_form(ms: int)
    requires
        0 <= ms < year_10000(),
    ensures
        ({
            let s = shown_time(ms);
            let d = date_of(ms / 1000 / 86400);
            let t = ms / 1000 % 86400;
            let (hour, minute, second) = (t / 3600, t / 60 % 60, t % 60);
            &&& s.len() == 19
            &&& s[4] == '-' && s[7] == '-' && s[10] == ' ' && s[13] == ':' && s[16] == ':'
            &&& field_is(s, 0, 4, d.year) && field_is(s, 5, 7, d.month) && field_is(s, 8, 10, d.day)
            &&& field_is(s, 11, 13, hour) && field_is(s, 14, 16, minute) && field_is(
                s,
                17,
                19,
                second,
            )
            &&& is_date(d) && 0 <= hour < 24 && 0 <= minute < 60 && 0 <= second < 60
            &&& day_number(d) * 86400 + hour * 3600 + minute * 60 + second == ms / 1000
        }),
{
    let s = shown_time(ms);
    let d = date_of(ms / 1000 / 86400);
    let t = ms / 1000 % 86400;
    let (hour, minute, second) = (t / 3600, t / 60 % 60, t % 60);
    lemma_date_of(ms / 1000 / 86400);
    lemma_year_in_range(ms / 1000 / 86400);
    lemma_four_digits(d.year);
    lemma_two_digits(d.month);
    lemma_two_digits(d.day);
    lemma_two_digits(hour);
    lemma_two_digits(minute);
    lemma_two_digits(second);
    reveal_strlit("-");
    reveal_strlit(" ");
    reveal_strlit(":");
    law_decimal_round_trip(d.year as nat);
    lemma_pair_value(d.month);
    lemma_pair_value(d.day);
    lemma_pair_value(hour);
    lemma_pair_value(minute);
    lemma_pair_value(second);
    assert(s.subrange(0, 4) =~= decimal(d.year as nat));
    assert(s.subrange(5, 7) =~= two_digits(d.month));
    assert(s.subrange(8, 10) =~= two_digits(d.day));
    assert(s.subrange(11, 13) =~= two_digits(hour));
    assert(s.subrange(14, 16) =~= two_digits(minute));
    assert(s.subrange(17, 19) =~= two_digits(second));
}

/// Formats Unix milliseconds as `YYYY-MM-DD HH:MM:SS`.
pub fn format_unix_millis(timestamp_ms: u64) -> (r: String)
    ensures
        r@ == shown_time(timestamp_ms as int),
{
    let seconds: i64 = (timestamp_ms / 1000) as i64;
    let days: i64 = seconds / 86_400;
    let z: i64 = days + 719_468;
    let era: i64 = z / 146_097;
    let day_of_era: u32 = (z - era * 146_097) as u32;
    proof {
        lemma_year_of_era(day_of_era as int);
    }
    let year_of_era: u32 = (day_of_era - day_of_era / 1_460 + day_of_era / 36_524 - day_of_era
        / 146_096) / 365;
    let day_of_year: u32 = day_of_era - (365 * year_of_era + year_of_era / 4 - year_of_era / 100);
    let month_prime: u32 = (5 * day_of_year + 2) / 153;
    proof {
        lemma_month_of_year(day_of_year as int);
        lemma_civil(
            days as int,
            era as int,
            day_of_era as int,
            year_of_era as int,
            day_of_year as int,
            month_prime as int,
        );
    }
    let day: u32 = day_of_year - (153 * month_prime + 2) / 5 + 1;
    let month: u32 = if month_prime < 10 {
        month_prime + 3
    } else {
        month_prime - 9
    };
    let march_year: i64 = year_of_era as i64 + era * 400;
    let year: i64 = if month <= 2 {
        march_year + 1
    } else {
        march_year
    };
    let day_seconds: u32 = (seconds % 86_400) as u32;
    let date = cat5(
        show_u64(year as u64).as_str(),
        "-",
        show_two_digits(month as u64).as_str(),
        "-",
        show_two_digits(day as u64).as_str(),
    );
    let hours = cat3(date.as_str(), " ", show_two_digits((day_seconds / 3_600) as u64).as_str());
    cat5(
        hours.as_str(),
        ":",
        show_two_digits(((day_seconds / 60) % 60) as u64).as_str(),
        ":",
        show_two_digits((day_seconds % 60) as u64).as_str(),
    )
}

} // verus!
