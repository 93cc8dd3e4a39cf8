//! Instants, and the civil calendar that timestamps are written in.
use crate::sbe::wire;
use crate::sbe::wire::{bits_i64, i64_bits};
use crate::text;
use crate::text::{push_hexadecimal, push_padded};
use vstd::prelude::*;

verus! {

pub open spec fn is_leap(y: int) -> bool {
    y % 4 == 0 && (y % 100 != 0 || y % 400 == 0)
}

/// Days of a Gregorian year.
pub open spec fn year_len(y: int) -> int {
    if is_leap(y) {
        366
    } else {
        365
    }
}

/// Days of month `m`, from 1 to 12.
pub open spec fn month_len(y: int, m: int) -> int {
    if m == 2 {
        if is_leap(y) {
            29
        } else {
            28
        }
    } else if m == 4 || m == 6 || m == 9 || m == 11 {
        30
    } else {
        31
    }
}

/// Leap years from year 1 up to, and without, `y`.
pub open spec fn leaps_before(y: int) -> int {
    (y - 1) / 4 - (y - 1) / 100 + (y - 1) / 400
}

/// Days from 1970-01-01 to the first day of `y`.
pub open spec fn days_before_year(y: int) -> int {
    365 * (y - 1970) + leaps_before(y) - leaps_before(1970)
}

/// Days of `y` that lie before month `m`.
pub open spec fn days_before_month(y: int, m: int) -> int
    decreases m,
{
    if m <= 1 {
        0
    } else {
        days_before_month(y, m - 1) + month_len(y, m - 1)
    }
}

/// A day of the Gregorian calendar.
#[derive(Clone, Copy, Debug, PartialEq, Eq, Structural)]
pub struct Date {
    pub year: u64,
    /// From 1 to 12.
    pub month: u64,
    /// From 1.
    pub day: u64,
}

impl Date {
    /// The month and the day exist.
    pub open spec fn valid(self) -> bool {
        &&& 1 <= self.month <= 12
        &&& 1 <= self.day <= month_len(self.year as int, self.month as int)
    }

    /// Days from 1970-01-01 to this day.
    pub open spec fn day_number(self) -> int {
        days_before_year(self.year as int) + days_before_month(
            self.year as int,
            self.month as int,
        ) + self.day - 1
    }
}

/// A year has as many days as lie between its first day and that of the next,
/// and as its months have together.
pub proof fn law_years_follow_each_other(y: int)
    ensures
        days_before_year(y + 1) == days_before_year(y) + year_len(y),
        days_before_month(y, 12) + month_len(y, 12) == year_len(y),
{
    reveal_with_fuel(days_before_month, 13);
    lemma_next_leap_count(y);
}

/// A quotient grows by one at the multiples of the divisor.
proof fn lemma_quotient_step(y: int, d: int)
    requires
        d > 1,
    ensures
        y / d == (y - 1) / d + if y % d == 0 {
            1int
        } else {
            0
        },
{
    let q = (y - 1) / d;
    let r = (y - 1) % d;
    vstd::arithmetic::div_mod::lemma_fundamental_div_mod(y - 1, d);
    if r == d - 1 {
        assert(y == d * (q + 1)) by (nonlinear_arith)
            requires
                y - 1 == d * q + r,
                r == d - 1,
        ;
        vstd::arithmetic::div_mod::lemma_fundamental_div_mod_converse(y, d, q + 1, 0);
    } else {
        vstd::arithmetic::div_mod::lemma_fundamental_div_mod_converse(y, d, q, r + 1);
    }
}

proof fn lemma_next_leap_count(y: int)
    ensures
        leaps_before(y + 1) == leaps_before(y) + if is_leap(y) {
            1int
        } else {
            0
        },
{
    lemma_quotient_step(y, 4);
    lemma_quotient_step(y, 100);
    lemma_quotient_step(y, 400);
    assert(y % 100 == 0 ==> y % 4 == 0);
    assert(y % 400 == 0 ==> y % 100 == 0);
}

/// A later year starts later, and no earlier than the years between it and an
/// earlier one have days.
proof fn lemma_years_in_order(a: int, b: int)
    requires
        a < b,
    ensures
        days_before_year(a) + year_len(a) <= days_before_year(b),
    decreases b - a,
{
    law_years_follow_each_other(a);
    if a + 1 < b {
        lemma_years_in_order(a + 1, b);
    }
}

proof fn lemma_months_in_order(y: int, a: int, b: int)
    requires
        1 <= a < b <= 13,
    ensures
        days_before_month(y, a) + month_len(y, a) <= days_before_month(y, b),
        0 <= days_before_month(y, a),
    decreases b - a,
{
    reveal_with_fuel(days_before_month, 14);
    if a + 1 < b {
        lemma_months_in_order(y, a + 1, b);
    }
}

/// No two days of the calendar have the same number.
pub proof fn law_day_number_is_unique(a: Date, b: Date)
    requires
        a.valid(),
        b.valid(),
        a.day_number() == b.day_number(),
    ensures
        a == b,
{
    let (ya, yb) = (a.year as int, b.year as int);
    let (ma, mb) = (a.month as int, b.month as int);
    law_years_follow_each_other(ya);
    law_years_follow_each_other(yb);
    lemma_months_in_order(ya, ma, 13);
    lemma_months_in_order(yb, mb, 13);
    reveal_with_fuel(days_before_month, 2);
    if ya < yb {
        lemma_years_in_order(ya, yb);
    } else if yb < ya {
        lemma_years_in_order(yb, ya);
    } else if ma < mb {
        lemma_months_in_order(ya, ma, mb);
    } else if mb < ma {
        lemma_months_in_order(ya, mb, ma);
    }
}

/// The date of the day that lies `days` after 1970-01-01.
pub open spec fn date_of(days: int) -> Date {
    choose|date: Date| date.valid() && #[trigger] date.day_number() == days
}

/// The day of a number is the day that has the number.
pub proof fn law_date_of_day_number(date: Date)
    requires
        date.valid(),
    ensures
        date_of(date.day_number()) == date,
{
    law_day_number_is_unique(date_of(date.day_number()), date);
}

/// Day of the March-based year at which its year `y` of an era starts.
spec fn era_year_start(y: int) -> int {
    365 * y + y / 4 - y / 100
}

/// The year of an era of 400 March-based years that holds day `doe` of it.
proof fn lemma_year_of_era(doe: int, yoe: int)
    requires
        0 <= doe < 146_097,
        yoe == (doe - doe / 1460 + doe / 36_524 - doe / 146_096) / 365,
    ensures
        0 <= yoe < 400,
        era_year_start(yoe) <= doe,
        doe <= era_year_start(yoe) + 365,
        doe == era_year_start(yoe) + 365 ==> (yoe + 1) % 4 == 0 && ((yoe + 1) % 100 != 0 || yoe
            + 1 == 400),
{
    let c = doe / 36_524;
    assert(0 <= c <= 4);
    if c == 0 {
    } else if c == 1 {
    } else if c == 2 {
    } else if c == 3 {
    } else {
    }
}

/// Month and day of the day `doy` of the March-based year that starts in `y`.
proof fn lemma_month_and_day(y: int, doy: int, mp: int)
    requires
        0 <= doy <= 365,
        doy == 365 ==> is_leap(y + 1),
        mp == (5 * doy + 2) / 153,
    ensures
        0 <= mp <= 11,
        (153 * mp + 2) / 5 <= doy,
        ({
            let (year, month) = if mp < 10 {
                (y, mp + 3)
            } else {
                (y + 1, mp - 9)
            };
            let day = doy - (153 * mp + 2) / 5 + 1;
            &&& 1 <= day <= month_len(year, month)
            &&& days_before_year(year) + days_before_month(year, month) + day - 1
                == days_before_year(y + 1) + doy - 306
        }),
{
    reveal_with_fuel(days_before_month, 13);
    law_years_follow_each_other(y);
    assert(mp == 0 || mp == 1 || mp == 2 || mp == 3 || mp == 4 || mp == 5 || mp == 6 || mp == 7
        || mp == 8 || mp == 9 || mp == 10 || mp == 11);
}

/// Day on which the March-based year `yoe` of an era starts.
proof fn lemma_march_year_start(yoe: int, era: int)
    requires
        0 <= yoe < 400,
        era >= 0,
    ensures
        days_before_year(yoe + 400 * era + 1) == era * 146_097 + era_year_start(yoe) - 719_468
            + 306,
        is_leap(yoe + 400 * era + 1) == ((yoe + 1) % 4 == 0 && ((yoe + 1) % 100 != 0 || yoe + 1
            == 400)),
{
    let y = yoe + 400 * era;
    assert(y / 4 == yoe / 4 + 100 * era);
    assert(y / 100 == yoe / 100 + 4 * era);
    assert(y / 400 == era);
    assert((y + 1) % 400 == (yoe + 1) % 400);
    assert((y + 1) % 100 == (yoe + 1) % 100);
    assert((y + 1) % 4 == (yoe + 1) % 4);
    assert(leaps_before(1970) == 477);
}

/// Every day from 1970-01-01 on has a date.
pub proof fn lemma_date_exists(days: int)
    requires
        0 <= days <= 0xffff_ffff_ffff,
    ensures
        date_of(days).valid(),
        date_of(days).day_number() == days,
{
    let z = days + 719_468;
    let era = z / 146_097;
    let doe = z - era * 146_097;
    let yoe = (doe - doe / 1460 + doe / 36_524 - doe / 146_096) / 365;
    lemma_year_of_era(doe, yoe);
    let doy = doe - era_year_start(yoe);
    let mp = (5 * doy + 2) / 153;
    lemma_march_year_start(yoe, era);
    lemma_month_and_day(yoe + 400 * era, doy, mp);
    let date = Date {
        year: (if mp < 10 {
            yoe + 400 * era
        } else {
            yoe + 400 * era + 1
        }) as u64,
        month: (if mp < 10 {
            mp + 3
        } else {
            mp - 9
        }) as u64,
        day: (doy - (153 * mp + 2) / 5 + 1) as u64,
    };
    assert(date.valid() && date.day_number() == days);
}

/// The civil date of the day that lies `days` after 1970-01-01.
pub fn civil_date(days: u64) -> (date: Date)
    requires
        days <= 0xffff_ffff_ffff,
    ensures
        date.valid(),
        date.day_number() == days,
        date == date_of(days as int),
{
    // Years start in March here, so that a leap day ends its year.
    let z: u64 = days + 719_468;
    let era: u64 = z / 146_097;
    let doe: u64 = z - era * 146_097;
    let yoe: u64 = (doe - doe / 1460 + doe / 36_524 - doe / 146_096) / 365;
    proof {
        lemma_year_of_era(doe as int, yoe as int);
    }
    let y: u64 = yoe + era * 400;
    let doy: u64 = doe - (365 * yoe + yoe / 4 - yoe / 100);
    let mp: u64 = (5 * doy + 2) / 153;
    proof {
        lemma_march_year_start(yoe as int, era as int);
        lemma_month_and_day(y as int, doy as int, mp as int);
    }
    let day: u64 = doy - (153 * mp + 2) / 5 + 1;
    let month: u64 = if mp < 10 {
        mp + 3
    } else {
        mp - 9
    };
    let year: u64 = if month <= 2 {
        y + 1
    } else {
        y
    };
    let date = Date { year, month, day };
    proof {
        law_date_of_day_number(date);
    }
    date
}

/// The instant `us` microseconds after the Unix epoch, as a FIX UTCTimestamp:
/// `YYYYMMDD-HH:MM:SS.ssssss`. A year after 9999 takes the digits it needs.
pub open spec fn utc_timestamp(us: nat) -> Seq<char> {
    let secs = us / 1_000_000;
    let date = date_of((secs / 86_400) as int);
    text::padded(date.year as nat, 4) + text::padded(date.month as nat, 2) + text::padded(
        date.day as nat,
        2,
    ) + seq!['-'] + text::padded(secs / 3600 % 24, 2) + seq![':'] + text::padded(
        secs / 60 % 60,
        2,
    ) + seq![':'] + text::padded(secs % 60, 2) + seq!['.'] + text::padded(us % 1_000_000, 6)
}

/// The date of a later day is later: by its year, or else its month, or else its
/// day.
proof fn lemma_dates_in_order(a: Date, b: Date)
    requires
        a.valid(),
        b.valid(),
        a.day_number() < b.day_number(),
    ensures
        a.year <= b.year,
        a.year == b.year ==> a.month <= b.month,
        a.year == b.year && a.month == b.month ==> a.day < b.day,
{
    let (ya, yb) = (a.year as int, b.year as int);
    let (ma, mb) = (a.month as int, b.month as int);
    law_years_follow_each_other(yb);
    lemma_months_in_order(ya, ma, 13);
    lemma_months_in_order(yb, mb, 13);
    reveal_with_fuel(days_before_month, 2);
    if yb < ya {
        lemma_years_in_order(yb, ya);
    } else if ya == yb && mb < ma {
        lemma_months_in_order(ya, mb, ma);
    }
}

/// One more field of the same width keeps two texts in order: by what stands
/// before it, or, where that is the same, by the field.
proof fn lemma_field_in_order(
    pa: Seq<char>,
    pb: Seq<char>,
    before: bool,
    fa: nat,
    fb: nat,
    width: nat,
)
    requires
        width >= 1,
        fa < text::pow10(width),
        fb < text::pow10(width),
        before ==> text::comes_before(pa, pb),
        !before ==> pa == pb && fa <= fb,
    ensures
        before || fa < fb ==> text::comes_before(
            pa + text::padded(fa, width),
            pb + text::padded(fb, width),
        ),
        !(before || fa < fb) ==> pa + text::padded(fa, width) == pb + text::padded(fb, width),
{
    if before {
        text::lemma_before_append(pa, pb, text::padded(fa, width), text::padded(fb, width));
    } else if fa < fb {
        text::lemma_padded_order(fa, fb, width);
        text::lemma_before_prepend(pa, text::padded(fa, width), text::padded(fb, width));
    }
}

/// A separator keeps two texts in order.
proof fn lemma_separator_in_order(pa: Seq<char>, pb: Seq<char>, before: bool, c: char)
    requires
        before ==> text::comes_before(pa, pb),
        !before ==> pa == pb,
    ensures
        before ==> text::comes_before(pa + seq![c], pb + seq![c]),
        !before ==> pa + seq![c] == pb + seq![c],
{
    if before {
        text::lemma_before_append(pa, pb, seq![c], seq![c]);
    }
}

/// The date of an instant before the year 10000 and its fields, each in its range.
pub proof fn lemma_timestamp_fields(us: nat)
    requires
        us < 253_402_300_800_000_000,
    ensures
        ({
            let date = date_of((us / 1_000_000 / 86_400) as int);
            &&& date.valid()
            &&& date.day_number() == us / 1_000_000 / 86_400
            &&& date.year < text::pow10(4)
            &&& date.month < text::pow10(2)
            &&& date.day < text::pow10(2)
        }),
        text::pow10(2) == 100,
        text::pow10(4) == 10_000,
        text::pow10(6) == 1_000_000,
{
    let days = (us / 1_000_000 / 86_400) as int;
    let date = date_of(days);
    lemma_date_exists(days);
    assert(date.year <= 9999) by {
        assert(days_before_year(10_000) == 2_932_897);
        if date.year > 9999 {
            if date.year > 10_000 {
                lemma_years_in_order(10_000, date.year as int);
            }
            if date.month > 1 {
                lemma_months_in_order(date.year as int, 1, date.month as int);
            }
        }
        reveal_with_fuel(days_before_month, 2);
    }
    reveal_with_fuel(text::pow10, 7);
}

/// Up to the end of the year 9999 a timestamp has its 24 characters, the
/// separators in their places and digits everywhere else.
pub proof fn law_timestamp_has_fixed_width(us: nat)
    requires
        us < 253_402_300_800_000_000,
    ensures
        utc_timestamp(us).len() == 24,
        utc_timestamp(us)[8] == '-',
        utc_timestamp(us)[11] == ':',
        utc_timestamp(us)[14] == ':',
        utc_timestamp(us)[17] == '.',
        forall|i: int|
            0 <= i < 24 && i != 8 && i != 11 && i != 14 && i != 17 ==> text::is_decimal_digit(
                #[trigger] utc_timestamp(us)[i],
            ),
{
    let secs = us / 1_000_000;
    let date = date_of((secs / 86_400) as int);
    lemma_timestamp_fields(us);
    lemma_field(date.year as nat, 4);
    lemma_field(date.month as nat, 2);
    lemma_field(date.day as nat, 2);
    lemma_field(secs / 3600 % 24, 2);
    lemma_field(secs / 60 % 60, 2);
    lemma_field(secs % 60, 2);
    lemma_field(us % 1_000_000, 6);
}

/// A field of a timestamp has its width, and digits alone.
proof fn lemma_field(v: nat, width: nat)
    requires
        width >= 1,
        v < text::pow10(width),
    ensures
        text::padded(v, width).len() == width,
        forall|i: int|
            0 <= i < width ==> text::is_decimal_digit(#[trigger] text::padded(v, width)[i]),
{
    text::lemma_padded_len(v, width);
    text::lemma_padded_digits(v, width);
}

/// No day from 1970-01-01 on lies in an earlier year.
pub proof fn lemma_year_from_1970(date: Date)
    requires
        date.valid(),
        date.day_number() >= 0,
    ensures
        date.year >= 1970,
{
    if date.year < 1970 {
        let y = date.year as int;
        lemma_years_in_order(y, 1970);
        law_years_follow_each_other(y);
        lemma_months_in_order(y, date.month as int, 13);
        reveal_with_fuel(days_before_month, 2);
    }
}

/// The order of two instants in their parts: seconds, minutes, hours and days.
proof fn lemma_parts_in_order(a: nat, b: nat)
    requires
        a < b,
    ensures
        ({
            let (sa, sb) = (a / 1_000_000, b / 1_000_000);
            &&& sa / 86_400 <= sb / 86_400
            &&& sa / 86_400 == sb / 86_400 ==> sa / 3600 % 24 <= sb / 3600 % 24
            &&& sa / 86_400 == sb / 86_400 && sa / 3600 % 24 == sb / 3600 % 24 ==> sa / 60 % 60
                <= sb / 60 % 60
            &&& sa / 86_400 == sb / 86_400 && sa / 3600 % 24 == sb / 3600 % 24 && sa / 60 % 60
                == sb / 60 % 60 ==> sa % 60 <= sb % 60
            &&& sa / 86_400 == sb / 86_400 && sa / 3600 % 24 == sb / 3600 % 24 && sa / 60 % 60
                == sb / 60 % 60 && sa % 60 == sb % 60 ==> a % 1_000_000 < b % 1_000_000
        }),
{
    let (sa, sb) = (a / 1_000_000, b / 1_000_000);
    assert(sa <= sb);
    assert(sa / 86_400 == sa / 3600 / 24 && sb / 86_400 == sb / 3600 / 24);
    assert(sa / 3600 == sa / 60 / 60 && sb / 3600 == sb / 60 / 60);
    assert(sa / 60 <= sb / 60);
    assert(sa / 3600 <= sb / 3600);
}

/// Up to the end of the year 9999 a later instant has the greater timestamp, in
/// the order of strings.
pub proof fn law_timestamps_are_in_order(a: nat, b: nat)
    requires
        a < b < 253_402_300_800_000_000,
    ensures
        text::comes_before(utc_timestamp(a), utc_timestamp(b)),
{
    let (sa, sb) = (a / 1_000_000, b / 1_000_000);
    let (da, db) = (date_of((sa / 86_400) as int), date_of((sb / 86_400) as int));
    lemma_timestamp_fields(a);
    lemma_timestamp_fields(b);
    lemma_parts_in_order(a, b);
    if sa / 86_400 < sb / 86_400 {
        lemma_dates_in_order(da, db);
    }
    let none = Seq::<char>::empty();
    let (pa, pb) = (text::padded(da.year as nat, 4), text::padded(db.year as nat, 4));
    lemma_field_in_order(none, none, false, da.year as nat, db.year as nat, 4);
    assert(none + pa =~= pa && none + pb =~= pb);
    let l1 = da.year < db.year;

    lemma_field_in_order(pa, pb, l1, da.month as nat, db.month as nat, 2);
    let (pa, pb) = (pa + text::padded(da.month as nat, 2), pb + text::padded(db.month as nat, 2));
    let l2 = l1 || da.month < db.month;

    lemma_field_in_order(pa, pb, l2, da.day as nat, db.day as nat, 2);
    let (pa, pb) = (pa + text::padded(da.day as nat, 2), pb + text::padded(db.day as nat, 2));
    let l3 = l2 || da.day < db.day;
    lemma_separator_in_order(pa, pb, l3, '-');
    let (pa, pb) = (pa + seq!['-'], pb + seq!['-']);

    lemma_field_in_order(pa, pb, l3, sa / 3600 % 24, sb / 3600 % 24, 2);
    let (pa, pb) = (
        pa + text::padded(sa / 3600 % 24, 2),
        pb + text::padded(sb / 3600 % 24, 2),
    );
    let l4 = l3 || sa / 3600 % 24 < sb / 3600 % 24;
    lemma_separator_in_order(pa, pb, l4, ':');
    let (pa, pb) = (pa + seq![':'], pb + seq![':']);

    lemma_field_in_order(pa, pb, l4, sa / 60 % 60, sb / 60 % 60, 2);
    let (pa, pb) = (pa + text::padded(sa / 60 % 60, 2), pb + text::padded(sb / 60 % 60, 2));
    let l5 = l4 || sa / 60 % 60 < sb / 60 % 60;
    lemma_separator_in_order(pa, pb, l5, ':');
    let (pa, pb) = (pa + seq![':'], pb + seq![':']);

    lemma_field_in_order(pa, pb, l5, sa % 60, sb % 60, 2);
    let (pa, pb) = (pa + text::padded(sa % 60, 2), pb + text::padded(sb % 60, 2));
    let l6 = l5 || sa % 60 < sb % 60;
    lemma_separator_in_order(pa, pb, l6, '.');
    let (pa, pb) = (pa + seq!['.'], pb + seq!['.']);

    lemma_field_in_order(pa, pb, l6, a % 1_000_000, b % 1_000_000, 6);
}

fn push_char(s: &mut String, c: char)
    ensures
        final(s)@ == old(s)@ + seq![c],
{
    s.push(c);
    assert(s@ =~= old(s)@ + seq![c]);
}

/// Formats an instant, in microseconds since the Unix epoch, as a FIX
/// UTCTimestamp. A negative count stands for its two's complement.
pub fn fix_utc_timestamp(us_since_epoch: i64) -> (res: String)
    ensures
        res@ == utc_timestamp(wire::twos64(us_since_epoch) as nat),
{
    let total_us: u64 = i64_bits(us_since_epoch);
    let us: u64 = total_us % 1_000_000;
    let secs: u64 = total_us / 1_000_000;
    let date = civil_date(secs / 86_400);
    let mut out = String::new();
    push_padded(&mut out, date.year, 4);
    assert(out@ =~= text::padded(date.year as nat, 4));
    push_padded(&mut out, date.month, 2);
    push_padded(&mut out, date.day, 2);
    push_char(&mut out, '-');
    push_padded(&mut out, secs / 3600 % 24, 2);
    push_char(&mut out, ':');
    push_padded(&mut out, secs / 60 % 60, 2);
    push_char(&mut out, ':');
    push_padded(&mut out, secs % 60, 2);
    push_char(&mut out, '.');
    push_padded(&mut out, us, 6);
    out
}

/// `std::time::SystemTime`: an instant of the system clock.
#[verifier::external_type_specification]
#[verifier::external_body]
pub struct ExSystemTime(std::time::SystemTime);

/// `SystemTime::now` reads the system clock; nothing is known of the instant.
pub assume_specification[ std::time::SystemTime::now ]() -> std::time::SystemTime;

/// `SystemTime::duration_since`, from the Unix epoch: the whole seconds and the
/// nanoseconds of the running second, of which there are less than a billion;
/// nothing where the instant lies before the epoch.
#[verifier::external_body]
fn since_epoch(t: std::time::SystemTime) -> (res: Option<(u64, u32)>)
    ensures
        res matches Some((_, nanos)) ==> nanos < 1_000_000_000,
{
    match t.duration_since(std::time::UNIX_EPOCH) {
        Ok(d) => Some((d.as_secs(), d.subsec_nanos())),
        Err(_) => None,
    }
}

/// An instant since the Unix epoch.
#[derive(Clone, Copy, Debug, PartialEq, Eq, Structural)]
pub struct UnixTime {
    pub secs: u64,
    /// Nanoseconds of the running second.
    pub nanos: u32,
}

impl UnixTime {
    pub open spec fn valid(self) -> bool {
        self.nanos < 1_000_000_000
    }

    /// Whole microseconds since the epoch.
    pub open spec fn micros_spec(self) -> int {
        self.secs * 1_000_000 + self.nanos / 1000
    }

    /// Whole milliseconds since the epoch.
    pub open spec fn millis_spec(self) -> int {
        self.secs * 1000 + self.nanos / 1_000_000
    }

    /// The instant of a reading of the system clock, in seconds and nanoseconds
    /// since the epoch; there is none where the reading lies before the epoch.
    pub fn from_reading(reading: Option<(u64, u32)>) -> (res: Option<UnixTime>)
        ensures
            res == match reading {
                Some((secs, nanos)) => Some(UnixTime { secs, nanos }),
                None => None,
            },
    {
        match reading {
            Some((secs, nanos)) => Some(UnixTime { secs, nanos }),
            None => None,
        }
    }

    /// The system clock, unless it stands before the epoch.
    pub fn now() -> (res: Option<UnixTime>)
        ensures
            is_reading(res),
    {
        UnixTime::from_reading(since_epoch(std::time::SystemTime::now()))
    }

    /// Whole microseconds since the epoch, as their 64 low-order bits.
    pub fn micros(&self) -> (us: i64)
        ensures
            us == wire::signed64((self.micros_spec() % 0x1_0000_0000_0000_0000) as u64),
    {
        let us: u128 = self.secs as u128 * 1_000_000 + (self.nanos / 1000) as u128;
        bits_i64((us % 0x1_0000_0000_0000_0000) as u64)
    }

    /// Whole milliseconds since the epoch, as their 64 low-order bits.
    pub fn millis(&self) -> (ms: u64)
        ensures
            ms == self.millis_spec() % 0x1_0000_0000_0000_0000,
    {
        let ms: u128 = self.secs as u128 * 1000 + (self.nanos / 1_000_000) as u128;
        (ms % 0x1_0000_0000_0000_0000) as u64
    }

    /// The time of day with milliseconds, `HH:MM:SS.mmm`, as log lines carry it.
    pub open spec fn log_text(self) -> Seq<char> {
        text::padded((self.secs / 3600 % 24) as nat, 2) + seq![':'] + text::padded(
            (self.secs / 60 % 60) as nat,
            2,
        ) + seq![':'] + text::padded((self.secs % 60) as nat, 2) + seq!['.'] + text::padded(
            (self.nanos / 1_000_000) as nat,
            3,
        )
    }

    pub fn to_log(&self) -> (res: String)
        ensures
            res@ == self.log_text(),
    {
        let mut out = String::new();
        push_padded(&mut out, self.secs / 3600 % 24, 2);
        assert(out@ =~= text::padded((self.secs / 3600 % 24) as nat, 2));
        push_char(&mut out, ':');
        push_padded(&mut out, self.secs / 60 % 60, 2);
        push_char(&mut out, ':');
        push_padded(&mut out, self.secs % 60, 2);
        push_char(&mut out, '.');
        push_padded(&mut out, (self.nanos / 1_000_000) as u64, 3);
        out
    }
}

/// What the system clock can show: an instant, or nothing while it stands before
/// the Unix epoch.
pub open spec fn is_reading(now: Option<UnixTime>) -> bool {
    now matches Some(t) ==> t.valid()
}

/// The microseconds of an instant, as their 64 low-order bits; none of none.
pub open spec fn micros_of(now: Option<UnixTime>) -> Option<i64> {
    match now {
        Some(t) => Some(wire::signed64((t.micros_spec() % 0x1_0000_0000_0000_0000) as u64)),
        None => None,
    }
}

/// The microseconds of what the system clock showed.
pub fn micros_when(now: Option<UnixTime>) -> (res: Option<i64>)
    ensures
        res == micros_of(now),
{
    match now {
        Some(t) => Some(t.micros()),
        None => None,
    }
}

/// Microseconds since the Unix epoch, the unit of SendingTime; nothing while
/// the system clock stands before the epoch.
pub fn now_us() -> (res: Option<i64>)
    ensures
        exists|now: Option<UnixTime>| is_reading(now) && res == #[trigger] micros_of(now),
{
    micros_when(UnixTime::now())
}

/// The prefix of a log line of an instant; none of none.
pub open spec fn log_text_of(now: Option<UnixTime>) -> Option<Seq<char>> {
    match now {
        Some(t) => Some(t.log_text()),
        None => None,
    }
}

/// The prefix of a log line for what the system clock showed.
pub fn ts_log_when(now: Option<UnixTime>) -> (res: Option<String>)
    ensures
        text::view_of(res) == log_text_of(now),
{
    match now {
        Some(t) => Some(t.to_log()),
        None => None,
    }
}

/// The prefix of a log line at this instant; nothing while the system clock
/// stands before the Unix epoch.
pub fn ts_log() -> (res: Option<String>)
    ensures
        exists|now: Option<UnixTime>|
            is_reading(now) && text::view_of(res) == #[trigger] log_text_of(now),
{
    ts_log_when(UnixTime::now())
}

/// A client order id: `prefix`, the milliseconds `ms` in hexadecimal, the low
/// 24 bits of `counter` in hexadecimal.
pub open spec fn clordid(prefix: char, ms: u64, counter: u64) -> Seq<char> {
    seq![prefix] + text::hexadecimal(ms as nat) + text::hexadecimal((counter % 0x100_0000) as nat)
}

/// Ids of one prefix and one millisecond are the same exactly where their counters
/// agree in the 24 low-order bits.
pub proof fn law_clordid_tells_counters_apart(prefix: char, ms: u64, a: u64, b: u64)
    ensures
        clordid(prefix, ms, a) == clordid(prefix, ms, b) <==> a % 0x100_0000 == b % 0x100_0000,
{
    let front = seq![prefix] + text::hexadecimal(ms as nat);
    let (x, y) = (
        text::hexadecimal((a % 0x100_0000) as nat),
        text::hexadecimal((b % 0x100_0000) as nat),
    );
    if front + x == front + y {
        assert(x =~= (front + x).skip(front.len() as int));
        assert(y =~= (front + y).skip(front.len() as int));
        text::lemma_numeral_unique((a % 0x100_0000) as nat, (b % 0x100_0000) as nat, 16);
    }
}

/// The client order id of an instant in milliseconds and a counter.
pub fn clordid_at(prefix: char, ms: u64, counter: u64) -> (res: String)
    ensures
        res@ == clordid(prefix, ms, counter),
{
    let mut out = String::new();
    push_char(&mut out, prefix);
    assert(out@ =~= seq![prefix]);
    push_hexadecimal(&mut out, ms);
    push_hexadecimal(&mut out, counter % 0x100_0000);
    out
}

/// The client order id of an instant and a counter; none of no instant.
pub open spec fn clordid_of(prefix: char, now: Option<UnixTime>, counter: u64) -> Option<
    Seq<char>,
> {
    match now {
        Some(t) => Some(
            clordid(prefix, (t.millis_spec() % 0x1_0000_0000_0000_0000) as u64, counter),
        ),
        None => None,
    }
}

/// The client order id of what the system clock showed and a counter.
pub fn clordid_when(prefix: char, now: Option<UnixTime>, counter: u64) -> (res: Option<String>)
    ensures
        text::view_of(res) == clordid_of(prefix, now, counter),
{
    match now {
        Some(t) => Some(clordid_at(prefix, t.millis(), counter)),
        None => None,
    }
}

/// A client order id of this instant; nothing while the system clock stands
/// before the Unix epoch.
pub fn gen_clordid(prefix: char, counter: u64) -> (res: Option<String>)
    ensures
        exists|now: Option<UnixTime>|
            is_reading(now) && text::view_of(res) == #[trigger] clordid_of(prefix, now, counter),
{
    clordid_when(prefix, UnixTime::now(), counter)
}

} // verus!
