//! What is written of an instant can be read back.
use crate::fix::time;
use crate::fix::time::{Date, UnixTime};
use crate::text;
use vstd::prelude::*;

verus! {

/// The value of a digit.
pub open spec fn value_of(c: char) -> int {
    if '0' <= c <= '9' {
        c as int - '0' as int
    } else {
        c as int - 'a' as int + 10
    }
}

/// The number that a row of digits spells in a base, the first digit counting most.
pub open spec fn number(t: Seq<char>, base: int) -> int
    decreases t.len(),
{
    if t.len() == 0 {
        0
    } else {
        number(t.drop_last(), base) * base + value_of(t.last())
    }
}

proof fn lemma_digit_value(d: int)
    requires
        0 <= d < 16,
    ensures
        value_of(text::digit(d)) == d,
{
    assert(d == 0 || d == 1 || d == 2 || d == 3 || d == 4 || d == 5 || d == 6 || d == 7 || d == 8
        || d == 9 || d == 10 || d == 11 || d == 12 || d == 13 || d == 14 || d == 15);
}

/// A numeral spells its number.
pub proof fn law_numerals_spell_their_number(n: nat, base: nat)
    requires
        2 <= base <= 16,
    ensures
        number(text::numeral(n, base), base as int) == n,
        text::numeral(n, base).len() >= 1,
        text::numeral(n, base).len() > 1 ==> text::numeral(n, base)[0] != '0',
    decreases n,
{
    if n < base {
        lemma_digit_value(n as int);
        let t = seq![text::digit(n as int)];
        assert(t.drop_last() =~= Seq::empty());
        assert(text::numeral(n, base) == t);
        assert(t.last() == text::digit(n as int));
        assert(number(t.drop_last(), base as int) == 0);
        assert(number(t, base as int) == 0 * base + n) by {
            assert(number(t, base as int) == number(t.drop_last(), base as int) * (base as int)
                + value_of(t.last()));
        }
        assert(0 * base == 0) by (nonlinear_arith);
    } else {
        assert(n / base < n && 0 <= n % base < base && n / base >= 1) by (nonlinear_arith)
            requires
                n >= base,
                base >= 2,
        ;
        law_numerals_spell_their_number(n / base, base);
        lemma_digit_value((n % base) as int);
        let front = text::numeral(n / base, base);
        let t = front.push(text::digit((n % base) as int));
        assert(t.drop_last() =~= front);
        vstd::arithmetic::div_mod::lemma_fundamental_div_mod(n as int, base as int);
        assert((n / base) * base == base * (n / base)) by (nonlinear_arith);
        assert(t.last() == text::digit((n % base) as int));
        assert(number(t, base as int) == number(front, base as int) * (base as int) + (n % base));
        if front.len() == 1 {
            text::lemma_numeral_len(n / base, base);
            lemma_digit_value((n / base) as int);
            assert(value_of('0') == 0);
        }
    }
}

/// Leading zeros count nothing.
proof fn lemma_zeros_count_nothing(k: nat, t: Seq<char>)
    ensures
        number(Seq::new(k, |i: int| '0') + t, 10) == number(t, 10),
    decreases k + t.len(),
{
    let z = Seq::new(k, |i: int| '0');
    if t.len() > 0 {
        lemma_zeros_count_nothing(k, t.drop_last());
        assert((z + t).drop_last() =~= z + t.drop_last());
    } else if k > 0 {
        lemma_zeros_count_nothing((k - 1) as nat, t);
        assert((z + t).drop_last() =~= Seq::new((k - 1) as nat, |i: int| '0') + t);
        assert((z + t).last() == '0');
    } else {
        assert(z + t =~= t);
    }
}

/// A padded number spells its number, in at least as many digits as asked for.
pub proof fn law_padded_numbers_spell_their_number(n: nat, width: nat)
    ensures
        number(text::padded(n, width), 10) == n,
        text::padded(n, width).len() >= width,
{
    law_numerals_spell_their_number(n, 10);
    let zeros = if text::decimal(n).len() < width {
        (width - text::decimal(n).len()) as nat
    } else {
        0
    };
    lemma_zeros_count_nothing(zeros, text::decimal(n));
}

/// The numbers that a timestamp spells: year, month and day, hours, minutes and
/// seconds, microseconds.
pub open spec fn spelled(t: Seq<char>) -> (int, int, int, int, int, int, int) {
    (
        number(t.subrange(0, 4), 10),
        number(t.subrange(4, 6), 10),
        number(t.subrange(6, 8), 10),
        number(t.subrange(9, 11), 10),
        number(t.subrange(12, 14), 10),
        number(t.subrange(15, 17), 10),
        number(t.subrange(18, 24), 10),
    )
}

/// Days from 1970-01-01 to a day, counted over whole years, months and days.
pub open spec fn days_from_epoch(y: int, m: int, d: int) -> int {
    let before = (y - 1) * 365 + (y - 1) / 4 - (y - 1) / 100 + (y - 1) / 400 - 719_162;
    let leap = y % 4 == 0 && (y % 100 != 0 || y % 400 == 0);
    let months = if m == 1 {
        0int
    } else if m == 2 {
        31
    } else {
        (if leap {
            60int
        } else {
            59
        }) + (if m == 3 {
            0int
        } else if m == 4 {
            31
        } else if m == 5 {
            61
        } else if m == 6 {
            92
        } else if m == 7 {
            122
        } else if m == 8 {
            153
        } else if m == 9 {
            184
        } else if m == 10 {
            214
        } else if m == 11 {
            245
        } else {
            275
        })
    };
    before + months + d - 1
}

/// The day number of a date is its distance from 1970-01-01.
proof fn lemma_day_number(date: Date)
    requires
        date.valid(),
    ensures
        date.day_number() == days_from_epoch(
            date.year as int,
            date.month as int,
            date.day as int,
        ),
{
    reveal_with_fuel(time::days_before_month, 13);
    assert(time::leaps_before(1970) == 477);
    let m = date.month;
    assert(m == 1 || m == 2 || m == 3 || m == 4 || m == 5 || m == 6 || m == 7 || m == 8 || m == 9
        || m == 10 || m == 11 || m == 12);
}

/// Up to the end of the year 9999 a timestamp spells its instant: its date, which is a
/// day of the calendar, and its time of day give back the microseconds that were
/// written.
pub proof fn law_timestamp_spells_its_instant(us: nat)
    requires
        us < 253_402_300_800_000_000,
    ensures
        ({
            let (year, month, day, h, m, s, frac) = spelled(time::utc_timestamp(us));
            &&& 1970 <= year <= 9999 && 1 <= month <= 12 && 1 <= day <= 31
            &&& 0 <= h < 24 && 0 <= m < 60 && 0 <= s < 60 && 0 <= frac < 1_000_000
            &&& us == (((days_from_epoch(year, month, day) * 24 + h) * 60 + m) * 60 + s) * 1_000_000
                + frac
        }),
{
    let secs = us / 1_000_000;
    let days = (secs / 86_400) as int;
    let date = time::date_of(days);
    time::lemma_timestamp_fields(us);
    lemma_day_number(date);
    let t = time::utc_timestamp(us);
    let (fy, fm, fd) = (
        text::padded(date.year as nat, 4),
        text::padded(date.month as nat, 2),
        text::padded(date.day as nat, 2),
    );
    let (fh, fi, fs, ff) = (
        text::padded(secs / 3600 % 24, 2),
        text::padded(secs / 60 % 60, 2),
        text::padded(secs % 60, 2),
        text::padded(us % 1_000_000, 6),
    );
    text::lemma_padded_len(date.year as nat, 4);
    text::lemma_padded_len(date.month as nat, 2);
    text::lemma_padded_len(date.day as nat, 2);
    text::lemma_padded_len(secs / 3600 % 24, 2);
    text::lemma_padded_len(secs / 60 % 60, 2);
    text::lemma_padded_len(secs % 60, 2);
    text::lemma_padded_len(us % 1_000_000, 6);
    law_padded_numbers_spell_their_number(date.year as nat, 4);
    law_padded_numbers_spell_their_number(date.month as nat, 2);
    law_padded_numbers_spell_their_number(date.day as nat, 2);
    law_padded_numbers_spell_their_number(secs / 3600 % 24, 2);
    law_padded_numbers_spell_their_number(secs / 60 % 60, 2);
    law_padded_numbers_spell_their_number(secs % 60, 2);
    law_padded_numbers_spell_their_number(us % 1_000_000, 6);
    assert(t.subrange(0, 4) =~= fy);
    assert(t.subrange(4, 6) =~= fm);
    assert(t.subrange(6, 8) =~= fd);
    assert(t.subrange(9, 11) =~= fh);
    assert(t.subrange(12, 14) =~= fi);
    assert(t.subrange(15, 17) =~= fs);
    assert(t.subrange(18, 24) =~= ff);
    time::lemma_year_from_1970(date);
    lemma_parts_make_the_whole(us);
}

/// Days, hours, minutes, seconds and microseconds make up the instant.
proof fn lemma_parts_make_the_whole(us: nat)
    ensures
        ({
            let secs = us / 1_000_000;
            us == (((secs / 86_400 * 24 + secs / 3600 % 24) * 60 + secs / 60 % 60) * 60 + secs % 60)
                * 1_000_000 + us % 1_000_000
        }),
{
    let secs = us / 1_000_000;
    assert(us == secs * 1_000_000 + us % 1_000_000);
    assert(secs == secs / 60 * 60 + secs % 60);
    assert(secs / 3600 == secs / 60 / 60);
    assert(secs / 60 == secs / 3600 * 60 + secs / 60 % 60);
    assert(secs / 86_400 == secs / 3600 / 24);
    assert(secs / 3600 == secs / 86_400 * 24 + secs / 3600 % 24);
}

/// The prefix of a log line spells the time of day: hours, minutes, seconds and
/// milliseconds.
pub proof fn law_log_line_spells_the_time_of_day(t: UnixTime)
    requires
        t.valid(),
    ensures
        ({
            let x = t.log_text();
            &&& x.len() == 12
            &&& x[2] == ':' && x[5] == ':' && x[8] == '.'
            &&& number(x.subrange(0, 2), 10) * 3600 + number(x.subrange(3, 5), 10) * 60 + number(
                x.subrange(6, 8),
                10,
            ) == t.secs % 86_400
            &&& number(x.subrange(3, 5), 10) < 60 && number(x.subrange(6, 8), 10) < 60
            &&& number(x.subrange(9, 12), 10) == t.nanos / 1_000_000
        }),
{
    reveal_with_fuel(text::pow10, 4);
    let (a, b, c, d) = (
        (t.secs / 3600 % 24) as nat,
        (t.secs / 60 % 60) as nat,
        (t.secs % 60) as nat,
        (t.nanos / 1_000_000) as nat,
    );
    text::lemma_padded_len(a, 2);
    text::lemma_padded_len(b, 2);
    text::lemma_padded_len(c, 2);
    text::lemma_padded_len(d, 3);
    law_padded_numbers_spell_their_number(a, 2);
    law_padded_numbers_spell_their_number(b, 2);
    law_padded_numbers_spell_their_number(c, 2);
    law_padded_numbers_spell_their_number(d, 3);
    let x = t.log_text();
    assert(x.subrange(0, 2) =~= text::padded(a, 2));
    assert(x.subrange(3, 5) =~= text::padded(b, 2));
    assert(x.subrange(6, 8) =~= text::padded(c, 2));
    assert(x.subrange(9, 12) =~= text::padded(d, 3));
    let s = t.secs as int;
    assert(s / 3600 == s / 60 / 60);
    assert(s / 3600 / 24 == s / 86_400);
}

/// Microseconds and milliseconds are whole, and nothing is rounded up.
pub proof fn law_instants_in_whole_units(t: UnixTime)
    ensures
        t.micros_spec() * 1000 <= t.secs * 1_000_000_000 + t.nanos < (t.micros_spec() + 1) * 1000,
        t.millis_spec() * 1_000_000 <= t.secs * 1_000_000_000 + t.nanos < (t.millis_spec() + 1)
            * 1_000_000,
{
}

/// What the clock showed decides: an instant gives its microseconds, its log line and
/// its id, and no instant gives none.
pub proof fn law_no_instant_gives_nothing(t: UnixTime, prefix: char, counter: u64)
    ensures
        time::micros_of(None) is None,
        time::log_text_of(None) is None,
        time::clordid_of(prefix, None, counter) is None,
        t.micros_spec() <= i64::MAX ==> time::micros_of(Some(t)) == Some(t.micros_spec() as i64),
        time::log_text_of(Some(t)) == Some(t.log_text()),
        t.millis_spec() <= u64::MAX ==> time::clordid_of(prefix, Some(t), counter) == Some(
            time::clordid(prefix, t.millis_spec() as u64, counter),
        ),
        time::is_reading(Some(t)) <==> t.nanos < 1_000_000_000,
        time::is_reading(None),
{
}

/// A client order id is its prefix, the milliseconds and the 24 low-order bits of the
/// counter, each spelled in base 16 without leading zeros.
pub proof fn law_clordid_spells_its_parts(prefix: char, ms: u64, counter: u64)
    ensures
        ({
            let id = time::clordid(prefix, ms, counter);
            let (a, b) = (
                text::hexadecimal(ms as nat),
                text::hexadecimal((counter % 0x100_0000) as nat),
            );
            &&& id[0] == prefix
            &&& id.len() == 1 + a.len() + b.len()
            &&& number(id.subrange(1, 1 + a.len() as int), 16) == ms
            &&& number(id.subrange(1 + a.len() as int, id.len() as int), 16) == counter % 16_777_216
        }),
{
    let id = time::clordid(prefix, ms, counter);
    let (a, b) = (
        text::hexadecimal(ms as nat),
        text::hexadecimal((counter % 0x100_0000) as nat),
    );
    law_numerals_spell_their_number(ms as nat, 16);
    law_numerals_spell_their_number((counter % 0x100_0000) as nat, 16);
    assert(id.subrange(1, 1 + a.len() as int) =~= a);
    assert(id.subrange(1 + a.len() as int, id.len() as int) =~= b);
}

} // verus!
