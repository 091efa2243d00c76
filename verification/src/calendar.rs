//! Dates of the proleptic Gregorian calendar, from days since the Unix epoch.
use vstd::prelude::*;
use crate::clock;
use crate::text;

verus! {

/// Whether a year has a 29th of February.
pub open spec fn is_leap(year: int) -> bool {
    year % 4 == 0 && (year % 100 != 0 || year % 400 == 0)
}

/// Days from 1 January of year 1 to 1 January of a year.
pub open spec fn year_start(year: int) -> int {
    365 * (year - 1) + (year - 1) / 4 - (year - 1) / 100 + (year - 1) / 400
}

/// Days of a month.
pub open spec fn month_length(year: int, month: int) -> int {
    if month == 2 {
        if is_leap(year) {
            29
        } else {
            28
        }
    } else if month == 4 || month == 6 || month == 9 || month == 11 {
        30
    } else {
        31
    }
}

/// Days from 1 January to the first of a month of the same year.
pub open spec fn month_start(year: int, month: int) -> int
    decreases month,
{
    if month <= 1 {
        0
    } else {
        month_start(year, month - 1) + month_length(year, month - 1)
    }
}

/// Whether a date exists.
pub open spec fn is_date(year: int, month: int, day: int) -> bool {
    1 <= month <= 12 && 1 <= day <= month_length(year, month)
}

/// Days from 1 January 1970 to a date.
pub open spec fn day_number(year: int, month: int, day: int) -> int {
    year_start(year) + month_start(year, month) + day - 1 - year_start(1970)
}

/// A year is as long as its months are.
pub proof fn law_years_follow_on(year: int)
    ensures
        year_start(year + 1) == year_start(year) + (if is_leap(year) {
            366int
        } else {
            365int
        }),
        month_start(year, 12) + month_length(year, 12) == year_start(year + 1) - year_start(year),
{
    let y = year - 1;
    assert(year / 4 == y / 4 + (if year % 4 == 0 {
        1int
    } else {
        0
    }));
    assert(year / 100 == y / 100 + (if year % 100 == 0 {
        1int
    } else {
        0
    }));
    assert(year / 400 == y / 400 + (if year % 400 == 0 {
        1int
    } else {
        0
    }));
    assert(year % 400 == 0 ==> year % 100 == 0);
    assert(year % 100 == 0 ==> year % 4 == 0);
    reveal_with_fuel(month_start, 13);
}

/// The starts of the months of a year that begins in March: March is day 59 of
/// a common year.
proof fn lemma_month_starts(year: int)
    ensures
        ({
            let leap: int = if is_leap(year) {
                1
            } else {
                0
            };
            &&& month_start(year, 1) == 0
            &&& month_start(year, 2) == 31
            &&& month_start(year, 3) == 59 + leap
            &&& month_start(year, 4) == 90 + leap
            &&& month_start(year, 5) == 120 + leap
            &&& month_start(year, 6) == 151 + leap
            &&& month_start(year, 7) == 181 + leap
            &&& month_start(year, 8) == 212 + leap
            &&& month_start(year, 9) == 243 + leap
            &&& month_start(year, 10) == 273 + leap
            &&& month_start(year, 11) == 304 + leap
            &&& month_start(year, 12) == 334 + leap
        }),
{
    reveal_with_fuel(month_start, 13);
}

/// The floors of a year that is counted in eras of 400, centuries, fours and
/// ones.
proof fn lemma_floors(era: int, c: int, q: int, n: int)
    requires
        0 <= c < 4,
        0 <= q < 25,
        0 <= n < 4,
    ensures
        ({
            let y = era * 400 + c * 100 + q * 4 + n;
            &&& y / 4 == era * 100 + c * 25 + q
            &&& y / 100 == era * 4 + c
            &&& y / 400 == era
            &&& y % 4 == n
            &&& y % 100 == q * 4 + n
            &&& y % 400 == c * 100 + q * 4 + n
        }),
{
}

/// A day of an era of 400 years, as centuries, fours, years and days. Each year
/// begins in March.
fn split_era(doe: i64) -> (r: (i64, i64, i64, i64))
    requires
        0 <= doe < 146_097,
    ensures
        0 <= r.0 < 4,
        0 <= r.1 < 25,
        0 <= r.2 < 4,
        0 <= r.3 <= 365,
        doe == r.0 * 36_524 + r.1 * 1_461 + r.2 * 365 + r.3,
        r.3 == 365 ==> r.2 == 3 && (r.1 < 24 || r.0 == 3),
{
    let c: i64 = if doe / 36_524 > 3 {
        3
    } else {
        doe / 36_524
    };
    let doc: i64 = doe - c * 36_524;
    assert(0 <= doc <= 36_524);
    assert(c < 3 ==> doc < 36_524);
    let q: i64 = doc / 1_461;
    let doq: i64 = doc - q * 1_461;
    assert(0 <= doq < 1_461);
    let n: i64 = if doq / 365 > 3 {
        3
    } else {
        doq / 365
    };
    (c, q, n, doq - n * 365)
}

/// The day of the year on which a month starts, in years that begin in March.
pub open spec fn march_start(month: int) -> int {
    if month == 3 {
        0
    } else if month == 4 {
        31
    } else if month == 5 {
        61
    } else if month == 6 {
        92
    } else if month == 7 {
        122
    } else if month == 8 {
        153
    } else if month == 9 {
        184
    } else if month == 10 {
        214
    } else if month == 11 {
        245
    } else if month == 12 {
        275
    } else if month == 1 {
        306
    } else {
        337
    }
}

/// Month and day of a day of a year that begins in March.
fn march_date(doy: i64) -> (r: (i64, i64))
    requires
        0 <= doy <= 365,
    ensures
        1 <= r.0 <= 12,
        doy == march_start(r.0 as int) + r.1 - 1,
        1 <= r.1,
        r.0 != 2 ==> forall|year: int| r.1 <= #[trigger] month_length(year, r.0 as int),
        r.0 == 2 ==> r.1 <= 29,
        doy < 365 && r.0 == 2 ==> r.1 <= 28,
{
    let mp: i64 = (5 * doy + 2) / 153;
    let day: i64 = doy - (153 * mp + 2) / 5 + 1;
    let month: i64 = if mp < 10 {
        mp + 3
    } else {
        mp - 9
    };
    assert(0 <= mp <= 11);
    assert((153 * mp + 2) / 5 == march_start(month as int));
    (month, day)
}

/// A date is as many days after 1 March as it is in a year that begins then.
proof fn lemma_march(year: int, month: int)
    requires
        1 <= month <= 12,
    ensures
        month >= 3 ==> year_start(year) + month_start(year, month) == year_start(year + 1) - 306
            + march_start(month),
        month < 3 ==> month_start(year, month) == march_start(month) - 306,
{
    law_years_follow_on(year);
    lemma_month_starts(year);
}

/// The date that lies some days after 1 January 1970.
pub fn civil_from_days(days_since_epoch: i64) -> (r: (i64, u64, u64))
    requires
        days_since_epoch <= i64::MAX - 719_468,
    ensures
        is_date(r.0 as int, r.1 as int, r.2 as int),
        day_number(r.0 as int, r.1 as int, r.2 as int) == days_since_epoch,
{
    // Days since 1 March of year 0, so that a leap day ends its year.
    let z: i64 = days_since_epoch + 719_468;
    let era: i64 = if z >= 0 {
        z / 146_097
    } else {
        -((-(z + 1)) / 146_097) - 1
    };
    let doe: i64 = z - era * 146_097;
    let (c, q, n, doy) = split_era(doe);
    let (month, day) = march_date(doy);
    let march_year: i64 = era * 400 + c * 100 + q * 4 + n;
    let year: i64 = if month <= 2 {
        march_year + 1
    } else {
        march_year
    };
    proof {
        let y = march_year as int;
        lemma_floors(era as int, c as int, q as int, n as int);
        assert(year_start(y + 1) == era * 146_097 + c * 36_524 + q * 1_461 + n * 365);
        assert(year_start(1970) == 719_162);
        lemma_march(year as int, month as int);
        if month == 2 && day == 29 {
            assert(doy == 365);
            assert(is_leap(y + 1)) by {
                if q < 24 {
                    lemma_floors(era as int, c as int, q + 1, 0);
                } else {
                    lemma_floors(era + 1, 0, 0, 0);
                }
            }
        }
    }
    (year, month as u64, day as u64)
}

/// A date lies within its year.
proof fn lemma_within_year(year: int, month: int, day: int)
    requires
        is_date(year, month, day),
    ensures
        0 <= month_start(year, month) + day - 1 < year_start(year + 1) - year_start(year),
{
    law_years_follow_on(year);
    lemma_month_starts(year);
}

/// Years start one after the other.
proof fn lemma_years_rise(a: int, b: int)
    requires
        a <= b,
    ensures
        year_start(a) <= year_start(b),
    decreases b - a,
{
    if a < b {
        law_years_follow_on(b - 1);
        lemma_years_rise(a, b - 1);
    }
}

/// Every day has one date.
pub proof fn law_dates_are_unique(y1: int, m1: int, d1: int, y2: int, m2: int, d2: int)
    requires
        is_date(y1, m1, d1),
        is_date(y2, m2, d2),
        day_number(y1, m1, d1) == day_number(y2, m2, d2),
    ensures
        y1 == y2,
        m1 == m2,
        d1 == d2,
{
    lemma_within_year(y1, m1, d1);
    lemma_within_year(y2, m2, d2);
    if y1 < y2 {
        lemma_years_rise(y1 + 1, y2);
    }
    if y2 < y1 {
        lemma_years_rise(y2 + 1, y1);
    }
    lemma_month_starts(y1);
}

// ------------------------------------------------------------------ text
/// A number with zeros in front, at least `width` digits long.
pub open spec fn padded(n: nat, width: nat) -> Seq<char> {
    let digits = text::dec(n);
    if digits.len() < width {
        Seq::new((width - digits.len()) as nat, |i: int| '0') + digits
    } else {
        digits
    }
}

/// A signed number with zeros behind its sign, at least `width` long.
pub open spec fn padded_int(n: int, width: nat) -> Seq<char> {
    if n < 0 {
        seq!['-'] + padded((-n) as nat, (width - 1) as nat)
    } else {
        padded(n as nat, width)
    }
}

fn pad(n: u64, width: usize) -> (r: String)
    ensures
        r@ == padded(n as nat, width as nat),
{
    let digits = text::dec_text(n);
    let len: usize = text::chars_of(digits.as_str()).len();
    let mut r = String::new();
    let mut i: usize = len;
    while i < width
        invariant
            i <= width || i == len,
            len <= i,
            r@ == Seq::new((i - len) as nat, |k: int| '0'),
        decreases width - i,
    {
        r.push('0');
        i = i + 1;
        assert(r@ =~= Seq::new((i - len) as nat, |k: int| '0'));
    }
    r.append(digits.as_str());
    assert(r@ =~= padded(n as nat, width as nat));
    r
}

fn pad_int(n: i64, width: usize) -> (r: String)
    requires
        width > 0,
    ensures
        r@ == padded_int(n as int, width as nat),
{
    if n < 0 {
        let magnitude: u64 = (-(n as i128)) as u64;
        let digits = pad(magnitude, width - 1);
        let mut r = String::new();
        r.push('-');
        r.append(digits.as_str());
        assert(r@ =~= padded_int(n as int, width as nat));
        r
    } else {
        pad(n as u64, width)
    }
}

/// A date as text: year, month and day with hyphens between them.
pub open spec fn date_text(year: int, month: int, day: int) -> Seq<char> {
    padded_int(year, 4) + "-"@ + padded(month as nat, 2) + "-"@ + padded(day as nat, 2)
}

/// Whether a text is that of the date some days after 1 January 1970.
pub open spec fn is_date_text(t: Seq<char>, days: int) -> bool {
    exists|year: int, month: int, day: int|
        #![trigger is_date(year, month, day)]
        is_date(year, month, day) && day_number(year, month, day) == days && t == date_text(
            year,
            month,
            day,
        )
}

/// The date some days after 1 January 1970 as text.
pub fn show_date(days: i64) -> (r: String)
    requires
        days <= i64::MAX - 719_468,
    ensures
        is_date_text(r@, days as int),
{
    let (year, month, day) = civil_from_days(days);
    let r = text::cat5(
        pad_int(year, 4).as_str(),
        "-",
        pad(month, 2).as_str(),
        "-",
        pad(day, 2).as_str(),
    );
    assert(is_date(year as int, month as int, day as int));
    r
}

/// Whole days in some seconds, towards zero.
pub open spec fn days_in(secs: int) -> int {
    if secs >= 0 {
        secs / 86_400
    } else {
        -((-secs) / 86_400)
    }
}

/// The date of a moment, given in seconds since the epoch.
pub fn date_of(secs: i64) -> (r: String)
    ensures
        is_date_text(r@, days_in(secs as int)),
{
    let days: i64 = if secs >= 0 {
        secs / 86_400
    } else {
        (-((-(secs as i128)) / 86_400)) as i64
    };
    show_date(days)
}

/// Today's date.
pub fn chrono_today() -> (r: String)
    ensures
        exists|secs: i64| #[trigger]
            clock::read_secs(secs) && is_date_text(r@, days_in(secs as int)),
{
    date_of(clock::now_secs())
}

/// A time of day as text.
pub open spec fn time_text(second: int) -> Seq<char> {
    padded((second / 3_600) as nat, 2) + ":"@ + padded(((second % 3_600) / 60) as nat, 2) + ":"@
        + padded((second % 60) as nat, 2)
}

/// Whether a text is that of a moment, in seconds since the epoch.
pub open spec fn is_timestamp(t: Seq<char>, secs: int) -> bool {
    exists|date: Seq<char>| #[trigger]
        is_date_text(date, secs / 86_400) && t == date + "T"@ + time_text(secs % 86_400) + "Z"@
}

/// A moment as text, given in seconds since the epoch.
pub fn timestamp_of(secs: i64) -> (r: String)
    ensures
        is_timestamp(r@, secs as int),
{
    let days: i64 = if secs >= 0 {
        secs / 86_400
    } else {
        -((-(secs + 1)) / 86_400) - 1
    };
    let second: i64 = (secs as i128 - days as i128 * 86_400) as i64;
    assert(days == secs as int / 86_400 && second == secs as int % 86_400);
    let date = show_date(days);
    let time = text::cat5(
        pad((second / 3_600) as u64, 2).as_str(),
        ":",
        pad(((second % 3_600) / 60) as u64, 2).as_str(),
        ":",
        pad((second % 60) as u64, 2).as_str(),
    );
    assert(is_date_text(date@, secs as int / 86_400));
    text::cat4(date.as_str(), "T", time.as_str(), "Z")
}

/// The moment of the call as text.
pub fn utc_timestamp() -> (r: String)
    ensures
        exists|secs: i64| #[trigger] clock::read_secs(secs) && is_timestamp(r@, secs as int),
{
    timestamp_of(clock::now_secs())
}

// ------------------------------------------------------------------ laws
proof fn lemma_zeros_in_front(zeros: nat, digits: Seq<char>)
    requires
        forall|i: int| 0 <= i < digits.len() ==> text::is_digit(#[trigger] digits[i]),
    ensures
        text::dec_value(Seq::new(zeros, |i: int| '0') + digits) == text::dec_value(digits),
    decreases zeros + digits.len(),
{
    let all = Seq::new(zeros, |i: int| '0') + digits;
    if digits.len() > 0 {
        let front = digits.drop_last();
        assert forall|i: int| 0 <= i < front.len() implies text::is_digit(#[trigger] front[i]) by {
            assert(text::is_digit(digits[i]));
        }
        lemma_zeros_in_front(zeros, front);
        assert(all.drop_last() =~= Seq::new(zeros, |i: int| '0') + front);
        assert(all.last() == digits.last());
    } else if zeros > 0 {
        lemma_zeros_in_front((zeros - 1) as nat, digits);
        assert(all.drop_last() =~= Seq::new((zeros - 1) as nat, |i: int| '0') + digits);
        assert(all.last() == '0');
    } else {
        assert(all =~= digits);
    }
}

proof fn lemma_few_digits(n: nat)
    ensures
        n < 100 ==> text::dec(n).len() <= 2,
        n < 10_000 ==> text::dec(n).len() <= 4,
{
    reveal_with_fuel(text::dec, 5);
}

/// A padded number has its width, or more where it needs more, and reads back as
/// the number.
pub proof fn law_padding_keeps_the_number(n: nat, width: nat)
    ensures
        padded(n, width).len() >= width,
        text::dec_value(padded(n, width)) == n,
        n < 100 ==> padded(n, 2).len() == 2,
        n < 10_000 ==> padded(n, 4).len() == 4,
        forall|i: int| 0 <= i < padded(n, width).len() ==> text::is_digit(#[trigger] padded(n, width)[i]),
{
    text::law_numerals_read_back(n, 0);
    lemma_few_digits(n);
    let digits = text::dec(n);
    if digits.len() < width {
        lemma_zeros_in_front((width - digits.len()) as nat, digits);
    }
    assert forall|i: int| 0 <= i < padded(n, width).len() implies text::is_digit(
        #[trigger] padded(n, width)[i],
    ) by {
        if digits.len() < width && i >= width - digits.len() {
            assert(padded(n, width)[i] == digits[i - (width - digits.len())]);
        } else if digits.len() >= width {
            assert(padded(n, width)[i] == digits[i]);
        }
    }
}

/// A date of a four-digit year is written as ten characters: the year, the month and
/// the day, in this order, with hyphens between them.
pub proof fn law_dates_are_written_year_first(year: int, month: int, day: int)
    requires
        0 <= year < 10_000,
        is_date(year, month, day),
    ensures
        ({
            let t = date_text(year, month, day);
            &&& t.len() == 10
            &&& t[4] == '-' && t[7] == '-'
            &&& text::dec_value(t.subrange(0, 4)) == year
            &&& text::dec_value(t.subrange(5, 7)) == month
            &&& text::dec_value(t.subrange(8, 10)) == day
        }),
{
    reveal_strlit("-");
    law_padding_keeps_the_number(year as nat, 4);
    law_padding_keeps_the_number(month as nat, 2);
    law_padding_keeps_the_number(day as nat, 2);
    let t = date_text(year, month, day);
    assert("-"@.len() == 1 && "-"@[0] == '-');
    assert(t.subrange(0, 4) =~= padded(year as nat, 4));
    assert(t.subrange(5, 7) =~= padded(month as nat, 2));
    assert(t.subrange(8, 10) =~= padded(day as nat, 2));
}

/// A time of day is written as eight characters: hours, minutes and seconds, in this
/// order, with colons between them.
pub proof fn law_times_are_written_hours_first(hour: int, minute: int, second: int)
    requires
        0 <= hour < 24,
        0 <= minute < 60,
        0 <= second < 60,
    ensures
        ({
            let t = time_text(hour * 3_600 + minute * 60 + second);
            &&& t.len() == 8
            &&& t[2] == ':' && t[5] == ':'
            &&& text::dec_value(t.subrange(0, 2)) == hour
            &&& text::dec_value(t.subrange(3, 5)) == minute
            &&& text::dec_value(t.subrange(6, 8)) == second
        }),
{
    reveal_strlit(":");
    law_padding_keeps_the_number(hour as nat, 2);
    law_padding_keeps_the_number(minute as nat, 2);
    law_padding_keeps_the_number(second as nat, 2);
    let all = hour * 3_600 + minute * 60 + second;
    assert(all / 3_600 == hour && (all % 3_600) / 60 == minute && all % 60 == second);
    let t = time_text(all);
    assert(":"@.len() == 1 && ":"@[0] == ':');
    assert(t.subrange(0, 2) =~= padded(hour as nat, 2));
    assert(t.subrange(3, 5) =~= padded(minute as nat, 2));
    assert(t.subrange(6, 8) =~= padded(second as nat, 2));
}

/// Days are counted from 1 January 1970, and each date is one day after the one
/// before it, also where a month or a year ends.
pub proof fn law_days_follow_on(year: int, month: int, day: int)
    requires
        is_date(year, month, day),
    ensures
        day_number(1970, 1, 1) == 0,
        day < month_length(year, month) ==> day_number(year, month, day + 1) == day_number(
            year,
            month,
            day,
        ) + 1,
        day == month_length(year, month) && month < 12 ==> day_number(year, month + 1, 1)
            == day_number(year, month, day) + 1,
        day == month_length(year, month) && month == 12 ==> day_number(year + 1, 1, 1)
            == day_number(year, month, day) + 1,
        month_length(year, 2) == (if year % 4 == 0 && (year % 100 != 0 || year % 400 == 0) {
            29int
        } else {
            28
        }),
        month_length(year, 4) == 30 && month_length(year, 6) == 30 && month_length(year, 9) == 30
            && month_length(year, 11) == 30,
        month_length(year, 1) == 31 && month_length(year, 3) == 31 && month_length(year, 5) == 31
            && month_length(year, 7) == 31 && month_length(year, 8) == 31 && month_length(year, 10)
            == 31 && month_length(year, 12) == 31,
{
    law_years_follow_on(year);
}

/// A moment after the epoch falls on the day that its whole days come to.
pub proof fn law_days_of_a_moment(secs: int)
    requires
        secs >= 0,
    ensures
        days_in(secs) * 86_400 <= secs < (days_in(secs) + 1) * 86_400,
{
}
/// A moment is written as its day, and, behind a `T`, as the time since that day
/// began, with a `Z` at the end.
pub proof fn law_moments_are_days_and_times(t: Seq<char>, secs: int)
    requires
        is_timestamp(t, secs),
    ensures
        exists|date: Seq<char>, day: int| #[trigger]
            is_date_text(date, day) && day * 86_400 <= secs < (day + 1) * 86_400 && t == date
                + "T"@ + time_text(secs - day * 86_400) + "Z"@,
{
    let date = choose|date: Seq<char>| #[trigger]
        is_date_text(date, secs / 86_400) && t == date + "T"@ + time_text(secs % 86_400) + "Z"@;
    assert(is_date_text(date, secs / 86_400));
    assert(secs % 86_400 == secs - (secs / 86_400) * 86_400);
}

} // verus!
