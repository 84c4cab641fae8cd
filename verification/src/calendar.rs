//! The Gregorian calendar: from seconds since 1970 to a date, and its text.
use vstd::prelude::*;
use crate::number::{digits_value, lemma_padded_reads_back, padded, padded_text};
use crate::text::{digit, text_lt};

verus! {

/// A day of the Gregorian calendar.
pub ghost struct Date {
    pub year: int,
    pub month: int,
    pub day: int,
}

/// Whether the year has a 29th of February.
pub open spec fn is_leap(year: int) -> bool {
    year % 4 == 0 && (year % 100 != 0 || year % 400 == 0)
}

/// The days in a month.
pub open spec fn month_length(year: int, month: int) -> int {
    if month == 2 {
        if is_leap(year) {
            29
        } else {
            28
        }
    } else if month == 4 || month == 6 || month == 9 || month == 11 {
        30
    } else {
        31
    }
}

/// Whether the year has such a month and the month such a day.
pub open spec fn valid_date(d: Date) -> bool {
    1 <= d.month <= 12 && 1 <= d.day <= month_length(d.year, d.month)
}

/// The days from the first of January 1970 to the first of January of the year.
pub open spec fn days_before_year(year: int) -> int {
    365 * (year - 1970) + (year - 1) / 4 - (year - 1) / 100 + (year - 1) / 400 - 477
}

/// The days of the year before the month.
pub open spec fn days_before_month(year: int, month: int) -> int
    decreases month,
{
    if month <= 1 {
        0
    } else {
        days_before_month(year, month - 1) + month_length(year, month - 1)
    }
}

/// The days from the first of January 1970 to the date.
pub open spec fn day_number(d: Date) -> int {
    days_before_year(d.year) + days_before_month(d.year, d.month) + d.day - 1
}

/// The date that lies so many days after the first of January 1970.
pub open spec fn civil_date(days: int) -> Date {
    choose|d: Date| valid_date(d) && #[trigger] day_number(d) == days
}

/// A date and a time of day, as `YYYY-MM-DDTHH:MM:SSZ`.
pub open spec fn iso_form(d: Date, time: int) -> Seq<char> {
    padded(d.year as nat, 4) + seq!['-'] + padded(d.month as nat, 2) + seq!['-'] + padded(
        d.day as nat,
        2,
    ) + seq!['T'] + padded((time / 3600) as nat, 2) + seq![':'] + padded(
        ((time % 3600) / 60) as nat,
        2,
    ) + seq![':'] + padded((time % 60) as nat, 2) + seq!['Z']
}

/// The text of a moment, given in seconds since 1970.
pub open spec fn iso_text(secs: int) -> Seq<char> {
    iso_form(civil_date(secs / 86400), secs % 86400)
}

/// Whether the date comes before the other, by year, then month, then day.
pub open spec fn date_lt(a: Date, b: Date) -> bool {
    a.year < b.year || (a.year == b.year && (a.month < b.month || (a.month == b.month && a.day
        < b.day)))
}

/// The days before each month, written out.
proof fn lemma_month_table(year: int)
    ensures
        days_before_month(year, 1) == 0,
        days_before_month(year, 2) == 31,
        days_before_month(year, 3) == 59 + if is_leap(year) { 1int } else { 0 },
        days_before_month(year, 4) == 90 + if is_leap(year) { 1int } else { 0 },
        days_before_month(year, 5) == 120 + if is_leap(year) { 1int } else { 0 },
        days_before_month(year, 6) == 151 + if is_leap(year) { 1int } else { 0 },
        days_before_month(year, 7) == 181 + if is_leap(year) { 1int } else { 0 },
        days_before_month(year, 8) == 212 + if is_leap(year) { 1int } else { 0 },
        days_before_month(year, 9) == 243 + if is_leap(year) { 1int } else { 0 },
        days_before_month(year, 10) == 273 + if is_leap(year) { 1int } else { 0 },
        days_before_month(year, 11) == 304 + if is_leap(year) { 1int } else { 0 },
        days_before_month(year, 12) == 334 + if is_leap(year) { 1int } else { 0 },
        days_before_month(year, 13) == 365 + if is_leap(year) { 1int } else { 0 },
{
    reveal_with_fuel(days_before_month, 14);
}

/// A year is as long as its months together.
proof fn lemma_year_length(year: int)
    ensures
        days_before_year(year + 1) == days_before_year(year) + 365 + if is_leap(year) {
            1int
        } else {
            0
        },
{
    assert(year / 4 == (year - 1) / 4 + if year % 4 == 0 { 1int } else { 0 });
    assert(year / 100 == (year - 1) / 100 + if year % 100 == 0 { 1int } else { 0 });
    assert(year / 400 == (year - 1) / 400 + if year % 400 == 0 { 1int } else { 0 });
}

/// Later years begin later.
proof fn lemma_years_increase(a: int, b: int)
    requires
        a <= b,
    ensures
        days_before_year(a) <= days_before_year(b),
    decreases b - a,
{
    if a < b {
        lemma_years_increase(a, b - 1);
        lemma_year_length(b - 1);
    }
}

/// Later months of a year begin later.
proof fn lemma_months_increase(year: int, a: int, b: int)
    requires
        1 <= a < b,
    ensures
        days_before_month(year, a) + month_length(year, a) <= days_before_month(year, b),
    decreases b - a,
{
    if a + 1 < b {
        lemma_months_increase(year, a, b - 1);
    }
}

/// A later date has a larger number.
pub proof fn lemma_dates_increase(a: Date, b: Date)
    requires
        valid_date(a),
        valid_date(b),
        date_lt(a, b),
    ensures
        day_number(a) < day_number(b),
{
    if a.year < b.year {
        lemma_month_table(a.year);
        lemma_year_length(a.year);
        lemma_years_increase(a.year + 1, b.year);
        if a.month < 13 {
            lemma_months_increase(a.year, a.month, 13);
        }
        if b.month > 1 {
            lemma_months_increase(b.year, 1, b.month);
        }
    } else if a.month < b.month {
        lemma_months_increase(a.year, a.month, b.month);
    }
}

/// No two dates have the same number: a valid date is the only one with its number.
pub proof fn lemma_date_unique(d: Date)
    requires
        valid_date(d),
    ensures
        civil_date(day_number(d)) == d,
{
    let e = civil_date(day_number(d));
    assert(valid_date(e) && day_number(e) == day_number(d));
    if date_lt(d, e) {
        lemma_dates_increase(d, e);
    }
    if date_lt(e, d) {
        lemma_dates_increase(e, d);
    }
}

/// The years of a century, divided by the lengths of the leap-year cycles.
proof fn lemma_century_division(k: int, y: int)
    requires
        0 <= y < 100,
    ensures
        (100 * k + y) / 4 == 25 * k + y / 4,
        (100 * k + y) / 100 == k,
        (100 * k + y) / 400 == k / 4,
{
}

/// Whether the year after one of a century is a leap year.
#[verifier::spinoff_prover]
proof fn lemma_century_leap(k: int, y: int)
    requires
        0 <= y < 100,
    ensures
        is_leap(100 * k + y + 1) <==> ((y + 1) % 4 == 0 && (y != 99 || (k + 1) % 4 == 0)),
{
    let year = 100 * k + y + 1;
    assert(year == 4 * (25 * k + (y + 1) / 4) + (y + 1) % 4);
    assert(year % 4 == (y + 1) % 4);
    if y == 99 {
        let q = (k + 1) / 4;
        let r = (k + 1) % 4;
        assert(k + 1 == 4 * q + r);
        assert(year == 400 * q + 100 * r);
        assert(year % 400 == 100 * r);
        assert(year == 100 * (k + 1));
        assert(year % 100 == 0);
    } else {
        assert(year % 100 == y + 1);
    }
}

/// The first of March of a year, counted in days.
proof fn lemma_first_of_march(year: int)
    ensures
        days_before_year(year) + days_before_month(year, 3) == 365 * (year - 1970) + year / 4
            - year / 100 + year / 400 - 418,
{
    lemma_month_table(year);
    lemma_year_length(year);
}

/// The day of a year that is counted from the first of March.
proof fn lemma_march_year(n: int, y: int)
    requires
        0 <= y < 100,
    ensures
        ({
            let year = 100 * (n - 49) + y;
            let c = n % 4;
            let q = n / 4;
            &&& days_before_year(year) + days_before_month(year, 3) == 146097 * q + 36524 * c + (c
                + 3) / 4 + 365 * y + y / 4 - 2509157
            &&& is_leap(year + 1) <==> ((y + 1) % 4 == 0 && (y != 99 || c == 0))
        }),
{
    lemma_first_of_march(100 * (n - 49) + y);
    lemma_century_division(n - 49, y);
    lemma_century_leap(n - 49, y);
    assert((n - 49) / 4 == n / 4 - 13 + (n % 4 + 3) / 4);
}

/// Splitting a day of a year that begins in March into month and day.
proof fn lemma_march_month(year: int, doy: int, m: int)
    requires
        0 <= doy <= 364 || (doy == 365 && is_leap(year + 1)),
        m == (80 * (doy + 31)) / 2447,
    ensures
        1 <= m <= 12,
        ({
            let d = Date {
                year: year + m / 11,
                month: m + 2 - 12 * (m / 11),
                day: doy + 31 - (2447 * m) / 80,
            };
            &&& valid_date(d)
            &&& day_number(d) == days_before_year(year) + days_before_month(year, 3) + doy
        }),
{
    lemma_month_table(year);
    lemma_month_table(year + 1);
    lemma_year_length(year);
    assert(1 <= m <= 12);
    if m == 1 {
        assert((2447 * m) / 80 == 30);
    } else if m == 2 {
        assert((2447 * m) / 80 == 61);
    } else if m == 3 {
        assert((2447 * m) / 80 == 91);
    } else if m == 4 {
        assert((2447 * m) / 80 == 122);
    } else if m == 5 {
        assert((2447 * m) / 80 == 152);
    } else if m == 6 {
        assert((2447 * m) / 80 == 183);
    } else if m == 7 {
        assert((2447 * m) / 80 == 214);
    } else if m == 8 {
        assert((2447 * m) / 80 == 244);
    } else if m == 9 {
        assert((2447 * m) / 80 == 275);
    } else if m == 10 {
        assert((2447 * m) / 80 == 305);
    } else if m == 11 {
        assert((2447 * m) / 80 == 336);
    } else {
        assert((2447 * m) / 80 == 367);
    }
}

/// The date of a day, worked out by whole divisions: 400-year cycles, then centuries, then
/// years that begin in March, then months.
spec fn divided_date(days: int) -> Date {
    let l0 = days + 2509157;
    let n = (4 * l0) / 146097;
    let l1 = l0 - (146097 * n + 3) / 4;
    let year_i = (4000 * (l1 + 1)) / 1461001;
    let l2 = l1 - (1461 * year_i) / 4 + 31;
    let month_i = (80 * l2) / 2447;
    Date {
        year: 100 * (n - 49) + year_i + month_i / 11,
        month: month_i + 2 - 12 * (month_i / 11),
        day: l2 - (2447 * month_i) / 80,
    }
}

/// The divisions stay in bounds and give the date with the number that was asked for.
proof fn lemma_divided_date(days: int)
    requires
        0 <= days,
    ensures
        ({
            let l0 = days + 2509157;
            let n = (4 * l0) / 146097;
            let l1 = l0 - (146097 * n + 3) / 4;
            let year_i = (4000 * (l1 + 1)) / 1461001;
            let l2 = l1 - (1461 * year_i) / 4 + 31;
            let month_i = (80 * l2) / 2447;
            &&& 68 <= n
            &&& 0 <= l1 <= 36524
            &&& 0 <= year_i < 100
            &&& 31 <= l2 <= 396
            &&& 1 <= month_i <= 12
        }),
        valid_date(divided_date(days)),
        day_number(divided_date(days)) == days,
        civil_date(days) == divided_date(days),
{
    let l0 = days + 2509157;
    let n = (4 * l0) / 146097;
    let c = n % 4;
    let q = n / 4;
    assert(n == 4 * q + c);
    assert((146097 * n + 3) / 4 == 146097 * q + 36524 * c + (c + 3) / 4);
    let l1 = l0 - (146097 * n + 3) / 4;
    assert(0 <= l1 <= 36524);
    assert(c != 0 ==> l1 <= 36523);
    let year_i = (4000 * (l1 + 1)) / 1461001;
    assert(0 <= year_i < 100);
    assert((1461 * year_i) / 4 == 365 * year_i + year_i / 4);
    let doy = l1 - (1461 * year_i) / 4;
    assert(0 <= doy <= 365);
    assert(doy == 365 ==> (year_i + 1) % 4 == 0 && (year_i != 99 || c == 0));
    let month_i = (80 * (doy + 31)) / 2447;
    lemma_march_year(n, year_i);
    lemma_march_month(100 * (n - 49) + year_i, doy, month_i);
    lemma_date_unique(divided_date(days));
}

/// Every day from the first of January 1970 on has a date.
pub proof fn lemma_date_exists(days: int)
    requires
        0 <= days,
    ensures
        valid_date(civil_date(days)),
        day_number(civil_date(days)) == days,
{
    lemma_divided_date(days);
}

/// The text of a moment, given in seconds since 1970.
pub fn iso_from_unix(secs: u64) -> (r: String)
    ensures
        r@ == iso_text(secs as int),
{
    let days: u64 = secs / 86400;
    let time_of_day: u64 = secs % 86400;
    let hour: u64 = time_of_day / 3600;
    let minute: u64 = (time_of_day % 3600) / 60;
    let second: u64 = time_of_day % 60;
    proof {
        lemma_divided_date(days as int);
    }
    let l0: u64 = days + 2_440_588 + 68_569;
    let n: u64 = (4 * l0) / 146_097;
    let l1: u64 = l0 - (146_097 * n + 3) / 4;
    let year_i: u64 = (4_000 * (l1 + 1)) / 1_461_001;
    let l2: u64 = l1 - (1_461 * year_i) / 4 + 31;
    let month_i: u64 = (80 * l2) / 2_447;
    let day: u64 = l2 - (2_447 * month_i) / 80;
    let l3: u64 = month_i / 11;
    let month: u64 = month_i + 2 - 12 * l3;
    let year: u64 = 100 * (n - 49) + year_i + l3;
    let ghost date = civil_date(days as int);
    assert(date == Date { year: year as int, month: month as int, day: day as int });
    let mut r = padded_text(year, 4);
    r.push('-');
    r.append(padded_text(month, 2).as_str());
    r.push('-');
    r.append(padded_text(day, 2).as_str());
    r.push('T');
    r.append(padded_text(hour, 2).as_str());
    r.push(':');
    r.append(padded_text(minute, 2).as_str());
    r.push(':');
    r.append(padded_text(second, 2).as_str());
    r.push('Z');
    assert(r@ =~= iso_form(date, time_of_day as int));
    r
}

/// Ten to the power of the width: the numbers below it have at most that many digits.
spec fn ten_to(width: nat) -> nat
    decreases width,
{
    if width == 0 {
        1
    } else {
        10 * ten_to((width - 1) as nat)
    }
}

/// Texts of one length are compared before what follows them.
proof fn lemma_lt_extend(a: Seq<char>, b: Seq<char>, x: Seq<char>, y: Seq<char>)
    requires
        a.len() == b.len(),
        text_lt(a, b),
    ensures
        text_lt(a + x, b + y),
    decreases a.len(),
{
    if a[0] == b[0] {
        lemma_lt_extend(a.skip(1), b.skip(1), x, y);
        assert((a + x).skip(1) =~= a.skip(1) + x);
        assert((b + y).skip(1) =~= b.skip(1) + y);
    }
}

/// What two texts begin with alike does not count.
proof fn lemma_lt_prefix(p: Seq<char>, x: Seq<char>, y: Seq<char>)
    requires
        text_lt(x, y),
    ensures
        text_lt(p + x, p + y),
    decreases p.len(),
{
    if p.len() == 0 {
        assert(p + x =~= x);
        assert(p + y =~= y);
    } else {
        lemma_lt_prefix(p.skip(1), x, y);
        assert((p + x).skip(1) =~= p.skip(1) + x);
        assert((p + y).skip(1) =~= p.skip(1) + y);
    }
}

/// Digits of a fixed width order as the numbers do.
proof fn lemma_padded_order(n: nat, m: nat, width: nat)
    requires
        1 <= width,
        n < m < ten_to(width),
    ensures
        text_lt(padded(n, width), padded(m, width)),
    decreases width,
{
    lemma_padded_len(n, width);
    lemma_padded_len(m, width);
    if width == 1 {
        reveal_with_fuel(ten_to, 2);
        reveal_with_fuel(text_lt, 2);
    } else {
        let w = (width - 1) as nat;
        let dn = seq![digit((n % 10) as int)];
        let dm = seq![digit((m % 10) as int)];
        assert(padded(n, width) =~= padded(n / 10, w) + dn);
        assert(padded(m, width) =~= padded(m / 10, w) + dm);
        lemma_padded_len(n / 10, w);
        lemma_padded_len(m / 10, w);
        if n / 10 < m / 10 {
            lemma_padded_order(n / 10, m / 10, w);
            lemma_lt_extend(padded(n / 10, w), padded(m / 10, w), dn, dm);
        } else {
            reveal_with_fuel(text_lt, 2);
            assert(text_lt(dn, dm));
            lemma_lt_prefix(padded(n / 10, w), dn, dm);
        }
    }
}

/// A number below the bound has exactly the width asked for.
proof fn lemma_padded_len(n: nat, width: nat)
    requires
        1 <= width,
        n < ten_to(width),
    ensures
        padded(n, width).len() == width,
    decreases width,
{
    if width == 1 {
        reveal_with_fuel(ten_to, 2);
    } else {
        lemma_padded_len(n / 10, (width - 1) as nat);
    }
}

/// Two texts that agree up to a number of fixed width, and differ there, order as the
/// numbers do.
proof fn lemma_field_order(p: Seq<char>, n: nat, m: nat, width: nat, x: Seq<char>, y: Seq<char>)
    requires
        1 <= width,
        n < m < ten_to(width),
    ensures
        text_lt(p + padded(n, width) + x, p + padded(m, width) + y),
{
    lemma_padded_order(n, m, width);
    lemma_padded_len(n, width);
    lemma_padded_len(m, width);
    lemma_lt_extend(padded(n, width), padded(m, width), x, y);
    lemma_lt_prefix(p, padded(n, width) + x, padded(m, width) + y);
    assert(p + padded(n, width) + x =~= p + (padded(n, width) + x));
    assert(p + padded(m, width) + y =~= p + (padded(m, width) + y));
}

/// A later date has a later text, whatever the times of day.
proof fn lemma_dates_order(da: Date, ta: int, db: Date, tb: int)
    requires
        valid_date(da),
        valid_date(db),
        date_lt(da, db),
        0 <= da.year,
        db.year <= 9999,
    ensures
        text_lt(iso_form(da, ta), iso_form(db, tb)),
{
    reveal_with_fuel(ten_to, 5);
    let ya = padded(da.year as nat, 4);
    let ma = padded(da.month as nat, 2);
    let ea = padded(da.day as nat, 2);
    let yb = padded(db.year as nat, 4);
    let mb = padded(db.month as nat, 2);
    let eb = padded(db.day as nat, 2);
    let dash = seq!['-'];
    let ra = time_form(ta);
    let rb = time_form(tb);
    lemma_form_split(da, ta);
    lemma_form_split(db, tb);
    if da.year < db.year {
        lemma_field_order(
            Seq::empty(),
            da.year as nat,
            db.year as nat,
            4,
            dash + ma + dash + ea + ra,
            dash + mb + dash + eb + rb,
        );
        assert(iso_form(da, ta) =~= Seq::<char>::empty() + ya + (dash + ma + dash + ea + ra));
        assert(iso_form(db, tb) =~= Seq::<char>::empty() + yb + (dash + mb + dash + eb + rb));
    } else if da.month < db.month {
        lemma_field_order(
            ya + dash,
            da.month as nat,
            db.month as nat,
            2,
            dash + ea + ra,
            dash + eb + rb,
        );
        assert(iso_form(da, ta) =~= ya + dash + ma + (dash + ea + ra));
        assert(iso_form(db, tb) =~= ya + dash + mb + (dash + eb + rb));
    } else {
        lemma_field_order(ya + dash + ma + dash, da.day as nat, db.day as nat, 2, ra, rb);
    }
}

/// What follows the date in the text of a moment.
spec fn time_form(time: int) -> Seq<char> {
    seq!['T'] + padded((time / 3600) as nat, 2) + seq![':'] + padded(
        ((time % 3600) / 60) as nat,
        2,
    ) + seq![':'] + padded((time % 60) as nat, 2) + seq!['Z']
}

/// The text of a moment is that of its date, then that of its time of day.
proof fn lemma_form_split(d: Date, time: int)
    ensures
        iso_form(d, time) == padded(d.year as nat, 4) + seq!['-'] + padded(d.month as nat, 2)
            + seq!['-'] + padded(d.day as nat, 2) + time_form(time),
{
    assert(iso_form(d, time) =~= padded(d.year as nat, 4) + seq!['-'] + padded(d.month as nat, 2)
        + seq!['-'] + padded(d.day as nat, 2) + time_form(time));
}

/// A later time of day has a later text.
proof fn lemma_times_order(ta: int, tb: int)
    requires
        0 <= ta < tb < 86400,
    ensures
        text_lt(time_form(ta), time_form(tb)),
{
    reveal_with_fuel(ten_to, 5);
    let ha = padded((ta / 3600) as nat, 2);
    let na = padded(((ta % 3600) / 60) as nat, 2);
    let sa = padded((ta % 60) as nat, 2);
    let hb = padded((tb / 3600) as nat, 2);
    let nb = padded(((tb % 3600) / 60) as nat, 2);
    let sb = padded((tb % 60) as nat, 2);
    let colon = seq![':'];
    let z = seq!['Z'];
    let t = seq!['T'];
    assert(ta == 3600 * (ta / 3600) + ta % 3600);
    assert(tb == 3600 * (tb / 3600) + tb % 3600);
    assert(ta % 60 == (ta % 3600) % 60);
    assert(tb % 60 == (tb % 3600) % 60);
    if ta / 3600 < tb / 3600 {
        lemma_field_order(
            t,
            (ta / 3600) as nat,
            (tb / 3600) as nat,
            2,
            colon + na + colon + sa + z,
            colon + nb + colon + sb + z,
        );
        assert(time_form(ta) =~= t + ha + (colon + na + colon + sa + z));
        assert(time_form(tb) =~= t + hb + (colon + nb + colon + sb + z));
    } else if (ta % 3600) / 60 < (tb % 3600) / 60 {
        lemma_field_order(
            t + ha + colon,
            ((ta % 3600) / 60) as nat,
            ((tb % 3600) / 60) as nat,
            2,
            colon + sa + z,
            colon + sb + z,
        );
        assert(time_form(ta) =~= t + ha + colon + na + (colon + sa + z));
        assert(time_form(tb) =~= t + ha + colon + nb + (colon + sb + z));
    } else {
        lemma_field_order(
            t + ha + colon + na + colon,
            (ta % 60) as nat,
            (tb % 60) as nat,
            2,
            z,
            z,
        );
    }
}

/// Up to the year 9999 the texts of two moments order as the moments do, so that comparing
/// the texts compares the times.
pub proof fn iso_texts_order_as_time(a: int, b: int)
    requires
        0 <= a < b,
        civil_date(b / 86400).year <= 9999,
    ensures
        text_lt(iso_text(a), iso_text(b)),
{
    let da = civil_date(a / 86400);
    let db = civil_date(b / 86400);
    lemma_date_exists(a / 86400);
    lemma_date_exists(b / 86400);
    let epoch = Date { year: 1970, month: 1, day: 1 };
    lemma_month_table(1970);
    assert(day_number(epoch) == 0);
    if da.year < 0 {
        lemma_dates_increase(da, epoch);
    }
    if date_lt(db, da) {
        lemma_dates_increase(db, da);
    } else if date_lt(da, db) {
        lemma_dates_order(da, a % 86400, db, b % 86400);
    } else {
        assert(da == db);
        lemma_times_order(a % 86400, b % 86400);
        lemma_form_split(da, a % 86400);
        lemma_form_split(db, b % 86400);
        let p = padded(da.year as nat, 4) + seq!['-'] + padded(da.month as nat, 2) + seq!['-']
            + padded(da.day as nat, 2);
        lemma_lt_prefix(p, time_form(a % 86400), time_form(b % 86400));
    }
}

/// The months have the lengths that the calendar gives them; February has one day more in every
/// fourth year, but not in a full century unless it is one of four.
pub proof fn months_have_their_lengths(year: int)
    ensures
        month_length(year, 1) == 31 && month_length(year, 3) == 31 && month_length(year, 5) == 31
            && month_length(year, 7) == 31 && month_length(year, 8) == 31 && month_length(year, 10)
            == 31 && month_length(year, 12) == 31,
        month_length(year, 4) == 30 && month_length(year, 6) == 30 && month_length(year, 9) == 30
            && month_length(year, 11) == 30,
        month_length(year, 2) == 28 || month_length(year, 2) == 29,
        year % 4 != 0 ==> month_length(year, 2) == 28,
        year % 4 == 0 && year % 100 != 0 ==> month_length(year, 2) == 29,
        year % 100 == 0 && year % 400 != 0 ==> month_length(year, 2) == 28,
        year % 400 == 0 ==> month_length(year, 2) == 29,
{
}

/// Days are counted one by one from the first of January 1970: within a month, from the last day
/// of a month to the first of the next, and from the last of a year to the first of the next.
pub proof fn days_are_counted_one_by_one(d: Date)
    requires
        valid_date(d),
    ensures
        day_number(Date { year: 1970, month: 1, day: 1 }) == 0,
        d.day < month_length(d.year, d.month) ==> day_number(Date { day: d.day + 1, ..d })
            == day_number(d) + 1,
        d.day == month_length(d.year, d.month) && d.month < 12 ==> day_number(
            Date { year: d.year, month: d.month + 1, day: 1 },
        ) == day_number(d) + 1,
        d.month == 12 && d.day == 31 ==> day_number(Date { year: d.year + 1, month: 1, day: 1 })
            == day_number(d) + 1,
{
    lemma_month_table(d.year);
    lemma_month_table(d.year + 1);
    lemma_year_length(d.year);
}

/// The text of a moment says its date and its time of day: the year, the month, the day, the
/// hours, the minutes and the seconds, each at its place.
pub proof fn a_text_says_its_date_and_time(
    d: Date,
    hour: int,
    minute: int,
    second: int,
    secs: u64,
    r: String,
)
    requires
        valid_date(d),
        1970 <= d.year <= 9999,
        0 <= hour < 24,
        0 <= minute < 60,
        0 <= second < 60,
        secs == day_number(d) * 86400 + hour * 3600 + minute * 60 + second,
        call_ensures(iso_from_unix, (secs,), r),
    ensures
        r@.len() == 20,
        digits_value(r@.subrange(0, 4)) == d.year,
        r@[4] == '-',
        digits_value(r@.subrange(5, 7)) == d.month,
        r@[7] == '-',
        digits_value(r@.subrange(8, 10)) == d.day,
        r@[10] == 'T',
        digits_value(r@.subrange(11, 13)) == hour,
        r@[13] == ':',
        digits_value(r@.subrange(14, 16)) == minute,
        r@[16] == ':',
        digits_value(r@.subrange(17, 19)) == second,
        r@[19] == 'Z',
{
    let time = hour * 3600 + minute * 60 + second;
    let n = day_number(d);
    assert(0 <= time < 86400);
    assert(secs as int / 86400 == n);
    assert(secs as int % 86400 == time);
    lemma_date_unique(d);
    assert(time / 3600 == hour);
    assert(time % 3600 == minute * 60 + second);
    assert((time % 3600) / 60 == minute);
    assert(time % 60 == second);
    reveal_with_fuel(ten_to, 5);
    let y = padded(d.year as nat, 4);
    let mo = padded(d.month as nat, 2);
    let da = padded(d.day as nat, 2);
    let h = padded(hour as nat, 2);
    let mi = padded(minute as nat, 2);
    let s = padded(second as nat, 2);
    lemma_padded_len(d.year as nat, 4);
    lemma_padded_len(d.month as nat, 2);
    lemma_padded_len(d.day as nat, 2);
    lemma_padded_len(hour as nat, 2);
    lemma_padded_len(minute as nat, 2);
    lemma_padded_len(second as nat, 2);
    lemma_padded_reads_back(d.year as nat, 4);
    lemma_padded_reads_back(d.month as nat, 2);
    lemma_padded_reads_back(d.day as nat, 2);
    lemma_padded_reads_back(hour as nat, 2);
    lemma_padded_reads_back(minute as nat, 2);
    lemma_padded_reads_back(second as nat, 2);
    assert(r@ == iso_form(d, time));
    assert(r@.subrange(0, 4) =~= y);
    assert(r@.subrange(5, 7) =~= mo);
    assert(r@.subrange(8, 10) =~= da);
    assert(r@.subrange(11, 13) =~= h);
    assert(r@.subrange(14, 16) =~= mi);
    assert(r@.subrange(17, 19) =~= s);
}

} // verus!
