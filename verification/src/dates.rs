use chrono::{Datelike, Timelike};
use vstd::prelude::*;
use crate::text::{decimal, digit_char, push_str, remove_char, string_of};

verus! {

/// A calendar date and time of day without a time zone, as the ledger stores it.
#[derive(Clone, Copy, Debug, PartialEq, Eq, Structural)]
pub struct DateTime {
    pub year: i32,
    pub month: u32,
    pub day: u32,
    pub hour: u32,
    pub minute: u32,
    pub second: u32,
    pub nanosecond: u32,
}

/// Whether a year of the proleptic Gregorian calendar is a leap year.
pub open spec fn is_leap_year(y: int) -> bool {
    (y % 4 == 0 && y % 100 != 0) || y % 400 == 0
}

/// The number of days in a month.
pub open spec fn days_in_month(y: int, m: int) -> int {
    if m == 2 {
        if is_leap_year(y) { 29 } else { 28 }
    } else if m == 4 || m == 6 || m == 9 || m == 11 {
        30
    } else {
        31
    }
}

/// A date and time that exists: a month of the year, a day of that month, a time
/// of day, within the years that `chrono` represents; a nanosecond count of a
/// second or more marks a leap second, which only the 59th second can carry.
pub open spec fn valid_datetime(d: DateTime) -> bool {
    &&& -262143 <= d.year <= 262142
    &&& 1 <= d.month <= 12
    &&& 1 <= d.day <= days_in_month(d.year as int, d.month as int)
    &&& d.hour < 24
    &&& d.minute < 60
    &&& d.second < 60
    &&& d.nanosecond < 2_000_000_000
    &&& (d.nanosecond >= 1_000_000_000 ==> d.second == 59)
}

/// Midnight of the first of January of the year 0, which stands for "no date".
pub open spec fn zero_datetime() -> DateTime {
    DateTime { year: 0, month: 1, day: 1, hour: 0, minute: 0, second: 0, nanosecond: 0 }
}

/// The digits of `n` zero-padded (or cut) to `width` places.
pub open spec fn padded(n: int, width: nat) -> Seq<char>
    decreases width,
{
    if width == 0 {
        Seq::empty()
    } else {
        padded(n / 10, (width - 1) as nat).push(digit_char(n % 10))
    }
}

/// Ten to the power `w`.
pub open spec fn pow10(w: nat) -> int
    decreases w,
{
    if w == 0 { 1 } else { 10 * pow10((w - 1) as nat) }
}

/// The value of a sequence of decimal digits.
pub open spec fn digits_value(s: Seq<char>) -> int
    decreases s.len(),
{
    if s.len() == 0 {
        0
    } else {
        digits_value(s.drop_last()) * 10 + (s.last() as int - '0' as int)
    }
}

/// Whether every character is an ASCII decimal digit.
pub open spec fn all_digits(s: Seq<char>) -> bool {
    forall|i: int| 0 <= i < s.len() ==> '0' <= #[trigger] s[i] <= '9'
}

/// The text `%Y%m%d%H%M%S` in which the ledger keeps dates.
pub open spec fn ledger_format() -> Seq<char> {
    seq!['%', 'Y', '%', 'm', '%', 'd', '%', 'H', '%', 'M', '%', 'S']
}

/// A date in the ledger's form: year, month, day, hour, minute and second as
/// 4, 2, 2, 2, 2 and 2 zero-padded digits.
pub open spec fn ledger_text(d: DateTime) -> Seq<char> {
    padded(d.year as int, 4) + padded(d.month as int, 2) + padded(d.day as int, 2) + padded(
        d.hour as int,
        2,
    ) + padded(d.minute as int, 2) + padded(d.second as int, 2)
}

/// The date that 14 digits in the ledger's form spell, to the second.
pub open spec fn ledger_fields(s: Seq<char>) -> DateTime {
    DateTime {
        year: digits_value(s.subrange(0, 4)) as i32,
        month: digits_value(s.subrange(4, 6)) as u32,
        day: digits_value(s.subrange(6, 8)) as u32,
        hour: digits_value(s.subrange(8, 10)) as u32,
        minute: digits_value(s.subrange(10, 12)) as u32,
        second: digits_value(s.subrange(12, 14)) as u32,
        nanosecond: 0,
    }
}

/// 14 ASCII digits read under the ledger's format.
pub open spec fn is_ledger_digits(s: Seq<char>, fmt: Seq<char>) -> bool {
    fmt == ledger_format() && s.len() == 14 && all_digits(s)
}

/// Whether the month, day, hour and minute of a date are in range.
pub open spec fn date_and_minute_exist(d: DateTime) -> bool {
    &&& 1 <= d.month <= 12
    &&& 1 <= d.day <= days_in_month(d.year as int, d.month as int)
    &&& d.hour < 24
    &&& d.minute < 60
}

/// The text that `chrono` writes for a date under a format string.
pub uninterp spec fn chrono_format_text(d: DateTime, fmt: Seq<char>) -> Seq<char>;

/// The date that `chrono` reads from a text under a format string, if any.
pub uninterp spec fn chrono_parse_result(s: Seq<char>, fmt: Seq<char>) -> Option<DateTime>;

/// A date as `%m/%d/%Y`: month, day and year zero-padded to 2, 2 and 4 digits.
pub open spec fn display_text(d: DateTime) -> Seq<char> {
    padded(d.month as int, 2) + seq!['/'] + padded(d.day as int, 2) + seq!['/'] + padded(d.year as int, 4)
}

/// A date as `%Y-%m-%d`: year, month and day zero-padded to 4, 2 and 2 digits.
pub open spec fn iso_text(d: DateTime) -> Seq<char> {
    padded(d.year as int, 4) + seq!['-'] + padded(d.month as int, 2) + seq!['-'] + padded(d.day as int, 2)
}

/// A date as `%Y-%m-%d 00:00:00`.
pub open spec fn period_start_text(d: DateTime) -> Seq<char> {
    iso_text(d) + seq![' ', '0', '0', ':', '0', '0', ':', '0', '0']
}

/// A date as `%Y-%m-%d 23:59:59`.
pub open spec fn period_end_text(d: DateTime) -> Seq<char> {
    iso_text(d) + seq![' ', '2', '3', ':', '5', '9', ':', '5', '9']
}

/// The formats dates are written with here. Each holds only specifiers that
/// `chrono` documents, so writing with it cannot fail (`to_string` panics on a
/// format that chrono cannot write).
pub open spec fn written_format(fmt: Seq<char>) -> bool {
    ||| fmt == ledger_format()
    ||| fmt == display_format()
    ||| fmt == iso_date_format()
    ||| fmt == period_start_format()
    ||| fmt == period_end_format()
}

/// Writes a date with `chrono`'s `NaiveDateTime::format`. The text is named; for a
/// year of 0 to 9999 chrono's documented specifiers (`%Y` the year zero-padded to
/// four digits, `%m %d %H %M %S` two zero-padded digits each, other characters
/// copied) give `ledger_text` for `%Y%m%d%H%M%S` (outside a leap second),
/// `display_text` for `%m/%d/%Y`, `iso_text` for `%Y-%m-%d`, and `iso_text` followed
/// by the literal time for the two period formats.
#[verifier::external_body]
fn chrono_format(d: &DateTime, fmt: &str) -> (r: String)
    requires
        valid_datetime(*d),
        written_format(fmt@),
    ensures
        r@ == chrono_format_text(*d, fmt@),
        fmt@ == ledger_format() && 0 <= d.year <= 9999 && d.nanosecond < 1_000_000_000
            ==> r@ == ledger_text(*d),
        fmt@ == display_format() && 0 <= d.year <= 9999 ==> r@ == display_text(*d),
        fmt@ == iso_date_format() && 0 <= d.year <= 9999 ==> r@ == iso_text(*d),
        fmt@ == period_start_format() && 0 <= d.year <= 9999 ==> r@ == period_start_text(*d),
        fmt@ == period_end_format() && 0 <= d.year <= 9999 ==> r@ == period_end_text(*d),
{
    chrono::NaiveDate::from_ymd_opt(d.year, d.month, d.day)
        .unwrap()
        .and_hms_nano_opt(d.hour, d.minute, d.second, d.nanosecond)
        .unwrap()
        .format(fmt)
        .to_string()
}

/// Reads a date with `chrono`'s `NaiveDateTime::parse_from_str`. The result is
/// named; a date it gives exists. Under the ledger's format, 14 ASCII digits are
/// read as the fields 4-2-2-2-2-2: when they spell an existing date and a second
/// below 60 the result is that date, and a month, day, hour or minute out of range
/// gives nothing.
#[verifier::external_body]
fn chrono_parse(s: &str, fmt: &str) -> (r: Option<DateTime>)
    ensures
        r == chrono_parse_result(s@, fmt@),
        r matches Some(d) ==> valid_datetime(d),
        is_ledger_digits(s@, fmt@) && ledger_fields(s@).second < 60 && valid_datetime(
            ledger_fields(s@),
        ) ==> r == Some(ledger_fields(s@)),
        is_ledger_digits(s@, fmt@) && !date_and_minute_exist(ledger_fields(s@)) ==> r is None,
{
    match chrono::NaiveDateTime::parse_from_str(s, fmt) {
        Ok(v) => Some(DateTime {
            year: v.year(),
            month: v.month(),
            day: v.day(),
            hour: v.hour(),
            minute: v.minute(),
            second: v.second(),
            nanosecond: v.nanosecond(),
        }),
        Err(_) => None,
    }
}


/// The ledger's date format, `%Y%m%d%H%M%S`.
fn ledger_format_str() -> (r: &'static str)
    ensures
        r@ == ledger_format(),
{
    let r = "%Y%m%d%H%M%S";
    proof {
        reveal_strlit("%Y%m%d%H%M%S");
    }
    r
}

/// Midnight of the first of January of the year 0, the value that stands for "no date".
pub fn zero_date() -> (d: DateTime)
    ensures
        d == zero_datetime(),
        valid_datetime(d),
{
    DateTime { year: 0, month: 1, day: 1, hour: 0, minute: 0, second: 0, nanosecond: 0 }
}

/// The ledger's text of a date, `%Y%m%d%H%M%S` (for example `20120801040000`).
pub fn convert_date_to_string_format(incoming_date: DateTime) -> (r: String)
    requires
        valid_datetime(incoming_date),
    ensures
        r@ == chrono_format_text(incoming_date, ledger_format()),
        0 <= incoming_date.year <= 9999 && incoming_date.nanosecond < 1_000_000_000 ==> r@
            == ledger_text(incoming_date),
{
    chrono_format(&incoming_date, ledger_format_str())
}

/// Reads a date in the ledger's form into `incoming_date`; when the text is not
/// one, `incoming_date` becomes the "no date" value. Says whether the text was read.
pub fn convert_string_to_date_format(incoming_date: &mut DateTime, incoming_string: &str) -> (ok: bool)
    ensures
        ok == (chrono_parse_result(incoming_string@, ledger_format()) is Some),
        ok ==> Some(*final(incoming_date)) == chrono_parse_result(incoming_string@, ledger_format()),
        !ok ==> *final(incoming_date) == zero_datetime(),
        valid_datetime(*final(incoming_date)),
        is_ledger_digits(incoming_string@, ledger_format()) && ledger_fields(incoming_string@).second < 60
            && valid_datetime(ledger_fields(incoming_string@)) ==> ok && *final(incoming_date) == ledger_fields(
            incoming_string@,
        ),
{
    match chrono_parse(incoming_string, ledger_format_str()) {
        Some(good_value) => {
            *incoming_date = good_value;
            true
        },
        None => {
            *incoming_date = zero_date();
            false
        },
    }
}

/// The alert the transaction editor shows when its text is not a date in the
/// ledger's form.
pub open spec fn date_error_message(s: Seq<char>) -> Seq<char> {
    "Failed to convert the given string '"@ + s + "' to a date."@
}

/// Reads a date in the ledger's form. The text must be one (reading stops with a
/// panic on any other text); `convert_string_to_date_format` tests a text first.
pub fn convert_string_to_date(incoming_string: &str) -> (r: Result<DateTime, String>)
    requires
        chrono_parse_result(incoming_string@, ledger_format()) is Some,
    ensures
        Some(r->Ok_0) == chrono_parse_result(incoming_string@, ledger_format()),
        r is Ok,
        valid_datetime(r->Ok_0),
        is_ledger_digits(incoming_string@, ledger_format()) && ledger_fields(incoming_string@).second
            < 60 && valid_datetime(ledger_fields(incoming_string@)) ==> r == Ok::<DateTime, String>(
            ledger_fields(incoming_string@),
        ),
{
    match chrono_parse(incoming_string, ledger_format_str()) {
        Some(d) => Ok(d),
        None => Ok(zero_date()),
    }
}

proof fn lemma_padded_digits(n: int, w: nat)
    requires
        0 <= n < pow10(w),
    ensures
        padded(n, w).len() == w,
        all_digits(padded(n, w)),
        digits_value(padded(n, w)) == n,
    decreases w,
{
    if w == 0 {
    } else {
        assert(0 <= n / 10 < pow10((w - 1) as nat)) by (nonlinear_arith)
            requires
                0 <= n < pow10(w),
                pow10(w) == 10 * pow10((w - 1) as nat),
        ;
        lemma_padded_digits(n / 10, (w - 1) as nat);
        let p = padded(n, w);
        assert(p.drop_last() =~= padded(n / 10, (w - 1) as nat));
        assert(n == (n / 10) * 10 + n % 10);
    }
}

proof fn lemma_digits_padded(t: Seq<char>)
    requires
        all_digits(t),
    ensures
        0 <= digits_value(t) < pow10(t.len()),
        padded(digits_value(t), t.len()) == t,
    decreases t.len(),
{
    if t.len() > 0 {
        let u = t.drop_last();
        assert(all_digits(u)) by {
            assert forall|i: int| 0 <= i < u.len() implies '0' <= #[trigger] u[i] <= '9' by {
                assert(u[i] == t[i]);
            }
        }
        lemma_digits_padded(u);
        let d = t.last() as int - '0' as int;
        assert('0' <= t[t.len() - 1] <= '9');
        let v = digits_value(t);
        assert(v == digits_value(u) * 10 + d);
        assert(v / 10 == digits_value(u) && v % 10 == d) by (nonlinear_arith)
            requires
                v == digits_value(u) * 10 + d,
                0 <= d < 10,
                0 <= digits_value(u),
        ;
        assert(v < pow10(t.len())) by (nonlinear_arith)
            requires
                v == digits_value(u) * 10 + d,
                0 <= d < 10,
                digits_value(u) < pow10(u.len()),
                pow10(t.len()) == 10 * pow10(u.len()),
        ;
        assert(digit_char(d) == t.last());
        assert(padded(v, t.len()) =~= padded(v / 10, u.len()).push(digit_char(v % 10)));
        assert(t =~= u.push(t.last()));
    }
}

/// A ledger text of 14 digits is written back unchanged from the fields it spells:
/// for a text that `convert_string_to_date` reads, `convert_date_to_string_format`
/// of the date gives the same text.
pub proof fn lemma_ledger_fields_write_back(s: Seq<char>)
    requires
        is_ledger_digits(s, ledger_format()),
    ensures
        ledger_text(ledger_fields(s)) == s,
        0 <= ledger_fields(s).year <= 9999,
{
    reveal_with_fuel(pow10, 5);
    let parts = seq![s.subrange(0, 4), s.subrange(4, 6), s.subrange(6, 8), s.subrange(8, 10), s.subrange(10, 12), s.subrange(12, 14)];
    assert forall|k: int| 0 <= k < 6 implies all_digits(#[trigger] parts[k]) by {
        assert forall|i: int| 0 <= i < parts[k].len() implies '0' <= #[trigger] parts[k][i] <= '9' by {
            if k == 0 { assert(parts[k][i] == s[i]); }
            else if k == 1 { assert(parts[k][i] == s[4 + i]); }
            else if k == 2 { assert(parts[k][i] == s[6 + i]); }
            else if k == 3 { assert(parts[k][i] == s[8 + i]); }
            else if k == 4 { assert(parts[k][i] == s[10 + i]); }
            else { assert(parts[k][i] == s[12 + i]); }
        }
    }
    lemma_digits_padded(parts[0]);
    lemma_digits_padded(parts[1]);
    lemma_digits_padded(parts[2]);
    lemma_digits_padded(parts[3]);
    lemma_digits_padded(parts[4]);
    lemma_digits_padded(parts[5]);
    let f = ledger_fields(s);
    assert(f.year as int == digits_value(parts[0]));
    assert(f.month as int == digits_value(parts[1]));
    assert(f.day as int == digits_value(parts[2]));
    assert(f.hour as int == digits_value(parts[3]));
    assert(f.minute as int == digits_value(parts[4]));
    assert(f.second as int == digits_value(parts[5]));
    assert(s =~= parts[0] + parts[1] + parts[2] + parts[3] + parts[4] + parts[5]);
}

/// A date written in the ledger's form reads back as the same date, for the years
/// 0 to 9999 and a whole second: its text is 14 digits, and the fields they spell
/// are the date's. So `convert_string_to_date_format` and `convert_string_to_date`
/// read what `convert_date_to_string_format` writes back as the same date: their
/// `ensures` give exactly `ledger_fields` of such a text.
pub proof fn lemma_ledger_text_reads_back(d: DateTime)
    requires
        valid_datetime(d),
        0 <= d.year <= 9999,
        d.nanosecond == 0,
    ensures
        is_ledger_digits(ledger_text(d), ledger_format()),
        ledger_fields(ledger_text(d)) == d,
        ledger_fields(ledger_text(d)).second < 60,
{
    reveal_with_fuel(pow10, 5);
    lemma_padded_digits(d.year as int, 4);
    lemma_padded_digits(d.month as int, 2);
    lemma_padded_digits(d.day as int, 2);
    lemma_padded_digits(d.hour as int, 2);
    lemma_padded_digits(d.minute as int, 2);
    lemma_padded_digits(d.second as int, 2);
    let t = ledger_text(d);
    let y = padded(d.year as int, 4);
    let mo = padded(d.month as int, 2);
    let da = padded(d.day as int, 2);
    let h = padded(d.hour as int, 2);
    let mi = padded(d.minute as int, 2);
    let se = padded(d.second as int, 2);
    assert(t.subrange(0, 4) =~= y);
    assert(t.subrange(4, 6) =~= mo);
    assert(t.subrange(6, 8) =~= da);
    assert(t.subrange(8, 10) =~= h);
    assert(t.subrange(10, 12) =~= mi);
    assert(t.subrange(12, 14) =~= se);
    assert(all_digits(t)) by {
        assert forall|i: int| 0 <= i < t.len() implies '0' <= #[trigger] t[i] <= '9' by {
            if i < 4 { assert(t[i] == y[i]); }
            else if i < 6 { assert(t[i] == mo[i - 4]); }
            else if i < 8 { assert(t[i] == da[i - 6]); }
            else if i < 10 { assert(t[i] == h[i - 8]); }
            else if i < 12 { assert(t[i] == mi[i - 10]); }
            else { assert(t[i] == se[i - 12]); }
        }
    }
}


/// The date, at midnight, that lies `days` days after the date of `d` (before it for
/// a negative count), as `chrono` counts them.
pub uninterp spec fn chrono_days_after(d: DateTime, days: int) -> DateTime;

/// Moves the date of `d` by a number of days with `chrono`'s `NaiveDate + Duration::days`,
/// giving midnight of that day. The date is named; it exists. The count goes back at
/// most thirty days, and the bound on the date keeps the result at or after chrono's
/// first date, the first of January of the year -262143 (before it the addition
/// panics).
#[verifier::external_body]
fn date_plus_days(d: &DateTime, days: i64) -> (r: DateTime)
    requires
        valid_datetime(*d),
        -30 <= days <= 0,
        !(d.year == -262143 && d.month == 1 && d.day as int <= -days),
    ensures
        r == chrono_days_after(*d, days as int),
        valid_datetime(r),
        r.hour == 0 && r.minute == 0 && r.second == 0 && r.nanosecond == 0,
{
    let v = chrono::NaiveDate::from_ymd_opt(d.year, d.month, d.day).unwrap()
        + chrono::Duration::days(days);
    DateTime {
        year: v.year(),
        month: v.month(),
        day: v.day(),
        hour: 0,
        minute: 0,
        second: 0,
        nanosecond: 0,
    }
}

/// Midnight of the day of `d`.
pub open spec fn midnight_of(d: DateTime) -> DateTime {
    DateTime { hour: 0, minute: 0, second: 0, nanosecond: 0, ..d }
}

/// The first and last day of the "last 30 days" report for `today`: midnight thirty
/// days before today, and midnight today.
pub fn last_30_days_range(today: DateTime) -> (r: (DateTime, DateTime))
    requires
        valid_datetime(today),
        !(today.year == -262143 && today.month == 1 && today.day <= 30),
    ensures
        r.0 == chrono_days_after(today, -30),
        r.0.hour == 0 && r.0.minute == 0 && r.0.second == 0 && r.0.nanosecond == 0,
        r.1 == midnight_of(today),
        valid_datetime(r.0),
        valid_datetime(r.1),
{
    let from = date_plus_days(&today, -30);
    let thru = DateTime { hour: 0, minute: 0, second: 0, nanosecond: 0, ..today };
    (from, thru)
}

/// The format `%m/%d/%Y` in which transactions show their date.
pub open spec fn display_format() -> Seq<char> {
    seq!['%', 'm', '/', '%', 'd', '/', '%', 'Y']
}

/// The date a transaction shows for its ledger post date: the date read in the
/// ledger's form, or the "no date" value when it cannot be read, as `%m/%d/%Y`.
pub fn transaction_date_display(post_date: &str) -> (r: String)
    ensures
        r@ == chrono_format_text(
            match chrono_parse_result(post_date@, ledger_format()) {
                Some(d) => d,
                None => zero_datetime(),
            },
            display_format(),
        ),
        match chrono_parse_result(post_date@, ledger_format()) {
            Some(d) => 0 <= d.year <= 9999 ==> r@ == display_text(d),
            None => r@ == display_text(zero_datetime()),
        },
{
    let d = match chrono_parse(post_date, ledger_format_str()) {
        Some(d) => d,
        None => zero_date(),
    };
    let fmt = "%m/%d/%Y";
    proof {
        reveal_strlit("%m/%d/%Y");
        assert(fmt@ == display_format());
    }
    chrono_format(&d, fmt)
}

/// The format `%Y-%m-%d` of a report line's date.
pub open spec fn iso_date_format() -> Seq<char> {
    seq!['%', 'Y', '-', '%', 'm', '-', '%', 'd']
}

/// The date a report line shows for a ledger post date, `%Y-%m-%d`, when the post
/// date can be read (the report cannot be written otherwise).
pub fn report_date_display(post_date: &str) -> (r: Option<String>)
    ensures
        match chrono_parse_result(post_date@, ledger_format()) {
            Some(d) => r matches Some(t) && t@ == chrono_format_text(d, iso_date_format()) && (0 <= d.year
                <= 9999 ==> t@ == iso_text(d)),
            None => r is None,
        },
{
    match chrono_parse(post_date, ledger_format_str()) {
        Some(d) => {
            let fmt = "%Y-%m-%d";
            proof {
                reveal_strlit("%Y-%m-%d");
                assert(fmt@ == iso_date_format());
            }
            Some(chrono_format(&d, fmt))
        },
        None => None,
    }
}

/// The format `%Y-%m-%d 00:00:00` of the first day of a report's period.
pub open spec fn period_start_format() -> Seq<char> {
    "%Y-%m-%d 00:00:00"@
}

/// The format `%Y-%m-%d 23:59:59` of the last day of a report's period.
pub open spec fn period_end_format() -> Seq<char> {
    "%Y-%m-%d 23:59:59"@
}

/// The three values bound to the query of the splits report: the start of the
/// first day, the end of the last day, and the account type.
pub fn splits_report_parameters(from_date: DateTime, thru_date: DateTime, incoming_account_type: &str) -> (r: Vec<String>)
    requires
        valid_datetime(from_date),
        valid_datetime(thru_date),
    ensures
        r@.len() == 3,
        r@[0]@ == chrono_format_text(from_date, period_start_format()),
        r@[1]@ == chrono_format_text(thru_date, period_end_format()),
        r@[2]@ == incoming_account_type@,
        0 <= from_date.year <= 9999 ==> r@[0]@ == period_start_text(from_date),
        0 <= thru_date.year <= 9999 ==> r@[1]@ == period_end_text(thru_date),
{
    let mut r = Vec::new();
    r.push(chrono_format(&from_date, "%Y-%m-%d 00:00:00"));
    r.push(chrono_format(&thru_date, "%Y-%m-%d 23:59:59"));
    r.push(string_of(incoming_account_type));
    r
}

/// The ledger text typed into the transaction editor: the date input without its
/// dashes followed by the time input without its dashes and colons.
pub open spec fn entered_date_text(date_input: Seq<char>, time_input: Seq<char>) -> Seq<char> {
    date_input.filter(|c: char| c != '-') + time_input.filter(|c: char| c != '-').filter(
        |c: char| c != ':',
    )
}

/// What the transaction editor makes of its date and time inputs: the date they
/// spell in the ledger's form when its year is 1 or later; otherwise the alerts
/// shown, in order (the reading error, if any, then that the text is no valid time).
pub fn entered_post_date(date_input: &str, time_input: &str) -> (r: Result<DateTime, Vec<String>>)
    ensures
        match chrono_parse_result(entered_date_text(date_input@, time_input@), ledger_format()) {
            Some(d) => if d.year >= 1 {
                r == Ok::<DateTime, Vec<String>>(d)
            } else {
                r matches Err(m) && m@.len() == 1 && m@[0]@ == entered_date_text(date_input@, time_input@)
                    + " doesn't make a valid time."@
            },
            None => r matches Err(m) && m@.len() == 2 && m@[0]@ == date_error_message(
                entered_date_text(date_input@, time_input@),
            ) && m@[1]@ == entered_date_text(date_input@, time_input@)
                + " doesn't make a valid time."@,
        },
{
    let date_part = remove_char(date_input, '-');
    let time_part = remove_char(time_input, '-');
    let time_part = remove_char(time_part.as_str(), ':');
    let mut text = date_part;
    push_str(&mut text, time_part.as_str());
    let mut alerts: Vec<String> = Vec::new();
    let mut checked = zero_date();
    let post_date = if convert_string_to_date_format(&mut checked, text.as_str()) {
        match convert_string_to_date(text.as_str()) {
            Ok(d) => d,
            Err(_) => checked,
        }
    } else {
        let mut e = string_of("Failed to convert the given string '");
        push_str(&mut e, text.as_str());
        push_str(&mut e, "' to a date.");
        alerts.push(e);
        zero_date()
    };
    if post_date.year < 1 {
        let mut m = string_of(text.as_str());
        push_str(&mut m, " doesn't make a valid time.");
        alerts.push(m);
        return Err(alerts);
    }
    Ok(post_date)
}

} // verus!
