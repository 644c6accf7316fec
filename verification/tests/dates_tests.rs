use money_manager::dates::{
    convert_date_to_string_format, convert_string_to_date, convert_string_to_date_format, entered_post_date,
    last_30_days_range, report_date_display, splits_report_parameters, transaction_date_display, zero_date,
    DateTime,
};

fn date(year: i32, month: u32, day: u32, hour: u32, minute: u32, second: u32) -> DateTime {
    DateTime { year, month, day, hour, minute, second, nanosecond: 0 }
}

#[test]
fn date_is_written_in_the_ledger_form() {
    assert_eq!(convert_date_to_string_format(date(2012, 8, 1, 4, 0, 0)), "20120801040000");
    assert_eq!(convert_date_to_string_format(date(999, 12, 31, 23, 59, 58)), "09991231235958");
}

#[test]
fn ledger_text_reads_as_a_date() {
    assert_eq!(convert_string_to_date("20120801040000"), Ok(date(2012, 8, 1, 4, 0, 0)));
}

#[test]
fn written_date_reads_back() {
    let d = date(2021, 2, 28, 13, 45, 7);
    let text = convert_date_to_string_format(d);
    assert_eq!(convert_string_to_date(&text), Ok(d));
}

#[test]
fn bad_ledger_text_is_not_read() {
    let mut d = zero_date();
    assert!(!convert_string_to_date_format(&mut d, "abc"));
    assert!(!convert_string_to_date_format(&mut d, "20120231040000"));
}

#[test]
fn reading_into_a_date_sets_it_or_zeroes_it() {
    let mut d = date(2000, 1, 1, 0, 0, 0);
    assert!(convert_string_to_date_format(&mut d, "20120801040000"));
    assert_eq!(d, date(2012, 8, 1, 4, 0, 0));
    assert!(!convert_string_to_date_format(&mut d, "2012-08-01"));
    assert_eq!(d, zero_date());
}

#[test]
fn zero_date_is_year_zero_midnight() {
    assert_eq!(zero_date(), date(0, 1, 1, 0, 0, 0));
}

#[test]
fn transaction_dates_show_month_day_year() {
    assert_eq!(transaction_date_display("20120801040000"), "08/01/2012");
    assert_eq!(transaction_date_display("garbage"), "01/01/0000");
}

#[test]
fn report_dates_show_year_month_day() {
    assert_eq!(report_date_display("20120801040000"), Some(String::from("2012-08-01")));
    assert_eq!(report_date_display("2012"), None);
}

#[test]
fn last_30_days_go_back_thirty_days_from_midnight() {
    let (from, thru) = last_30_days_range(date(2020, 3, 15, 10, 20, 30));
    assert_eq!(from, date(2020, 2, 14, 0, 0, 0));
    assert_eq!(thru, date(2020, 3, 15, 0, 0, 0));
}

#[test]
fn splits_report_gets_day_bounds_and_type() {
    let p = splits_report_parameters(date(2020, 2, 14, 0, 0, 0), date(2020, 3, 15, 0, 0, 0), "EXPENSE");
    assert_eq!(
        p,
        vec![
            String::from("2020-02-14 00:00:00"),
            String::from("2020-03-15 23:59:59"),
            String::from("EXPENSE"),
        ]
    );
}

#[test]
fn entered_date_and_time_make_the_post_date() {
    assert_eq!(entered_post_date("2012-08-01", "04:05:06"), Ok(date(2012, 8, 1, 4, 5, 6)));
}

#[test]
fn entered_date_that_does_not_read_gives_two_alerts() {
    assert_eq!(
        entered_post_date("2012-08-01", "04:05"),
        Err(vec![
            String::from("Failed to convert the given string '201208010405' to a date."),
            String::from("201208010405 doesn't make a valid time."),
        ])
    );
}

#[test]
fn entered_date_of_year_zero_gives_one_alert() {
    assert_eq!(
        entered_post_date("0000-01-01", "00:00:00"),
        Err(vec![String::from("00000101000000 doesn't make a valid time.")])
    );
}

#[test]
fn ledger_text_that_reads_is_written_back_unchanged() {
    for text in ["20000229235959", "00010101000000", "99991231235959", "20120801040000"] {
        let d = convert_string_to_date(text).unwrap();
        assert_eq!(convert_date_to_string_format(d), text);
    }
}

#[test]
fn written_date_reads_back_into_a_date() {
    for d in [date(2021, 2, 28, 13, 45, 7), date(0, 1, 1, 0, 0, 0), date(9999, 12, 31, 23, 59, 59)] {
        let text = convert_date_to_string_format(d);
        let mut read = zero_date();
        assert!(convert_string_to_date_format(&mut read, &text));
        assert_eq!(read, d);
    }
}
