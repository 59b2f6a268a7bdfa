use blog::date::{is_before, long_date_chars, month_and_year_chars, ordinal_chars, parse_date, rfc3339_chars, year_chars, PostDate};
use chrono::{NaiveDate, SecondsFormat, TimeZone, Utc};
use ordinal::Ordinal;

fn s(v: Vec<char>) -> String {
    v.into_iter().collect()
}

#[test]
fn dates_parse_as_year_month_day() {
    assert_eq!(parse_date("2018/01/18"), Some(PostDate { year: 2018, month: 1, day: 18 }));
    assert_eq!(parse_date("2009/4/14"), Some(PostDate { year: 2009, month: 4, day: 14 }));
    assert_eq!(parse_date("2018-01-18"), None);
    assert_eq!(parse_date("2018/13/01"), None);
    assert_eq!(parse_date("2019/02/29"), None);
    assert_eq!(parse_date(""), None);
}

#[test]
fn month_and_year_match_chrono() {
    for (y, m) in [(2018, 1), (2009, 4), (1999, 12), (5, 7), (-3, 3), (12345, 11)] {
        let date = NaiveDate::from_ymd_opt(y, m, 1).unwrap();
        let d = PostDate { year: y, month: m, day: 1 };
        assert_eq!(s(month_and_year_chars(&d)), date.format("%B %Y").to_string());
        assert_eq!(s(year_chars(y)), date.format("%Y").to_string());
    }
    assert_eq!(s(month_and_year_chars(&PostDate { year: 2018, month: 1, day: 18 })), "January 2018");
}

#[test]
fn ordinals_match_the_ordinal_crate() {
    for n in [0u32, 1, 2, 3, 4, 11, 12, 13, 21, 22, 23, 31, 101, 111, 112, 1000] {
        assert_eq!(s(ordinal_chars(n)), Ordinal(n).to_string());
    }
    assert_eq!(s(ordinal_chars(18)), "18th");
}

#[test]
fn long_dates_name_month_day_and_year() {
    assert_eq!(s(long_date_chars(&PostDate { year: 2018, month: 1, day: 18 })), "January 18th 2018");
    assert_eq!(s(long_date_chars(&PostDate { year: 2012, month: 3, day: 22 })), "March 22nd 2012");
}

#[test]
fn rfc3339_matches_chrono() {
    for (y, m, d) in [(2018, 1, 18), (2009, 4, 14), (999, 12, 31), (10000, 1, 1), (-1, 6, 5)] {
        let date = Utc.from_utc_datetime(&NaiveDate::from_ymd_opt(y, m, d).unwrap().and_hms_opt(0, 0, 0).unwrap());
        let pd = PostDate { year: y, month: m, day: d };
        assert_eq!(s(rfc3339_chars(&pd)), date.to_rfc3339_opts(SecondsFormat::Secs, true));
    }
    assert_eq!(s(rfc3339_chars(&PostDate { year: 2018, month: 1, day: 18 })), "2018-01-18T00:00:00Z");
}

#[test]
fn dates_order_by_year_then_month_then_day() {
    let a = PostDate { year: 2018, month: 1, day: 18 };
    let b = PostDate { year: 2018, month: 2, day: 1 };
    let c = PostDate { year: 2019, month: 1, day: 1 };
    assert!(is_before(&a, &b));
    assert!(is_before(&b, &c));
    assert!(!is_before(&c, &a));
    assert!(!is_before(&a, &a));
}
