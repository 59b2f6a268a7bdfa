use vstd::prelude::*;

use crate::text::{
    self, chars_of, decimal_chars, extend_chars, extend_str, signed_decimal_chars, zero_padded_chars,
};

#[allow(unused_imports)]
use chrono::Datelike;

verus! {

/// The calendar day a post was published on (posts are dated at midnight UTC).
#[derive(Clone, Copy, Debug, PartialEq, Eq, Structural)]
pub struct PostDate {
    pub year: i32,
    pub month: u32,
    pub day: u32,
}

/// `a` is a strictly earlier day than `b`.
pub open spec fn date_before(a: PostDate, b: PostDate) -> bool {
    ||| a.year < b.year
    ||| (a.year == b.year && a.month < b.month)
    ||| (a.year == b.year && a.month == b.month && a.day < b.day)
}

/// Days are ordered by year, then by month within a year, then by day within a month.
pub proof fn law_dates_are_ordered_by_year_then_month_then_day(a: PostDate, b: PostDate)
    ensures
        a.year != b.year ==> (date_before(a, b) <==> a.year < b.year),
        a.year == b.year && a.month != b.month ==> (date_before(a, b) <==> a.month < b.month),
        a.year == b.year && a.month == b.month ==> (date_before(a, b) <==> a.day < b.day),
{
}

/// Whether `a` is a strictly earlier day than `b`.
pub fn is_before(a: &PostDate, b: &PostDate) -> (r: bool)
    ensures
        r == date_before(*a, *b),
{
    a.year < b.year || (a.year == b.year && a.month < b.month) || (a.year == b.year && a.month
        == b.month && a.day < b.day)
}

// ---------------------------------------------------------------------------
// Parsing
// ---------------------------------------------------------------------------

/// What `chrono::NaiveDate::parse_from_str(s, "%Y/%m/%d")` gives for `s`, as
/// (year, month, day), or `None` where chrono refuses the text.
pub uninterp spec fn chrono_ymd(s: Seq<char>) -> Option<(i32, u32, u32)>;

/// Calls `chrono::NaiveDate::parse_from_str` with the format `%Y/%m/%d`.
/// Claimed of it: the result is a function of the text alone (named `chrono_ymd`), and a
/// parsed date lies in chrono's range of years, with a month in `1..=12` and a day in
/// `1..=31`. Which texts chrono accepts is left unsaid.
#[verifier::external_body]
fn chrono_parse_ymd(s: &str) -> (r: Option<(i32, u32, u32)>)
    ensures
        r == chrono_ymd(s@),
        r matches Some((y, m, d)) ==> -262143 <= y <= 262142 && 1 <= m <= 12 && 1 <= d <= 31,
{
    match chrono::NaiveDate::parse_from_str(s, "%Y/%m/%d") {
        Ok(date) => Some((date.year(), date.month(), date.day())),
        Err(_) => None,
    }
}

/// What chrono writes, with `DateTime::<Utc>::to_rfc3339_opts(SecondsFormat::Secs, true)`,
/// for the time `secs` seconds after the Unix epoch, or `None` where
/// `DateTime::<Utc>::from_timestamp` finds no such time.
pub uninterp spec fn chrono_rfc3339_secs(secs: i64) -> Option<Seq<char>>;

/// Calls `chrono::DateTime::<Utc>::from_timestamp` with no nanoseconds, then
/// `to_rfc3339_opts(SecondsFormat::Secs, true)`. Claimed of them: the text is a function of
/// the seconds alone (named `chrono_rfc3339_secs`), and a time within a trillion seconds of
/// the epoch (some 31,000 years, inside chrono's range of dates) is found. What the text is
/// for given seconds is left unsaid.
#[verifier::external_body]
pub(crate) fn rfc3339_of_secs(secs: i64) -> (r: Option<String>)
    ensures
        match r {
            Some(t) => chrono_rfc3339_secs(secs) == Some(t@),
            None => chrono_rfc3339_secs(secs) is None,
        },
        -1_000_000_000_000 <= secs <= 1_000_000_000_000 ==> r is Some,
{
    match chrono::DateTime::<chrono::Utc>::from_timestamp(secs, 0) {
        Some(t) => Some(t.to_rfc3339_opts(chrono::SecondsFormat::Secs, true)),
        None => None,
    }
}

/// The post date written in a `date:` header, or `None` where it is no valid `%Y/%m/%d` date.
pub open spec fn spec_parse_date(s: Seq<char>) -> Option<PostDate> {
    match chrono_ymd(s) {
        Some((y, m, d)) => Some(PostDate { year: y, month: m, day: d }),
        None => None,
    }
}

/// Parses a `%Y/%m/%d` date such as `2018/01/18`.
pub fn parse_date(s: &str) -> (r: Option<PostDate>)
    ensures
        r == spec_parse_date(s@),
        r matches Some(d) ==> 1 <= d.month <= 12 && 1 <= d.day <= 31,
{
    match chrono_parse_ymd(s) {
        Some((y, m, d)) => Some(PostDate { year: y, month: m, day: d }),
        None => None,
    }
}

// ---------------------------------------------------------------------------
// Formatting
// ---------------------------------------------------------------------------

/// English name of month `m` (`%B`); empty for a number that names no month.
pub open spec fn month_name(m: int) -> Seq<char> {
    if m == 1 {
        "January"@
    } else if m == 2 {
        "February"@
    } else if m == 3 {
        "March"@
    } else if m == 4 {
        "April"@
    } else if m == 5 {
        "May"@
    } else if m == 6 {
        "June"@
    } else if m == 7 {
        "July"@
    } else if m == 8 {
        "August"@
    } else if m == 9 {
        "September"@
    } else if m == 10 {
        "October"@
    } else if m == 11 {
        "November"@
    } else if m == 12 {
        "December"@
    } else {
        Seq::empty()
    }
}

/// Year `y` as `%Y` writes it: four digits at least, and a sign outside `0..=9999`.
pub open spec fn year_text(y: int) -> Seq<char> {
    if 0 <= y <= 9999 {
        text::zero_padded(y as nat, 4)
    } else if y < 0 {
        seq!['-'] + text::zero_padded((-y) as nat, 4)
    } else {
        seq!['+'] + text::zero_padded(y as nat, 4)
    }
}

/// The English ordinal suffix of `n`: `st`, `nd`, `rd` or `th`.
pub open spec fn ordinal_suffix(n: nat) -> Seq<char> {
    if 11 <= n % 100 <= 13 {
        "th"@
    } else if n % 10 == 1 {
        "st"@
    } else if n % 10 == 2 {
        "nd"@
    } else if n % 10 == 3 {
        "rd"@
    } else {
        "th"@
    }
}

/// `n` as an English ordinal, such as `18th`.
pub open spec fn ordinal_text(n: nat) -> Seq<char> {
    text::decimal(n) + ordinal_suffix(n)
}

/// `%B %Y`, such as `January 2018`.
pub open spec fn month_and_year(d: PostDate) -> Seq<char> {
    month_name(d.month as int) + " "@ + year_text(d.year as int)
}

/// The long date of a post page, such as `January 18th 2018`.
pub open spec fn long_date(d: PostDate) -> Seq<char> {
    month_name(d.month as int) + " "@ + ordinal_text(d.day as nat) + " "@ + year_text(
        d.year as int,
    )
}

/// RFC 3339 at whole seconds, UTC as `Z`, of midnight on day `d`.
pub open spec fn rfc3339_midnight(d: PostDate) -> Seq<char> {
    year_text(d.year as int) + "-"@ + text::zero_padded(d.month as nat, 2) + "-"@ + text::zero_padded(
        d.day as nat,
        2,
    ) + "T00:00:00Z"@
}

/// `year/month/day` with numbers as `to_string` writes them, such as `2018/1/18`.
pub open spec fn date_path(d: PostDate) -> Seq<char> {
    text::signed_decimal(d.year as int) + "/"@ + text::decimal(d.month as nat) + "/"@ + text::decimal(
        d.day as nat,
    )
}

/// The English name of month `m`.
pub fn month_name_chars(m: u32) -> (v: Vec<char>)
    ensures
        v@ == month_name(m as int),
{
    if m == 1 {
        chars_of("January")
    } else if m == 2 {
        chars_of("February")
    } else if m == 3 {
        chars_of("March")
    } else if m == 4 {
        chars_of("April")
    } else if m == 5 {
        chars_of("May")
    } else if m == 6 {
        chars_of("June")
    } else if m == 7 {
        chars_of("July")
    } else if m == 8 {
        chars_of("August")
    } else if m == 9 {
        chars_of("September")
    } else if m == 10 {
        chars_of("October")
    } else if m == 11 {
        chars_of("November")
    } else if m == 12 {
        chars_of("December")
    } else {
        Vec::new()
    }
}

/// Year `y` as `%Y` writes it.
pub fn year_chars(y: i32) -> (v: Vec<char>)
    ensures
        v@ == year_text(y as int),
{
    if 0 <= y && y <= 9999 {
        zero_padded_chars(y as u64, 4)
    } else {
        let mut v: Vec<char> = Vec::new();
        let m: u64 = if y < 0 {
            v.push('-');
            (-(y as i64)) as u64
        } else {
            v.push('+');
            y as u64
        };
        let d = zero_padded_chars(m, 4);
        extend_chars(&mut v, &d);
        v
    }
}

/// `n` as an English ordinal.
pub fn ordinal_chars(n: u32) -> (v: Vec<char>)
    ensures
        v@ == ordinal_text(n as nat),
{
    let mut v = decimal_chars(n as u64);
    let r = n % 100;
    let s = if 11 <= r && r <= 13 {
        "th"
    } else if n % 10 == 1 {
        "st"
    } else if n % 10 == 2 {
        "nd"
    } else if n % 10 == 3 {
        "rd"
    } else {
        "th"
    };
    extend_str(&mut v, s);
    v
}

/// `%B %Y` of a date.
pub fn month_and_year_chars(d: &PostDate) -> (v: Vec<char>)
    ensures
        v@ == month_and_year(*d),
{
    let mut v = month_name_chars(d.month);
    extend_str(&mut v, " ");
    let y = year_chars(d.year);
    extend_chars(&mut v, &y);
    v
}

/// The long date of a post page.
pub fn long_date_chars(d: &PostDate) -> (v: Vec<char>)
    ensures
        v@ == long_date(*d),
{
    let mut v = month_name_chars(d.month);
    extend_str(&mut v, " ");
    let o = ordinal_chars(d.day);
    extend_chars(&mut v, &o);
    extend_str(&mut v, " ");
    let y = year_chars(d.year);
    extend_chars(&mut v, &y);
    v
}

/// RFC 3339 text of midnight UTC on a date.
pub fn rfc3339_chars(d: &PostDate) -> (v: Vec<char>)
    ensures
        v@ == rfc3339_midnight(*d),
{
    let mut v = year_chars(d.year);
    extend_str(&mut v, "-");
    let m = zero_padded_chars(d.month as u64, 2);
    extend_chars(&mut v, &m);
    extend_str(&mut v, "-");
    let dd = zero_padded_chars(d.day as u64, 2);
    extend_chars(&mut v, &dd);
    extend_str(&mut v, "T00:00:00Z");
    v
}

/// `year/month/day` of a date.
pub fn date_path_chars(d: &PostDate) -> (v: Vec<char>)
    ensures
        v@ == date_path(*d),
{
    let mut v = signed_decimal_chars(d.year as i64);
    extend_str(&mut v, "/");
    let m = decimal_chars(d.month as u64);
    extend_chars(&mut v, &m);
    extend_str(&mut v, "/");
    let dd = decimal_chars(d.day as u64);
    extend_chars(&mut v, &dd);
    v
}

// ---------------------------------------------------------------------------
// A month and year is named by one text only
// ---------------------------------------------------------------------------

/// The number that a text of decimal digits stands for.
pub open spec fn digits_value(s: Seq<char>) -> int
    decreases s.len(),
{
    if s.len() == 0 {
        0
    } else {
        digits_value(s.drop_last()) * 10 + ((s.last() as int) - ('0' as int))
    }
}

proof fn lemma_digit_value(d: int)
    requires
        0 <= d < 10,
    ensures
        (text::digit_char(d) as int) - ('0' as int) == d,
        '0' <= text::digit_char(d) <= '9',
{
    assert('0' as int == 48 && '1' as int == 49 && '2' as int == 50 && '3' as int == 51 && '4' as int
        == 52 && '5' as int == 53 && '6' as int == 54 && '7' as int == 55 && '8' as int == 56
        && '9' as int == 57);
}

proof fn lemma_decimal_value(n: nat)
    ensures
        digits_value(text::decimal(n)) == n,
        text::decimal(n).len() >= 1,
        forall|i: int|
            0 <= i < text::decimal(n).len() ==> '0' <= #[trigger] text::decimal(n)[i] <= '9',
    decreases n,
{
    if n < 10 {
        lemma_digit_value(n as int);
        assert(text::decimal(n).drop_last() =~= Seq::<char>::empty());
        assert(digits_value(Seq::<char>::empty()) == 0);
        assert(text::decimal(n).last() == text::digit_char(n as int));
    } else {
        lemma_digit_value((n % 10) as int);
        lemma_decimal_value(n / 10);
        let d = text::decimal(n / 10);
        assert(text::decimal(n).drop_last() =~= d);
        assert forall|i: int| 0 <= i < text::decimal(n).len() implies '0' <= #[trigger] text::decimal(
            n,
        )[i] <= '9' by {
            if i < d.len() {
                assert(text::decimal(n)[i] == d[i]);
            }
        }
        assert(n == (n / 10) * 10 + n % 10) by (nonlinear_arith);
        assert(text::decimal(n).last() == text::digit_char((n % 10) as int));
        assert(digits_value(text::decimal(n)) == digits_value(d) * 10 + ((text::digit_char(
            (n % 10) as int,
        ) as int) - ('0' as int)));
    }
}

proof fn lemma_zeros_value(k: nat, d: Seq<char>)
    ensures
        digits_value(Seq::new(k, |i: int| '0') + d) == digits_value(d),
    decreases d.len(), k,
{
    let z = Seq::new(k, |i: int| '0');
    if d.len() == 0 {
        assert(z + d =~= z);
        if k > 0 {
            assert(z.drop_last() =~= Seq::new((k - 1) as nat, |i: int| '0'));
            lemma_zeros_value((k - 1) as nat, d);
            assert(Seq::new((k - 1) as nat, |i: int| '0') + d =~= Seq::new((k - 1) as nat, |i: int| '0'));
        }
    } else {
        assert((z + d).drop_last() =~= z + d.drop_last());
        lemma_zeros_value(k, d.drop_last());
    }
}

proof fn lemma_zero_padded(n: nat, w: nat)
    ensures
        digits_value(text::zero_padded(n, w)) == n,
        text::zero_padded(n, w).len() >= 1,
        '0' <= text::zero_padded(n, w)[0] <= '9',
{
    lemma_decimal_value(n);
    let d = text::decimal(n);
    if d.len() < w {
        lemma_zeros_value((w - d.len()) as nat, d);
    } else {
        assert(d[0] == text::decimal(n)[0]);
    }
}

/// A year is written by one text only.
pub proof fn lemma_year_text_injective(a: int, b: int)
    requires
        year_text(a) == year_text(b),
    ensures
        a == b,
{
    let ma: nat = (if a < 0 { -a } else { a }) as nat;
    let mb: nat = (if b < 0 { -b } else { b }) as nat;
    lemma_zero_padded(ma, 4);
    lemma_zero_padded(mb, 4);
    let za = text::zero_padded(ma, 4);
    let zb = text::zero_padded(mb, 4);
    let t = year_text(a);
    if 0 <= a <= 9999 {
        assert(t == za);
    } else if a < 0 {
        assert(t == seq!['-'] + za);
        assert(t[0] == '-');
        assert(t.drop_first() =~= za);
    } else {
        assert(t == seq!['+'] + za);
        assert(t[0] == '+');
        assert(t.drop_first() =~= za);
    }
    if 0 <= b <= 9999 {
        assert(t == zb);
    } else if b < 0 {
        assert(t == seq!['-'] + zb);
        assert(t[0] == '-');
        assert(t.drop_first() =~= zb);
    } else {
        assert(t == seq!['+'] + zb);
        assert(t[0] == '+');
        assert(t.drop_first() =~= zb);
    }
}

/// Tells which month a month name is from its first three letters.
pub open spec fn month_of_name(s: Seq<char>) -> int {
    if s.len() < 3 {
        0
    } else if s[0] == 'J' && s[1] == 'a' {
        1
    } else if s[0] == 'F' {
        2
    } else if s[0] == 'M' && s[2] == 'r' {
        3
    } else if s[0] == 'A' && s[1] == 'p' {
        4
    } else if s[0] == 'M' && s[2] == 'y' {
        5
    } else if s[0] == 'J' && s[2] == 'n' {
        6
    } else if s[0] == 'J' && s[2] == 'l' {
        7
    } else if s[0] == 'A' && s[1] == 'u' {
        8
    } else if s[0] == 'S' {
        9
    } else if s[0] == 'O' {
        10
    } else if s[0] == 'N' {
        11
    } else if s[0] == 'D' {
        12
    } else {
        0
    }
}

proof fn lemma_month_name(m: int)
    requires
        1 <= m <= 12,
    ensures
        month_of_name(month_name(m)) == m,
        forall|i: int| 0 <= i < month_name(m).len() ==> #[trigger] month_name(m)[i] != ' ',
{
    reveal_strlit("January");
    reveal_strlit("February");
    reveal_strlit("March");
    reveal_strlit("April");
    reveal_strlit("May");
    reveal_strlit("June");
    reveal_strlit("July");
    reveal_strlit("August");
    reveal_strlit("September");
    reveal_strlit("October");
    reveal_strlit("November");
    reveal_strlit("December");
}

/// Two dates have the same `%B %Y` text exactly when they fall in the same month of the
/// same year.
pub proof fn law_month_and_year_names_the_month(a: PostDate, b: PostDate)
    requires
        1 <= a.month <= 12,
        1 <= b.month <= 12,
    ensures
        month_and_year(a) == month_and_year(b) <==> (a.year == b.year && a.month == b.month),
{
    if month_and_year(a) == month_and_year(b) {
        reveal_strlit(" ");
        lemma_month_name(a.month as int);
        lemma_month_name(b.month as int);
        let na = month_name(a.month as int);
        let nb = month_name(b.month as int);
        let s = month_and_year(a);
        assert(s[na.len() as int] == ' ');
        assert(month_and_year(b)[nb.len() as int] == ' ');
        if na.len() < nb.len() {
            assert(month_and_year(b)[na.len() as int] == nb[na.len() as int]);
        } else if nb.len() < na.len() {
            assert(s[nb.len() as int] == na[nb.len() as int]);
        }
        assert(na =~= s.take(na.len() as int));
        assert(nb =~= month_and_year(b).take(nb.len() as int));
        assert(year_text(a.year as int) =~= s.skip(na.len() + 1 as int));
        assert(year_text(b.year as int) =~= month_and_year(b).skip(nb.len() + 1 as int));
        lemma_year_text_injective(a.year as int, b.year as int);
    }
}

} // verus!
