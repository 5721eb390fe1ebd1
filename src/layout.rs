//! The text this worklog writes: file and directory names, the daily
//! header and clock times, all as ASCII bytes.
use vstd::prelude::*;
use crate::calendar::{days_back, lemma_days_back_split, week_start_of, Date, Moment};

verus! {

pub const NEWLINE: u8 = 10;
pub const SPACE: u8 = 32;
pub const LEFT_PAREN: u8 = 40;
pub const RIGHT_PAREN: u8 = 41;
pub const DASH: u8 = 45;
pub const DOT: u8 = 46;
pub const ZERO: u8 = 48;
pub const COLON: u8 = 58;
pub const EQUALS: u8 = 61;
pub const UNDERSCORE: u8 = 95;

/// Width that the weekday name is padded to in a header.
pub const WEEKDAY_WIDTH: usize = 10;
/// Number of `=` under a header.
pub const RULE_WIDTH: usize = 20;

/// The ASCII digit for `n`, 0 to 9.
pub open spec fn digit(n: int) -> u8 {
    (ZERO + n) as u8
}

/// `n` (below 100) as two digits, zero-padded.
pub open spec fn two_digits(n: int) -> Seq<u8> {
    seq![digit(n / 10), digit(n % 10)]
}

/// `n` (below 10000) as four digits, zero-padded.
pub open spec fn four_digits(n: int) -> Seq<u8> {
    seq![digit(n / 1000), digit(n / 100 % 10), digit(n / 10 % 10), digit(n % 10)]
}

/// `YYYY-MM-DD`.
pub open spec fn iso_date(d: Date) -> Seq<u8> {
    four_digits(d.year as int) + seq![DASH] + two_digits(d.month as int) + seq![DASH]
        + two_digits(d.day as int)
}

/// `HH:MM`, on a 24-hour clock.
pub open spec fn clock_time(hour: int, minute: int) -> Seq<u8> {
    two_digits(hour) + seq![COLON] + two_digits(minute)
}

/// `s` followed by spaces up to `width` bytes; `s` itself when it is no shorter.
pub open spec fn padded(s: Seq<u8>, width: nat) -> Seq<u8> {
    if s.len() >= width {
        s
    } else {
        s + Seq::new((width - s.len()) as nat, |i: int| SPACE)
    }
}

/// The line of `=` under a header.
pub open spec fn rule_line() -> Seq<u8> {
    Seq::new(RULE_WIDTH as nat, |i: int| EQUALS)
}

/// The header that opens the moment's day: the weekday name padded to ten
/// bytes, the date, a newline and a rule of twenty `=`.
pub open spec fn header_text(m: Moment) -> Seq<u8> {
    padded(weekday_name(m.weekday as int), WEEKDAY_WIDTH as nat) + iso_date(m.date) + seq![NEWLINE]
        + rule_line()
}

/// `YYYY-MM (Month YYYY)`: the directory that holds the weekly files of the month.
pub open spec fn month_directory_text(d: Date) -> Seq<u8> {
    four_digits(d.year as int) + seq![DASH] + two_digits(d.month as int) + seq![SPACE, LEFT_PAREN]
        + month_name(d.month as int) + seq![SPACE] + four_digits(d.year as int) + seq![RIGHT_PAREN]
}

/// The extension of a weekly file, `.worklog`.
pub open spec fn extension() -> Seq<u8> {
    seq![DOT, 119, 111, 114, 107, 108, 111, 103]
}

/// `YYYY-MM-DD.worklog`: the weekly file named by its Sunday.
pub open spec fn log_file_text(d: Date) -> Seq<u8> {
    iso_date(d) + extension()
}

/// The full English name of month `m`, 1 for January.
pub open spec fn month_name(m: int) -> Seq<u8> {
    if m == 1 {
        seq![74u8, 97, 110, 117, 97, 114, 121]  // January
    } else if m == 2 {
        seq![70u8, 101, 98, 114, 117, 97, 114, 121]  // February
    } else if m == 3 {
        seq![77u8, 97, 114, 99, 104]  // March
    } else if m == 4 {
        seq![65u8, 112, 114, 105, 108]  // April
    } else if m == 5 {
        seq![77u8, 97, 121]  // May
    } else if m == 6 {
        seq![74u8, 117, 110, 101]  // June
    } else if m == 7 {
        seq![74u8, 117, 108, 121]  // July
    } else if m == 8 {
        seq![65u8, 117, 103, 117, 115, 116]  // August
    } else if m == 9 {
        seq![83u8, 101, 112, 116, 101, 109, 98, 101, 114]  // September
    } else if m == 10 {
        seq![79u8, 99, 116, 111, 98, 101, 114]  // October
    } else if m == 11 {
        seq![78u8, 111, 118, 101, 109, 98, 101, 114]  // November
    } else {
        seq![68u8, 101, 99, 101, 109, 98, 101, 114]  // December
    }
}

/// The English name of the weekday `w` days after Sunday.
pub open spec fn weekday_name(w: int) -> Seq<u8> {
    if w == 0 {
        seq![83u8, 117, 110, 100, 97, 121]  // Sunday
    } else if w == 1 {
        seq![77u8, 111, 110, 100, 97, 121]  // Monday
    } else if w == 2 {
        seq![84u8, 117, 101, 115, 100, 97, 121]  // Tuesday
    } else if w == 3 {
        seq![87u8, 101, 100, 110, 101, 115, 100, 97, 121]  // Wednesday
    } else if w == 4 {
        seq![84u8, 104, 117, 114, 115, 100, 97, 121]  // Thursday
    } else if w == 5 {
        seq![70u8, 114, 105, 100, 97, 121]  // Friday
    } else {
        seq![83u8, 97, 116, 117, 114, 100, 97, 121]  // Saturday
    }
}

fn month_name_bytes(m: u32) -> (r: Vec<u8>)
    requires
        1 <= m <= 12,
    ensures
        r@ == month_name(m as int),
{
    if m == 1 {
        vec![74u8, 97, 110, 117, 97, 114, 121]
    } else if m == 2 {
        vec![70u8, 101, 98, 114, 117, 97, 114, 121]
    } else if m == 3 {
        vec![77u8, 97, 114, 99, 104]
    } else if m == 4 {
        vec![65u8, 112, 114, 105, 108]
    } else if m == 5 {
        vec![77u8, 97, 121]
    } else if m == 6 {
        vec![74u8, 117, 110, 101]
    } else if m == 7 {
        vec![74u8, 117, 108, 121]
    } else if m == 8 {
        vec![65u8, 117, 103, 117, 115, 116]
    } else if m == 9 {
        vec![83u8, 101, 112, 116, 101, 109, 98, 101, 114]
    } else if m == 10 {
        vec![79u8, 99, 116, 111, 98, 101, 114]
    } else if m == 11 {
        vec![78u8, 111, 118, 101, 109, 98, 101, 114]
    } else {
        vec![68u8, 101, 99, 101, 109, 98, 101, 114]
    }
}

fn weekday_name_bytes(w: u32) -> (r: Vec<u8>)
    requires
        0 <= w <= 6,
    ensures
        r@ == weekday_name(w as int),
{
    if w == 0 {
        vec![83u8, 117, 110, 100, 97, 121]
    } else if w == 1 {
        vec![77u8, 111, 110, 100, 97, 121]
    } else if w == 2 {
        vec![84u8, 117, 101, 115, 100, 97, 121]
    } else if w == 3 {
        vec![87u8, 101, 100, 110, 101, 115, 100, 97, 121]
    } else if w == 4 {
        vec![84u8, 104, 117, 114, 115, 100, 97, 121]
    } else if w == 5 {
        vec![70u8, 114, 105, 100, 97, 121]
    } else {
        vec![83u8, 97, 116, 117, 114, 100, 97, 121]
    }
}

fn push_digit(out: &mut Vec<u8>, n: u32)
    requires
        n < 10,
    ensures
        final(out)@ == old(out)@.push(digit(n as int)),
{
    out.push(ZERO + n as u8);
}

fn push_two_digits(out: &mut Vec<u8>, n: u32)
    requires
        n < 100,
    ensures
        final(out)@ == old(out)@ + two_digits(n as int),
{
    push_digit(out, n / 10);
    push_digit(out, n % 10);
    assert(final(out)@ =~= old(out)@ + two_digits(n as int));
}

fn push_four_digits(out: &mut Vec<u8>, n: u32)
    requires
        n < 10000,
    ensures
        final(out)@ == old(out)@ + four_digits(n as int),
{
    push_digit(out, n / 1000);
    push_digit(out, n / 100 % 10);
    push_digit(out, n / 10 % 10);
    push_digit(out, n % 10);
    assert(final(out)@ =~= old(out)@ + four_digits(n as int));
}

fn push_all(out: &mut Vec<u8>, s: &Vec<u8>)
    ensures
        final(out)@ == old(out)@ + s@,
{
    let mut i: usize = 0;
    while i < s.len()
        invariant
            i <= s@.len(),
            out@ == old(out)@ + s@.subrange(0, i as int),
        decreases s@.len() - i,
    {
        out.push(s[i]);
        i = i + 1;
        assert(out@ =~= old(out)@ + s@.subrange(0, i as int));
    }
    assert(s@.subrange(0, i as int) =~= s@);
}

fn push_iso_date(out: &mut Vec<u8>, d: &Date)
    requires
        d.wf(),
    ensures
        final(out)@ == old(out)@ + iso_date(*d),
{
    push_four_digits(out, d.year as u32);
    out.push(DASH);
    push_two_digits(out, d.month);
    out.push(DASH);
    push_two_digits(out, d.day);
    assert(final(out)@ =~= old(out)@ + iso_date(*d));
}

/// Writes `HH:MM` for the given time of day.
pub fn clock_time_bytes(hour: u32, minute: u32) -> (r: Vec<u8>)
    requires
        hour < 24,
        minute < 60,
    ensures
        r@ == clock_time(hour as int, minute as int),
{
    let mut out: Vec<u8> = Vec::new();
    push_two_digits(&mut out, hour);
    out.push(COLON);
    push_two_digits(&mut out, minute);
    assert(out@ =~= clock_time(hour as int, minute as int));
    out
}

/// The header that opens the moment's day.
pub fn todays_header(m: &Moment) -> (r: Vec<u8>)
    requires
        m.wf(),
    ensures
        r@ == header_text(*m),
{
    let name = weekday_name_bytes(m.weekday);
    let mut out: Vec<u8> = Vec::new();
    push_all(&mut out, &name);
    let mut n: usize = name.len();
    while n < WEEKDAY_WIDTH
        invariant
            name@.len() <= n <= WEEKDAY_WIDTH,
            out@ == name@ + Seq::new((n - name@.len()) as nat, |i: int| SPACE),
        decreases WEEKDAY_WIDTH - n,
    {
        out.push(SPACE);
        n = n + 1;
        assert(out@ =~= name@ + Seq::new((n - name@.len()) as nat, |i: int| SPACE));
    }
    assert(out@ =~= padded(name@, WEEKDAY_WIDTH as nat));
    push_iso_date(&mut out, &m.date);
    out.push(NEWLINE);
    let ghost before = out@;
    let mut k: usize = 0;
    while k < RULE_WIDTH
        invariant
            k <= RULE_WIDTH,
            out@ == before + Seq::new(k as nat, |i: int| EQUALS),
        decreases RULE_WIDTH - k,
    {
        out.push(EQUALS);
        k = k + 1;
        assert(out@ =~= before + Seq::new(k as nat, |i: int| EQUALS));
    }
    assert(out@ =~= header_text(*m));
    out
}

/// The name of the directory that holds the weekly files of `d`'s month.
pub fn month_directory_name(d: &Date) -> (r: Vec<u8>)
    requires
        d.wf(),
    ensures
        r@ == month_directory_text(*d),
{
    let mut out: Vec<u8> = Vec::new();
    push_four_digits(&mut out, d.year as u32);
    out.push(DASH);
    push_two_digits(&mut out, d.month);
    out.push(SPACE);
    out.push(LEFT_PAREN);
    let name = month_name_bytes(d.month);
    push_all(&mut out, &name);
    out.push(SPACE);
    push_four_digits(&mut out, d.year as u32);
    out.push(RIGHT_PAREN);
    assert(out@ =~= month_directory_text(*d));
    out
}

/// The name of the weekly file whose week starts on `d`.
pub fn log_file_name(d: &Date) -> (r: Vec<u8>)
    requires
        d.wf(),
    ensures
        r@ == log_file_text(*d),
{
    let mut out: Vec<u8> = Vec::new();
    push_iso_date(&mut out, d);
    let ext: Vec<u8> = vec![DOT, 119, 111, 114, 107, 108, 111, 103];
    push_all(&mut out, &ext);
    assert(out@ =~= log_file_text(*d));
    out
}

/// A clock time is five bytes, each a digit or the colon.
pub proof fn lemma_clock_time_bytes(hour: int, minute: int)
    requires
        0 <= hour < 24,
        0 <= minute < 60,
    ensures
        clock_time(hour, minute).len() == 5,
        forall|k: int| 0 <= k < 5 ==> ZERO <= #[trigger] clock_time(hour, minute)[k] <= COLON,
{
}

/// A header opens with the capital letter of its weekday name.
pub proof fn lemma_header_opens_with_capital(m: Moment)
    requires
        m.wf(),
    ensures
        header_text(m).len() > 0,
        65 <= header_text(m)[0] <= 90,
{
    let name = weekday_name(m.weekday as int);
    assert(name.len() > 0 && 65 <= name[0] <= 90);
    assert(padded(name, WEEKDAY_WIDTH as nat)[0] == name[0]);
}

/// Where the log of the moment's week lives, below the log directory: the
/// month directory and the file name, both taken from the week's Sunday.
pub fn week_location(m: &Moment) -> (r: (Vec<u8>, Vec<u8>))
    requires
        m.wf(),
    ensures
        r.0@ == month_directory_text(week_start_of(*m)),
        r.1@ == log_file_text(week_start_of(*m)),
{
    let sunday = m.week_start();
    (month_directory_name(&sunday), log_file_name(&sunday))
}

/// Two moments of one week name the same file: the moment `k` days earlier,
/// whose weekday is `k` lower, has the same week start, month directory and
/// file name.
pub proof fn lemma_same_week_same_file(m: Moment, k: nat)
    requires
        m.wf(),
        k <= m.weekday,
    ensures
        ({
            let earlier = Moment {
                date: days_back(m.date, k),
                weekday: (m.weekday - k) as u32,
                ..m
            };
            &&& week_start_of(earlier) == week_start_of(m)
            &&& month_directory_text(week_start_of(earlier)) == month_directory_text(week_start_of(m))
            &&& log_file_text(week_start_of(earlier)) == log_file_text(week_start_of(m))
        }),
{
    lemma_days_back_split(m.date, k, (m.weekday - k) as nat);
}

} // verus!
