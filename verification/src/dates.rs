//! Calendar arithmetic on `YYYY-MM-DD` strings and the human-facing due
//! labels built from it.
use vstd::prelude::*;
use vstd::string::*;

use crate::model::Due;
use crate::text::{decimal, lex_le, lex_lt, push_decimal, str_eq, str_le, str_lt};

verus! {

// ---------------------------------------------------------------------
// Parsing
// ---------------------------------------------------------------------

pub open spec fn is_digit(c: char) -> bool {
    48 <= (c as u32) <= 57
}

pub open spec fn digit_of(c: char) -> nat {
    ((c as u32) - 48) as nat
}

/// Value of a string of decimal digits (most significant first).
pub open spec fn digits_value(s: Seq<char>) -> nat
    decreases s.len(),
{
    if s.len() == 0 {
        0
    } else {
        digits_value(s.drop_last()) * 10 + digit_of(s.last())
    }
}

pub open spec fn all_digits(s: Seq<char>) -> bool {
    forall|i: int| 0 <= i < s.len() ==> is_digit(#[trigger] s[i])
}

/// The part of an unsigned-integer literal after an optional leading `+`.
pub open spec fn unsigned_body(s: Seq<char>) -> Seq<char> {
    if s.len() > 0 && s[0] == '+' {
        s.drop_first()
    } else {
        s
    }
}

/// What Rust's integer `parse` gives for a text holding no `-`: an
/// optional `+`, then one or more ASCII digits, with the value at most
/// `limit`.
pub open spec fn parse_unsigned(s: Seq<char>, limit: nat) -> Option<nat> {
    let body = unsigned_body(s);
    if body.len() > 0 && all_digits(body) && digits_value(body) <= limit {
        Some(digits_value(body))
    } else {
        None
    }
}

proof fn lemma_digits_prefix_le(s: Seq<char>, k: int)
    requires
        all_digits(s),
        0 <= k <= s.len(),
    ensures
        digits_value(s.take(k)) <= digits_value(s),
    decreases s.len(),
{
    if k < s.len() {
        let t = s.drop_last();
        assert(all_digits(t));
        assert(t.take(k) =~= s.take(k));
        lemma_digits_prefix_le(t, k);
    } else {
        assert(s.take(k) =~= s);
    }
}

proof fn lemma_digits_step(s: Seq<char>, start: int, i: int)
    requires
        0 <= start <= i < s.len(),
        all_digits(s.subrange(start, i)),
        is_digit(s[i]),
    ensures
        digits_value(s.subrange(start, i + 1)) == digits_value(s.subrange(start, i)) * 10
            + digit_of(s[i]),
        all_digits(s.subrange(start, i + 1)),
{
    let prev = s.subrange(start, i);
    let next = s.subrange(start, i + 1);
    assert(next.drop_last() =~= prev);
    assert(next.last() == s[i]);
    assert forall|k: int| 0 <= k < next.len() implies is_digit(#[trigger] next[k]) by {
        if k < prev.len() {
            assert(next[k] == prev[k]);
        }
    }
}

/// Parses the characters `s[from..to]` as an unsigned integer no larger
/// than `limit`.
fn parse_unsigned_range(s: &str, from: usize, to: usize, limit: u64) -> (r: Option<u64>)
    requires
        from <= to <= s@.len(),
        limit <= u32::MAX,
    ensures
        match r {
            Some(v) => parse_unsigned(s@.subrange(from as int, to as int), limit as nat) == Some(
                v as nat,
            ),
            None => parse_unsigned(s@.subrange(from as int, to as int), limit as nat) is None,
        },
{
    let ghost whole = s@.subrange(from as int, to as int);
    let mut i = from;
    if i < to && s.get_char(i) == '+' {
        i += 1;
    }
    let start = i;
    let ghost body = s@.subrange(start as int, to as int);
    assert(unsigned_body(whole) =~= body);
    if i == to {
        return None;
    }
    let mut acc: u64 = 0;
    while i < to
        invariant
            from <= start <= i <= to <= s@.len(),
            body == s@.subrange(start as int, to as int),
            unsigned_body(s@.subrange(from as int, to as int)) == body,
            limit <= u32::MAX,
            acc <= limit,
            acc == digits_value(s@.subrange(start as int, i as int)),
            all_digits(s@.subrange(start as int, i as int)),
        decreases to - i,
    {
        let c = s.get_char(i);
        let cu = c as u32;
        if cu < 48 || cu > 57 {
            assert(body[i - start] == c);
            assert(!is_digit(body[i - start]));
            return None;
        }
        let ghost prev = s@.subrange(start as int, i as int);
        proof {
            lemma_digits_step(s@, start as int, i as int);
        }
        assert(acc * 10 + (cu - 48) <= u32::MAX * 10 + 9) by (nonlinear_arith)
            requires
                acc <= u32::MAX,
                cu - 48 <= 9,
        ;
        acc = acc * 10 + (cu as u64 - 48);
        if acc > limit {
            proof {
                if all_digits(body) {
                    assert(body.take(i + 1 - start) =~= s@.subrange(start as int, i + 1));
                    lemma_digits_prefix_le(body, i + 1 - start);
                }
            }
            return None;
        }
        i += 1;
    }
    Some(acc)
}

/// `s` holds exactly two `-`, at positions `p1 < p2`.
pub open spec fn dashes_at(s: Seq<char>, p1: int, p2: int) -> bool {
    &&& 0 <= p1 < p2 < s.len()
    &&& s[p1] == '-'
    &&& s[p2] == '-'
    &&& forall|k: int| 0 <= k < s.len() && #[trigger] s[k] == '-' ==> k == p1 || k == p2
}

/// The three pieces of `s` between its two dashes, when it has exactly two.
pub open spec fn date_parts(s: Seq<char>) -> Option<(Seq<char>, Seq<char>, Seq<char>)> {
    if exists|p1: int, p2: int| dashes_at(s, p1, p2) {
        let (p1, p2) = choose|p1: int, p2: int| dashes_at(s, p1, p2);
        Some((s.take(p1), s.subrange(p1 + 1, p2), s.skip(p2 + 1)))
    } else {
        None
    }
}

/// `(year, month, day)` read from a `Y-M-D` text the way the app reads
/// it: split on `-` into exactly three pieces, the year parsed as an
/// `i32`, month and day as `u32`.
pub open spec fn date_triple(s: Seq<char>) -> Option<(int, int, int)> {
    match date_parts(s) {
        None => None,
        Some((a, b, c)) => match (
            parse_unsigned(a, i32::MAX as nat),
            parse_unsigned(b, u32::MAX as nat),
            parse_unsigned(c, u32::MAX as nat),
        ) {
            (Some(y), Some(m), Some(d)) => Some((y as int, m as int, d as int)),
            _ => None,
        },
    }
}

/// Splits a `Y-M-D` date into its numeric parts.
pub fn parse_date(s: &str) -> (r: Option<(i32, u32, u32)>)
    ensures
        match r {
            Some((y, m, d)) => date_triple(s@) == Some((y as int, m as int, d as int)),
            None => date_triple(s@) is None,
        },
{
    let n = s.unicode_len();
    let mut first: Option<usize> = None;
    let mut second: Option<usize> = None;
    let mut i: usize = 0;
    while i < n
        invariant
            n == s@.len(),
            i <= n,
            second.is_some() ==> first.is_some() && first.unwrap() < second.unwrap(),
            first.is_some() ==> first.unwrap() < i,
            second.is_some() ==> second.unwrap() < i,
            first.is_some() ==> s@[first.unwrap() as int] == '-',
            second.is_some() ==> s@[second.unwrap() as int] == '-',
            forall|k: int|
                0 <= k < i && #[trigger] s@[k] == '-' ==> (first == Some(k as usize) || second
                    == Some(k as usize)),
        decreases n - i,
    {
        if s.get_char(i) == '-' {
            if first.is_none() {
                first = Some(i);
            } else if second.is_none() {
                second = Some(i);
            } else {
                proof {
                    let a = first.unwrap() as int;
                    let b = second.unwrap() as int;
                    assert forall|p1: int, p2: int| !dashes_at(s@, p1, p2) by {
                        if dashes_at(s@, p1, p2) {
                            assert(s@[a] == '-');
                            assert(s@[b] == '-');
                            assert(s@[i as int] == '-');
                        }
                    }
                }
                return None;
            }
        }
        i += 1;
    }
    if second.is_none() {
        proof {
            assert forall|p1: int, p2: int| !dashes_at(s@, p1, p2) by {
                if dashes_at(s@, p1, p2) {
                    assert(s@[p1] == '-');
                    assert(s@[p2] == '-');
                }
            }
        }
        return None;
    }
    let p1 = first.unwrap();
    let p2 = second.unwrap();
    proof {
        assert(dashes_at(s@, p1 as int, p2 as int));
        let (q1, q2) = choose|q1: int, q2: int| dashes_at(s@, q1, q2);
        assert(s@[q1] == '-');
        assert(s@[q2] == '-');
        assert(q1 == p1 && q2 == p2);
        assert(s@.take(p1 as int) =~= s@.subrange(0, p1 as int));
        assert(s@.skip(p2 + 1) =~= s@.subrange(p2 + 1, n as int));
    }
    let y = parse_unsigned_range(s, 0, p1, 2147483647);
    let m = parse_unsigned_range(s, p1 + 1, p2, 4294967295);
    let d = parse_unsigned_range(s, p2 + 1, n, 4294967295);
    match (y, m, d) {
        (Some(y), Some(m), Some(d)) => Some((y as i32, m as u32, d as u32)),
        _ => None,
    }
}

} // verus!

verus! {

// ---------------------------------------------------------------------
// Day arithmetic
// ---------------------------------------------------------------------

/// Day number of a proleptic Gregorian date, with 1970-01-01 as day 0
/// (Howard Hinnant's `days_from_civil`). `/` and `%` are Euclidean here.
pub open spec fn civil_days(y: int, m: int, d: int) -> int {
    let yy = if m <= 2 { y - 1 } else { y };
    let era = yy / 400;
    let yoe = yy % 400;
    let doy = (153 * (if m > 2 { m - 3 } else { m + 9 }) + 2) / 5 + d - 1;
    let doe = yoe * 365 + yoe / 4 - yoe / 100 + doy;
    era * 146097 + doe - 719468
}

/// A leap year of the proleptic Gregorian calendar.
pub open spec fn leap_year(y: int) -> bool {
    y % 4 == 0 && (y % 100 != 0 || y % 400 == 0)
}

/// Days in month `m` of year `y`.
pub open spec fn month_days(y: int, m: int) -> int {
    if m == 2 {
        if leap_year(y) {
            29
        } else {
            28
        }
    } else if m == 4 || m == 6 || m == 9 || m == 11 {
        30
    } else {
        31
    }
}

/// A real calendar date.
pub open spec fn valid_date(y: int, m: int, d: int) -> bool {
    1 <= m <= 12 && 1 <= d <= month_days(y, m)
}

/// The calendar day after `y`-`m`-`d`.
pub open spec fn next_date(y: int, m: int, d: int) -> (int, int, int) {
    if d < month_days(y, m) {
        (y, m, d + 1)
    } else if m < 12 {
        (y, m + 1, 1)
    } else {
        (y + 1, 1, 1)
    }
}

/// The day-of-year step subtracts one after adding the day; with
/// unsigned arithmetic that underflows exactly for month 3, day 0.
pub open spec fn civil_ok(m: int, d: int) -> bool {
    !(m == 3 && d == 0)
}

/// A date text whose parse, if any, can be turned into a day number.
pub open spec fn date_ok(s: Seq<char>) -> bool {
    match date_triple(s) {
        Some((_, m, d)) => civil_ok(m, d),
        None => true,
    }
}

/// Day number of a calendar date.
pub fn days_from_civil(y: i32, m: u32, d: u32) -> (r: i64)
    requires
        civil_ok(m as int, d as int),
    ensures
        r == civil_days(y as int, m as int, d as int),
        -0x100_0000_0000 < r < 0x100_0000_0000,
        (y, m, d) == (1970i32, 1u32, 1u32) ==> r == 0,
        valid_date(y as int, m as int, d as int) ==> ({
            let (y2, m2, d2) = next_date(y as int, m as int, d as int);
            civil_days(y2, m2, d2) == r + 1
        }),
{
    proof {
        crate::laws::law_civil_days_epoch();
        if valid_date(y as int, m as int, d as int) {
            crate::laws::law_next_date_is_next_day(y as int, m as int, d as int);
        }
    }
    let yy: i64 = if m <= 2 { y as i64 - 1 } else { y as i64 };
    let (era, yoe): (i64, i64) = if yy >= 0 {
        (yy / 400, yy % 400)
    } else {
        let t: i64 = -yy;
        let c: i64 = (t + 399) / 400;
        (-c, c * 400 - t)
    };
    proof {
        if yy < 0 {
            let t = -yy;
            let c = (t + 399) / 400;
            assert(c * 400 <= t + 399 < c * 400 + 400) by (nonlinear_arith)
                requires
                    c == (t + 399) / 400,
                    t > 0,
            ;
        }
        vstd::arithmetic::div_mod::lemma_fundamental_div_mod_converse(
            yy as int,
            400,
            era as int,
            yoe as int,
        );
    }
    let yoe = yoe as u64;
    let mm = m as u64;
    let dd = d as u64;
    let shifted: u64 = if mm > 2 { mm - 3 } else { mm + 9 };
    let doy = (153 * shifted + 2) / 5 + dd - 1;
    let doe = yoe * 365 + yoe / 4 - yoe / 100 + doy;
    era * 146097 + doe as i64 - 719468
}

} // verus!

verus! {

/// Days from date `a` to date `b`; 999 when either does not parse.
pub open spec fn days_between_spec(a: Seq<char>, b: Seq<char>) -> int {
    match (date_triple(a), date_triple(b)) {
        (Some((y1, m1, d1)), Some((y2, m2, d2))) => civil_days(y2, m2, d2) - civil_days(
            y1,
            m1,
            d1,
        ),
        _ => 999,
    }
}

/// Signed number of days from `a` to `b` (999 if either is not a date).
pub fn days_between(a: &str, b: &str) -> (r: i64)
    requires
        date_ok(a@),
        date_ok(b@),
    ensures
        r == days_between_spec(a@, b@),
{
    let da = parse_date(a);
    let db = parse_date(b);
    match (da, db) {
        (Some((y1, m1, d1)), Some((y2, m2, d2))) => {
            let x = days_from_civil(y1, m1, d1);
            let z = days_from_civil(y2, m2, d2);
            z - x
        },
        _ => 999,
    }
}

/// Day of the week of day number `days`, Sunday = 0 (day 0 was a Thursday).
pub open spec fn weekday_index(days: int) -> int {
    (days + 4) % 7
}

pub open spec fn weekday_label(i: int) -> Seq<char> {
    if i == 0 {
        "Sunday"@
    } else if i == 1 {
        "Monday"@
    } else if i == 2 {
        "Tuesday"@
    } else if i == 3 {
        "Wednesday"@
    } else if i == 4 {
        "Thursday"@
    } else if i == 5 {
        "Friday"@
    } else if i == 6 {
        "Saturday"@
    } else {
        ""@
    }
}

/// English weekday name of a date text, or empty when it does not parse.
pub open spec fn weekday_of(s: Seq<char>) -> Seq<char> {
    match date_triple(s) {
        Some((y, m, d)) => weekday_label(weekday_index(civil_days(y, m, d))),
        None => ""@,
    }
}

fn weekday_of_days(days: i64) -> (i: i64)
    requires
        -0x100_0000_0000 < days < 0x100_0000_0000,
    ensures
        i == weekday_index(days as int),
        0 <= i < 7,
{
    let wd: i64 = if days >= 0 {
        (days % 7 + 4) % 7
    } else {
        let t: i64 = -days;
        (11 - t % 7) % 7
    };
    proof {
        let x = days as int + 4;
        if days >= 0 {
            let q = days as int / 7;
            let r = days as int % 7;
            let q2 = (r + 4) / 7;
            assert(days == q * 7 + r) by (nonlinear_arith)
                requires
                    days >= 0,
                    q == days / 7,
                    r == days % 7,
            ;
            assert(r + 4 == q2 * 7 + wd) by (nonlinear_arith)
                requires
                    r + 4 >= 0,
                    q2 == (r + 4) / 7,
                    wd == (r + 4) % 7,
            ;
            vstd::arithmetic::div_mod::lemma_fundamental_div_mod_converse(x, 7, q + q2, wd as int);
        } else {
            let t = -days as int;
            let q = t / 7;
            let r = t % 7;
            let q2 = (11 - r) / 7;
            assert(t == q * 7 + r) by (nonlinear_arith)
                requires
                    t >= 0,
                    q == t / 7,
                    r == t % 7,
            ;
            assert(11 - r == q2 * 7 + wd) by (nonlinear_arith)
                requires
                    11 - r >= 0,
                    q2 == (11 - r) / 7,
                    wd == (11 - r) % 7,
            ;
            vstd::arithmetic::div_mod::lemma_fundamental_div_mod_converse(
                x,
                7,
                q2 - q - 1,
                wd as int,
            );
        }
    }
    wd
}

fn weekday_name_of_index(i: i64) -> (s: &'static str)
    ensures
        s@ == weekday_label(i as int),
{
    if i == 0 {
        "Sunday"
    } else if i == 1 {
        "Monday"
    } else if i == 2 {
        "Tuesday"
    } else if i == 3 {
        "Wednesday"
    } else if i == 4 {
        "Thursday"
    } else if i == 5 {
        "Friday"
    } else if i == 6 {
        "Saturday"
    } else {
        ""
    }
}

/// Weekday name (`"Friday"`) of a date text; empty if it is not a date.
pub fn weekday_name(date_str: &str) -> (s: &'static str)
    requires
        date_ok(date_str@),
    ensures
        s@ == weekday_of(date_str@),
{
    match parse_date(date_str) {
        None => "",
        Some((y, m, d)) => {
            let days = days_from_civil(y, m, d);
            weekday_name_of_index(weekday_of_days(days))
        },
    }
}

/// Three-letter month abbreviation; month 0 reads as empty and anything
/// past December as `???`.
pub open spec fn month_abbr(m: int) -> Seq<char> {
    if m == 0 {
        ""@
    } else if m == 1 {
        "Jan"@
    } else if m == 2 {
        "Feb"@
    } else if m == 3 {
        "Mar"@
    } else if m == 4 {
        "Apr"@
    } else if m == 5 {
        "May"@
    } else if m == 6 {
        "Jun"@
    } else if m == 7 {
        "Jul"@
    } else if m == 8 {
        "Aug"@
    } else if m == 9 {
        "Sep"@
    } else if m == 10 {
        "Oct"@
    } else if m == 11 {
        "Nov"@
    } else if m == 12 {
        "Dec"@
    } else {
        "???"@
    }
}

fn month_name(m: u32) -> (s: &'static str)
    ensures
        s@ == month_abbr(m as int),
{
    if m == 0 {
        ""
    } else if m == 1 {
        "Jan"
    } else if m == 2 {
        "Feb"
    } else if m == 3 {
        "Mar"
    } else if m == 4 {
        "Apr"
    } else if m == 5 {
        "May"
    } else if m == 6 {
        "Jun"
    } else if m == 7 {
        "Jul"
    } else if m == 8 {
        "Aug"
    } else if m == 9 {
        "Sep"
    } else if m == 10 {
        "Oct"
    } else if m == 11 {
        "Nov"
    } else if m == 12 {
        "Dec"
    } else {
        "???"
    }
}

/// `"Apr 10"` for `2026-04-10`; the text itself when it is not a date.
pub open spec fn short_date(s: Seq<char>) -> Seq<char> {
    match date_triple(s) {
        Some((_, m, d)) => month_abbr(m) + " "@ + decimal(d as nat),
        None => s,
    }
}

/// Short month-and-day form of a date text.
pub fn format_short_date(date_str: &str) -> (r: String)
    ensures
        r@ == short_date(date_str@),
{
    match parse_date(date_str) {
        None => String::from_str(date_str),
        Some((_, m, d)) => {
            let mut out = String::from_str(month_name(m));
            out.append(" ");
            push_decimal(&mut out, d as u64);
            out
        },
    }
}

} // verus!

verus! {

// ---------------------------------------------------------------------
// Labels
// ---------------------------------------------------------------------

/// Whether the recurring/relative branch of `due_label` names a weekday.
pub open spec fn label_names_weekday(due: Due, days_away: int) -> bool {
    !(!due.is_recurring && due.string is Some && due.string.unwrap()@.len() > 0) && ((-6
        <= days_away <= -2) || (2 <= days_away <= 6))
}

/// The text shown for a due date `days_away` days from today: what the
/// user typed for a one-off task; otherwise today / tomorrow / yesterday,
/// a weekday within six days, or the short date.
pub open spec fn due_label(due: Due, days_away: int) -> Seq<char> {
    if !due.is_recurring && due.string is Some && due.string.unwrap()@.len() > 0 {
        due.string.unwrap()@
    } else if days_away == 0 {
        "today"@
    } else if days_away == 1 {
        "tomorrow"@
    } else if days_away == -1 {
        "yesterday"@
    } else if (-6 <= days_away <= -2) || (2 <= days_away <= 6) {
        weekday_of(due.date@)
    } else {
        short_date(due.date@)
    }
}

/// Human label for a due date that is `days_away` days from today.
pub fn display_label(due: &Due, days_away: i64) -> (r: String)
    requires
        label_names_weekday(*due, days_away as int) ==> date_ok(due.date@),
    ensures
        r@ == due_label(*due, days_away as int),
{
    if !due.is_recurring {
        if let Some(s) = &due.string {
            if !s.as_str().is_empty() {
                return s.clone();
            }
        }
    }
    if days_away == 0 {
        String::from_str("today")
    } else if days_away == 1 {
        String::from_str("tomorrow")
    } else if days_away == -1 {
        String::from_str("yesterday")
    } else if (-6 <= days_away && days_away <= -2) || (2 <= days_away && days_away <= 6) {
        String::from_str(weekday_name(due.date.as_str()))
    } else {
        format_short_date(due.date.as_str())
    }
}

/// How close a due date is, which picks its colour.
#[derive(Clone, Copy, Debug, PartialEq, Eq, Structural)]
pub enum DueUrgency {
    Overdue,
    Today,
    Upcoming,
    Future,
}

pub open spec fn urgency_of(days_away: int) -> DueUrgency {
    if days_away < 0 {
        DueUrgency::Overdue
    } else if days_away == 0 {
        DueUrgency::Today
    } else if days_away <= 6 {
        DueUrgency::Upcoming
    } else {
        DueUrgency::Future
    }
}

/// A due date rendered for a task row.
#[derive(Clone, Debug)]
pub struct FormattedDue {
    pub text: String,
    pub urgency: DueUrgency,
}

/// Label and urgency of `due` as seen on day `today`.
pub fn format_due_on(due: &Due, today: &str) -> (r: FormattedDue)
    requires
        date_ok(today@),
        date_ok(due.date@),
    ensures
        r.text@ == due_label(*due, days_between_spec(today@, due.date@)),
        r.urgency == urgency_of(days_between_spec(today@, due.date@)),
{
    let days_away = days_between(today, due.date.as_str());
    let text = display_label(due, days_away);
    let urgency = if days_away < 0 {
        DueUrgency::Overdue
    } else if days_away == 0 {
        DueUrgency::Today
    } else if days_away <= 6 {
        DueUrgency::Upcoming
    } else {
        DueUrgency::Future
    };
    FormattedDue { text, urgency }
}

/// Label and urgency of `due` as seen today (local time).
pub fn format_due(due: &Due) -> (r: FormattedDue)
    requires
        date_ok(due.date@),
    ensures
        exists|today: Seq<char>|
            date_ok(today) && r.text@ == #[trigger] due_label(*due, days_between_spec(today, due.date@))
                && r.urgency == urgency_of(days_between_spec(today, due.date@)),
{
    let today = today_str();
    format_due_on(due, today.as_str())
}

/// Section header for the Upcoming view: `"15 Apr · Today · Wednesday"`,
/// `"16 Apr · Tomorrow · Thursday"`, `"1 Apr · Overdue · Tuesday"`, or
/// `"17 Apr · Friday"` further out.
pub open spec fn upcoming_header(date: Seq<char>, today: Seq<char>) -> Seq<char> {
    let days = days_between_spec(today, date);
    let (m, d) = match date_triple(date) {
        Some((_, m, d)) => (m, d),
        None => (0, 0),
    };
    let prefix = decimal(d as nat) + " "@ + month_abbr(m) + " · "@;
    if days == 0 {
        prefix + "Today"@ + " · "@ + weekday_of(date)
    } else if days == 1 {
        prefix + "Tomorrow"@ + " · "@ + weekday_of(date)
    } else if days < 0 {
        prefix + "Overdue"@ + " · "@ + weekday_of(date)
    } else {
        prefix + weekday_of(date)
    }
}

/// Upcoming-view header for `date_str` as seen on day `today`.
pub fn upcoming_header_on(date_str: &str, today: &str) -> (r: String)
    requires
        date_ok(today@),
        date_ok(date_str@),
    ensures
        r@ == upcoming_header(date_str@, today@),
{
    let days_away = days_between(today, date_str);
    let (m, d) = match parse_date(date_str) {
        Some((_, m, d)) => (m, d),
        None => (0, 0),
    };
    let weekday = weekday_name(date_str);
    let mut out = String::new();
    push_decimal(&mut out, d as u64);
    out.append(" ");
    out.append(month_name(m));
    out.append(" · ");
    if days_away == 0 {
        out.append("Today");
        out.append(" · ");
    } else if days_away == 1 {
        out.append("Tomorrow");
        out.append(" · ");
    } else if days_away < 0 {
        out.append("Overdue");
        out.append(" · ");
    }
    out.append(weekday);
    proof {
        let prefix = decimal(d as nat) + " "@ + month_abbr(m as int) + " · "@;
        assert(Seq::<char>::empty() + decimal(d as nat) + " "@ + month_abbr(m as int) + " · "@
            =~= prefix);
    }
    out
}

/// Upcoming-view header for `date_str` as seen today (local time).
pub fn format_upcoming_header(date_str: &str) -> (r: String)
    requires
        date_ok(date_str@),
    ensures
        exists|today: Seq<char>| date_ok(today) && r@ == #[trigger] upcoming_header(date_str@, today),
{
    let today = today_str();
    upcoming_header_on(date_str, today.as_str())
}

/// Whether any label is exactly `name`.
pub open spec fn has_label(labels: Seq<String>, name: Seq<char>) -> bool {
    exists|i: int| 0 <= i < labels.len() && (#[trigger] labels[i])@ == name
}

pub fn contains_label(labels: &Vec<String>, name: &str) -> (r: bool)
    ensures
        r == has_label(labels@, name@),
{
    let mut i: usize = 0;
    while i < labels.len()
        invariant
            i <= labels.len(),
            forall|j: int| 0 <= j < i ==> (#[trigger] labels@[j])@ != name@,
        decreases labels.len() - i,
    {
        if str_eq(labels[i].as_str(), name) {
            return true;
        }
        i += 1;
    }
    false
}

/// A task labelled `evening` stays out of Today and All until 17:00.
pub fn evening_task_hidden(labels: &Vec<String>, current_hour: u32) -> (r: bool)
    ensures
        r == (current_hour < 17 && has_label(labels@, "evening"@)),
{
    current_hour < 17 && contains_label(labels, "evening")
}

/// A task labelled `work` stays out of Today and All on weekends.
pub fn work_weekend_hidden(labels: &Vec<String>, is_weekend: bool) -> (r: bool)
    ensures
        r == (is_weekend && has_label(labels@, "work"@)),
{
    is_weekend && contains_label(labels, "work")
}

/// The minutes after midnight a label names when it reads as a time of
/// day: an hour of 1 to 12 in one or two digits, optionally `:` and two
/// digits of minutes below 60, then `am` or `pm`, lowercase, no spaces.
/// `12am` is midnight and `12pm` noon.
pub open spec fn label_time(s: Seq<char>) -> Option<int> {
    let n = s.len() as int;
    if n < 3 {
        None
    } else {
        let pm = s[n - 2] == 'p' && s[n - 1] == 'm';
        let am = s[n - 2] == 'a' && s[n - 1] == 'm';
        let b = s.take(n - 2);
        let colon = b.len() >= 4 && b[b.len() - 3] == ':';
        let hs = if colon {
            b.take(b.len() - 3)
        } else {
            b
        };
        let ms = if colon {
            b.subrange(b.len() - 2, b.len() as int)
        } else {
            seq!['0']
        };
        let h = crate::text::digits_value(hs);
        let m = crate::text::digits_value(ms);
        if (am || pm) && 1 <= hs.len() <= 2 && crate::text::all_digits(hs) && crate::text::all_digits(ms) && 1 <= h
            <= 12 && m < 60 {
            Some(((if h == 12 {
                0
            } else {
                h
            }) + (if pm {
                12int
            } else {
                0int
            })) * 60 + m)
        } else {
            None
        }
    }
}

/// Some label of a task names a time of day later than `now` (minutes
/// after midnight).
pub open spec fn time_label_pending(labels: Seq<String>, now: int) -> bool {
    exists|i: int| 0 <= i < labels.len() && (label_time((#[trigger] labels[i])@) matches Some(t) && now < t)
}

fn digit_run_value(s: &str, from: usize, to: usize) -> (r: Option<u32>)
    requires
        from <= to <= s@.len(),
        to - from <= 2,
    ensures
        match r {
            Some(v) => crate::text::all_digits(s@.subrange(from as int, to as int)) && v as int
                == crate::text::digits_value(s@.subrange(from as int, to as int)),
            None => !crate::text::all_digits(s@.subrange(from as int, to as int)),
        },
{
    let mut v: u32 = 0;
    let mut i = from;
    while i < to
        invariant
            from <= i <= to <= s@.len(),
            to - from <= 2,
            crate::text::all_digits(s@.subrange(from as int, i as int)),
            v as int == crate::text::digits_value(s@.subrange(from as int, i as int)),
            v < 100,
            i - from <= 1 ==> v < 10,
        decreases to - i,
    {
        let c = s.get_char(i);
        let ghost pre = s@.subrange(from as int, i as int);
        let ghost next = s@.subrange(from as int, i + 1);
        assert(next.drop_last() =~= pre);
        assert(next.last() == c);
        if c < '0' || c > '9' {
            proof {
                assert(s@.subrange(from as int, to as int)[i - from] == c);
            }
            return None;
        }
        assert(crate::text::all_digits(next)) by {
            assert forall|k: int| 0 <= k < next.len() implies '0' <= #[trigger] next[k] <= '9' by {
                if k < pre.len() {
                    assert(next[k] == pre[k]);
                }
            }
        }
        v = v * 10 + (c as u32 - '0' as u32);
        i += 1;
    }
    Some(v)
}

/// The minutes after midnight that label `s` names, if it reads as a time
/// of day.
pub fn label_minutes(s: &str) -> (r: Option<u32>)
    ensures
        match r {
            Some(v) => label_time(s@) == Some(v as int),
            None => label_time(s@) is None,
        },
{
    let n = s.unicode_len();
    if n < 3 {
        return None;
    }
    let p = s.get_char(n - 2);
    let last = s.get_char(n - 1);
    let pm = p == 'p' && last == 'm';
    let am = p == 'a' && last == 'm';
    if !(am || pm) {
        return None;
    }
    let bl = n - 2;
    let ghost b = s@.take(bl as int);
    let colon = bl >= 4 && s.get_char(bl - 3) == ':';
    proof {
        if bl >= 4 {
            assert(b[bl - 3] == s@[bl - 3]);
        }
    }
    let hend: usize = if colon {
        bl - 3
    } else {
        bl
    };
    if hend < 1 || hend > 2 {
        proof {
            assert(label_time(s@) is None);
        }
        return None;
    }
    let ghost hs = b.take(hend as int);
    assert(hs =~= s@.subrange(0, hend as int));
    let h = match digit_run_value(s, 0, hend) {
        Some(h) => h,
        None => return None,
    };
    let m: u32 = if colon {
        let ghost ms = b.subrange(bl - 2, bl as int);
        assert(ms =~= s@.subrange(bl - 2, bl as int));
        match digit_run_value(s, bl - 2, bl) {
            Some(m) => m,
            None => return None,
        }
    } else {
        proof {
            assert(crate::text::digits_value(seq!['0']) == 0) by {
                reveal_with_fuel(crate::text::digits_value, 2);
                assert(seq!['0'].drop_last() =~= Seq::<char>::empty());
            }
            assert(crate::text::all_digits(seq!['0']));
        }
        0
    };
    if h < 1 || h > 12 || m >= 60 {
        return None;
    }
    let hour24: u32 = (if h == 12 {
        0
    } else {
        h
    }) + (if pm {
        12
    } else {
        0
    });
    Some(hour24 * 60 + m)
}

/// Whether a label still names a time of day later than `hour`:`minute`,
/// hiding the task from Today and All until then.
pub fn time_label_hidden(labels: &Vec<String>, hour: u32, minute: u32) -> (r: bool)
    ensures
        r == time_label_pending(labels@, hour * 60 + minute),
{
    let now: u64 = hour as u64 * 60 + minute as u64;
    let mut i: usize = 0;
    while i < labels.len()
        invariant
            i <= labels.len(),
            now == hour * 60 + minute,
            forall|j: int|
                0 <= j < i ==> !(label_time((#[trigger] labels@[j])@) matches Some(t) && now < t),
        decreases labels.len() - i,
    {
        match label_minutes(labels[i].as_str()) {
            Some(t) => {
                if now < t as u64 {
                    assert(label_time(labels@[i as int]@) matches Some(t2) && now < t2);
                    return true;
                }
            },
            None => {},
        }
        i += 1;
    }
    false
}

// ---------------------------------------------------------------------
// The local clock
// ---------------------------------------------------------------------

/// A date text as chrono's `%Y-%m-%d` writes a real date: a valid
/// calendar date with a four-digit year, or, for a year past 9999, a text
/// starting with `+` (chrono writes such years with a sign).
pub open spec fn written_date(s: Seq<char>) -> bool {
    ||| date_triple(s) matches Some((y, m, d)) && valid_date(y, m, d)
    ||| s.len() > 0 && s[0] == '+'
}

/// A date text that the local clock can give: as `written_date`, and a
/// four-digit year is 1969 or later (chrono's `Utc::now` panics before the
/// Unix epoch, and a local offset is less than a day).
pub open spec fn clock_date(s: Seq<char>) -> bool {
    ||| date_triple(s) matches Some((y, m, d)) && y >= 1969 && valid_date(y, m, d)
    ||| s.len() > 0 && s[0] == '+'
}

/// Today's local date as `YYYY-MM-DD`, from `chrono::Local::now()`
/// (which is `Utc::now()` moved to the local offset, and `Utc::now()`
/// panics on a clock set before 1970) formatted with `%Y-%m-%d`. chrono
/// writes a year in 1000..=9999 as four digits and a larger one with a
/// leading `+`, and `%m`/`%d` as the two-digit month and day of a real
/// date. Which date it is depends on the clock.
#[verifier::external_body]
pub fn today_str() -> (s: String)
    ensures
        date_ok(s@),
        clock_date(s@),
{
    chrono::Local::now().date_naive().format("%Y-%m-%d").to_string()
}

/// The local hour from `chrono::Local::now()`; chrono's `Timelike::hour`
/// is documented to lie in 0..=23. The value depends on the clock.
#[verifier::external_body]
pub fn current_local_hour() -> (h: u32)
    ensures
        h < 24,
{
    chrono::Timelike::hour(&chrono::Local::now())
}

/// The local minute from `chrono::Local::now()`; chrono's
/// `Timelike::minute` is documented to lie in 0..=59. The value depends on
/// the clock.
#[verifier::external_body]
pub(crate) fn current_local_minute() -> (m: u32)
    ensures
        m < 60,
{
    chrono::Timelike::minute(&chrono::Local::now())
}

/// Today's ISO weekday number in local time (Monday 1 .. Sunday 7), from
/// `chrono::Local::now().weekday().number_from_monday()`, which chrono
/// documents as 1 to 7. Which day it is depends on the clock.
#[verifier::external_body]
fn local_weekday_number() -> (n: u32)
    ensures
        1 <= n <= 7,
{
    chrono::Datelike::weekday(&chrono::Local::now()).number_from_monday()
}

/// Whether today (local time) is a Saturday or Sunday.
pub(crate) fn is_weekend_local() -> bool {
    let n = local_weekday_number();
    n >= 6
}

/// The local date `days` days from today as `YYYY-MM-DD`, computed with
/// `chrono` (`date_naive() + Duration::days(days)`). As for `today_str`,
/// chrono writes a real date, its year as four digits from 1000 to 9999
/// and with a leading `+` above; today is 1969 or later and the offset is
/// under 274 years, so no earlier year arises. The date itself depends on
/// the clock. The bound keeps `Duration::days` and the date addition
/// inside chrono's range for any present-day clock.
#[verifier::external_body]
pub fn offset_days_str(days: i64) -> (s: String)
    requires
        -100_000 <= days <= 100_000,
    ensures
        date_ok(s@),
        written_date(s@),
{
    let today = chrono::Local::now().date_naive();
    (today + chrono::Duration::days(days)).format("%Y-%m-%d").to_string()
}

} // verus!
