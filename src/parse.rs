use vstd::prelude::*;

use crate::field::{field_in_range, in_range, FieldItem};
use crate::schedule::CronSchedule;
use crate::text::chars_of;
use crate::schedule::CronSpec;
use crate::unit::{user_view, EnvVar, JobEntry, Period, Schedule, ScheduleSpec};

verus! {

/// The five numeric fields, for diagnostics.
#[derive(Clone, Copy, Debug, PartialEq, Eq, Structural)]
pub enum FieldName {
    Minutes,
    Hours,
    Days,
    Months,
    Weekdays,
}

/// Why a line is not a crontab entry.
#[derive(Clone, Debug)]
pub enum ParseError {
    /// The line ends before this field.
    MissingField(FieldName),
    /// The token of this field is malformed or out of bounds.
    BadField(FieldName, String),
    /// An `@` word that names no schedule.
    UnknownKeyword(String),
    /// A system crontab line ends before its user.
    MissingUser,
    /// An assignment whose value starts with a character outside ASCII, or
    /// starts with a quote and ends with a character outside ASCII.
    NonAsciiValue,
}

/// A malformed line, with its 1-based number and its text.
#[derive(Clone, Debug)]
pub struct LineError {
    pub line: usize,
    pub text: String,
    pub error: ParseError,
}

/// A line that is neither blank nor a comment.
#[derive(Clone, Debug)]
pub enum Entry {
    Env(EnvVar),
    Job(JobEntry),
}

pub enum ErrorSpec {
    MissingField(FieldName),
    BadField(FieldName, Seq<char>),
    UnknownKeyword(Seq<char>),
    MissingUser,
    NonAsciiValue,
}

/// What a line holds.
pub enum LineSpec {
    Skip,
    Env(Seq<char>, Seq<char>),
    Job(ScheduleSpec, Option<Seq<char>>, Seq<char>),
    Error(ErrorSpec),
}

pub open spec fn sp(c: char) -> bool {
    c == ' ' || c == '\t'
}

/// The first index from `i` on that holds no blank, or the length.
pub open spec fn skip_ws(s: Seq<char>, i: int) -> int
    decreases s.len() - i,
{
    if i < 0 || i >= s.len() {
        s.len() as int
    } else if sp(s[i]) {
        skip_ws(s, i + 1)
    } else {
        i
    }
}

/// The first index from `i` on that holds a blank, or the length.
pub open spec fn tok_end(s: Seq<char>, i: int) -> int
    decreases s.len() - i,
{
    if i < 0 || i >= s.len() {
        s.len() as int
    } else if sp(s[i]) {
        i
    } else {
        tok_end(s, i + 1)
    }
}

/// The first index in `i .. hi` that holds `c`, or `hi`.
pub open spec fn find_from(s: Seq<char>, i: int, hi: int, c: char) -> int
    decreases hi - i,
{
    if i >= hi {
        hi
    } else if s[i] == c {
        i
    } else {
        find_from(s, i + 1, hi, c)
    }
}

pub open spec fn is_digit(c: char) -> bool {
    '0' <= c && c <= '9'
}

/// The value of the digits in `lo .. hi`.
pub open spec fn digits_value(s: Seq<char>, lo: int, hi: int) -> nat
    decreases hi - lo,
{
    if hi <= lo {
        0
    } else {
        10 * digits_value(s, lo, hi - 1) + ((s[hi - 1] as u32) - 48) as nat
    }
}

/// A decimal number of at most 255 in `lo .. hi`.
pub open spec fn number(s: Seq<char>, lo: int, hi: int) -> Option<u8> {
    if lo < hi && (forall|k: int| lo <= k < hi ==> is_digit(#[trigger] s[k])) && digits_value(s, lo, hi)
        <= 255 {
        Some(digits_value(s, lo, hi) as u8)
    } else {
        None
    }
}

/// A letter in lower case.
pub open spec fn lower(c: char) -> char {
    if 'A' <= c && c <= 'Z' {
        ((c as u8) + 32) as char
    } else {
        c
    }
}

/// The month named by three lower-case letters.
pub open spec fn month_named(a: char, b: char, c: char) -> Option<u8> {
    if a == 'j' && b == 'a' && c == 'n' { Some(1) }
    else if a == 'f' && b == 'e' && c == 'b' { Some(2) }
    else if a == 'm' && b == 'a' && c == 'r' { Some(3) }
    else if a == 'a' && b == 'p' && c == 'r' { Some(4) }
    else if a == 'm' && b == 'a' && c == 'y' { Some(5) }
    else if a == 'j' && b == 'u' && c == 'n' { Some(6) }
    else if a == 'j' && b == 'u' && c == 'l' { Some(7) }
    else if a == 'a' && b == 'u' && c == 'g' { Some(8) }
    else if a == 's' && b == 'e' && c == 'p' { Some(9) }
    else if a == 'o' && b == 'c' && c == 't' { Some(10) }
    else if a == 'n' && b == 'o' && c == 'v' { Some(11) }
    else if a == 'd' && b == 'e' && c == 'c' { Some(12) }
    else { None }
}

/// The weekday named by three lower-case letters, 0 being Sunday.
pub open spec fn weekday_named(a: char, b: char, c: char) -> Option<u8> {
    if a == 's' && b == 'u' && c == 'n' { Some(0) }
    else if a == 'm' && b == 'o' && c == 'n' { Some(1) }
    else if a == 't' && b == 'u' && c == 'e' { Some(2) }
    else if a == 'w' && b == 'e' && c == 'd' { Some(3) }
    else if a == 't' && b == 'h' && c == 'u' { Some(4) }
    else if a == 'f' && b == 'r' && c == 'i' { Some(5) }
    else if a == 's' && b == 'a' && c == 't' { Some(6) }
    else { None }
}

/// A value in `lo .. hi`: a number, or in the month and day-of-week fields
/// a three-letter English name in any case.
pub open spec fn atom(s: Seq<char>, lo: int, hi: int, which: FieldName) -> Option<u8> {
    match number(s, lo, hi) {
        Some(v) => Some(v),
        None => if hi - lo != 3 {
            None
        } else if which == FieldName::Months {
            month_named(lower(s[lo]), lower(s[lo + 1]), lower(s[lo + 2]))
        } else if which == FieldName::Weekdays {
            weekday_named(lower(s[lo]), lower(s[lo + 1]), lower(s[lo + 2]))
        } else {
            None
        },
    }
}

/// One list element in `lo .. hi`: `*`, `*/N`, `A`, `A-B` or `A-B/N`.
pub open spec fn item_at(s: Seq<char>, lo: int, hi: int, which: FieldName) -> Option<FieldItem> {
    let k = find_from(s, lo, hi, '/');
    let step = if k == hi {
        Some(1u8)
    } else {
        number(s, k + 1, hi)
    };
    if k > lo && k - lo == 1 && s[lo] == '*' {
        match step {
            Some(st) => Some(FieldItem::Full(st)),
            None => None,
        }
    } else {
        let h = find_from(s, lo, k, '-');
        if h == k {
            if k < hi {
                None
            } else {
                match atom(s, lo, k, which) {
                    Some(v) => Some(FieldItem::Value(v)),
                    None => None,
                }
            }
        } else {
            match (atom(s, lo, h, which), atom(s, h + 1, k, which), step) {
                (Some(a), Some(b), Some(st)) => Some(FieldItem::Range(a, b, st)),
                _ => None,
            }
        }
    }
}

/// The comma-separated items in `lo .. hi`.
pub open spec fn items_at(s: Seq<char>, lo: int, hi: int, which: FieldName) -> Option<Seq<FieldItem>>
    decreases hi - lo,
{
    let k = find_from(s, lo, hi, ',');
    if lo > hi || k < lo || k > hi {
        None
    } else {
        match item_at(s, lo, k, which) {
            None => None,
            Some(it) => if k >= hi {
                Some(seq![it])
            } else {
                match items_at(s, k + 1, hi, which) {
                    None => None,
                    Some(rest) => Some(seq![it] + rest),
                }
            },
        }
    }
}

pub open spec fn bounds(which: FieldName) -> (int, int) {
    match which {
        FieldName::Minutes => (0, 59),
        FieldName::Hours => (0, 23),
        FieldName::Days => (1, 31),
        FieldName::Months => (1, 12),
        FieldName::Weekdays => (0, 7),
    }
}

/// The field that starts at or after `i`, and the index where its token ends.
pub open spec fn field_at(s: Seq<char>, i: int, which: FieldName) -> Result<(Seq<FieldItem>, int), ErrorSpec> {
    let j = skip_ws(s, i);
    let e = tok_end(s, j);
    if j >= s.len() {
        Err(ErrorSpec::MissingField(which))
    } else {
        match items_at(s, j, e, which) {
            Some(f) => if field_in_range(f, bounds(which).0, bounds(which).1) {
                Ok((f, e))
            } else {
                Err(ErrorSpec::BadField(which, s.subrange(j, e)))
            },
            None => Err(ErrorSpec::BadField(which, s.subrange(j, e))),
        }
    }
}

/// The five fields from index `i` on, and where the last one ends.
pub open spec fn calendar_at(s: Seq<char>, i: int) -> Result<(ScheduleSpec, int), ErrorSpec> {
    match field_at(s, i, FieldName::Minutes) {
        Err(e) => Err(e),
        Ok((mi, i1)) => match field_at(s, i1, FieldName::Hours) {
            Err(e) => Err(e),
            Ok((h, i2)) => match field_at(s, i2, FieldName::Days) {
                Err(e) => Err(e),
                Ok((d, i3)) => match field_at(s, i3, FieldName::Months) {
                    Err(e) => Err(e),
                    Ok((mo, i4)) => match field_at(s, i4, FieldName::Weekdays) {
                        Err(e) => Err(e),
                        Ok((w, i5)) => Ok((
                            ScheduleSpec::Calendar(CronSpec { minutes: mi, hours: h, days: d, months: mo, weekdays: w }),
                            i5,
                        )),
                    },
                },
            },
        },
    }
}

/// The schedule named by an `@` word (the word without its `@`).
pub open spec fn keyword_of(w: Seq<char>) -> Option<Period> {
    if w == "reboot"@ {
        Some(Period::Reboot)
    } else if w == "minutely"@ {
        Some(Period::Minutely)
    } else if w == "hourly"@ {
        Some(Period::Hourly)
    } else if w == "daily"@ || w == "midnight"@ {
        Some(Period::Daily)
    } else if w == "weekly"@ {
        Some(Period::Weekly)
    } else if w == "monthly"@ {
        Some(Period::Monthly)
    } else if w == "quarterly"@ {
        Some(Period::Quarterly)
    } else if w == "semi-annually"@ || w == "semiannually"@ || w == "biannually"@ {
        Some(Period::SemiAnnually)
    } else if w == "yearly"@ || w == "annually"@ {
        Some(Period::Yearly)
    } else {
        None
    }
}

/// The schedule at the start of a job line, and where it ends.
pub open spec fn schedule_at(s: Seq<char>) -> Result<(ScheduleSpec, int), ErrorSpec> {
    let i = skip_ws(s, 0);
    let e = tok_end(s, i);
    if s[i] == '@' {
        match keyword_of(s.subrange(i + 1, e)) {
            Some(p) => Ok((ScheduleSpec::Keyword(p), e)),
            None => Err(ErrorSpec::UnknownKeyword(s.subrange(i, e))),
        }
    } else {
        calendar_at(s, i)
    }
}

/// A job line: its schedule, its user where the crontab names one, and the
/// rest of the line verbatim as its command.
pub open spec fn job_at(s: Seq<char>, system: bool) -> LineSpec {
    match schedule_at(s) {
        Err(e) => LineSpec::Error(e),
        Ok((sched, i)) => if system {
            let j = skip_ws(s, i);
            let e = tok_end(s, j);
            if j >= s.len() {
                LineSpec::Error(ErrorSpec::MissingUser)
            } else {
                LineSpec::Job(sched, Some(s.subrange(j, e)), s.skip(skip_ws(s, e)))
            }
        } else {
            LineSpec::Job(sched, None, s.skip(skip_ws(s, i)))
        },
    }
}

/// The end of `s.take(j)` once trailing blanks are dropped.
pub open spec fn rtrim(s: Seq<char>, j: int) -> int
    decreases j,
{
    if j <= 0 || j > s.len() {
        0
    } else if sp(s[j - 1]) {
        rtrim(s, j - 1)
    } else {
        j
    }
}

/// Where the first `=` stands, or the length.
pub open spec fn eq_index(s: Seq<char>) -> int {
    find_from(s, 0, s.len() as int, '=')
}

/// What stands before the first `=`, without trailing blanks.
pub open spec fn env_name(s: Seq<char>) -> Seq<char> {
    s.subrange(0, rtrim(s, eq_index(s)))
}

/// The line holds a `=`, and a non-empty name free of blanks before it.
pub open spec fn env_name_ok(s: Seq<char>) -> bool {
    &&& eq_index(s) < s.len()
    &&& env_name(s).len() > 0
    &&& forall|i: int| 0 <= i < env_name(s).len() ==> !sp(#[trigger] env_name(s)[i])
}

/// What follows the first `=`, without leading blanks.
pub open spec fn env_raw_value(s: Seq<char>) -> Seq<char> {
    s.skip(skip_ws(s, eq_index(s) + 1))
}

/// A value without its enclosing quotes: a leading `'` goes with the last
/// character, a `"` with a closing `"`.
pub open spec fn unquote(v: Seq<char>) -> Seq<char> {
    if v.len() > 1 && (v[0] == '\'' || (v[0] == '"' && v.last() == '"')) {
        v.subrange(1, v.len() - 1)
    } else {
        v
    }
}

pub open spec fn ascii(c: char) -> bool {
    (c as u32) < 128
}

/// A value that cronparse can unquote: empty, or led by an ASCII character,
/// and when that is a quote, ended by one.
pub open spec fn value_sliceable(v: Seq<char>) -> bool {
    v.len() == 0 || (ascii(v[0]) && ((v[0] == '\'' || v[0] == '"') ==> ascii(v.last())))
}

/// cronparse reads the line without trouble: it is no assignment by its
/// name, or its value can be unquoted.
pub open spec fn env_readable(s: Seq<char>) -> bool {
    !env_name_ok(s) || value_sliceable(env_raw_value(s))
}

/// A `NAME=VALUE` assignment: its name and its unquoted value.
pub open spec fn env_assignment_of(s: Seq<char>) -> Option<(Seq<char>, Seq<char>)> {
    if env_name_ok(s) {
        Some((env_name(s), unquote(env_raw_value(s))))
    } else {
        None
    }
}

/// What a crontab line holds: nothing when blank or a comment; else an
/// environment assignment, or a job.
pub open spec fn line_spec(s: Seq<char>, system: bool) -> LineSpec {
    let i = skip_ws(s, 0);
    if i >= s.len() || s[i] == '#' {
        LineSpec::Skip
    } else {
        if !env_readable(s) {
            LineSpec::Error(ErrorSpec::NonAsciiValue)
        } else {
            match env_assignment_of(s) {
                Some((n, v)) => LineSpec::Env(n, v),
                None => job_at(s, system),
            }
        }
    }
}


/// Relies on cronparse's `EnvVarEntry::from_str`, which splits at the first
/// `=`, trims blanks after the name and before the value, rejects an empty
/// name or one with blanks, and drops enclosing quotes. It slices the value
/// by bytes, so a value it cannot slice is left out.
#[verifier::external_body]
fn env_assignment(line: &str) -> (r: Option<(String, String)>)
    requires
        env_readable(line@),
    ensures
        match r {
            None => env_assignment_of(line@) is None,
            Some(p) => env_assignment_of(line@) == Some((p.0@, p.1@)),
        },
{
    line.parse::<cronparse::crontab::EnvVarEntry>().ok().map(|e| (e.0, e.1))
}

fn skip_spaces(s: &Vec<char>, i: usize) -> (r: usize)
    requires
        i <= s.len(),
    ensures
        r == skip_ws(s@, i as int),
        i <= r <= s.len(),
{
    let mut j = i;
    while j < s.len() && (s[j] == ' ' || s[j] == '\t')
        invariant
            i <= j <= s.len(),
            skip_ws(s@, j as int) == skip_ws(s@, i as int),
        decreases s.len() - j,
    {
        j = j + 1;
    }
    j
}

fn token_end(s: &Vec<char>, i: usize) -> (r: usize)
    requires
        i <= s.len(),
    ensures
        r == tok_end(s@, i as int),
        i <= r <= s.len(),
        i < s.len() && !sp(s@[i as int]) ==> r > i,
{
    let mut j = i;
    while j < s.len() && !(s[j] == ' ' || s[j] == '\t')
        invariant
            i <= j <= s.len(),
            tok_end(s@, j as int) == tok_end(s@, i as int),
        decreases s.len() - j,
    {
        j = j + 1;
    }
    j
}

fn find_char(s: &Vec<char>, lo: usize, hi: usize, c: char) -> (r: usize)
    requires
        lo <= hi <= s.len(),
    ensures
        r == find_from(s@, lo as int, hi as int, c),
        lo <= r <= hi,
{
    let mut j = lo;
    while j < hi && s[j] != c
        invariant
            lo <= j <= hi,
            hi <= s.len(),
            find_from(s@, j as int, hi as int, c) == find_from(s@, lo as int, hi as int, c),
        decreases hi - j,
    {
        j = j + 1;
    }
    j
}

fn parse_number(s: &Vec<char>, lo: usize, hi: usize) -> (r: Option<u8>)
    requires
        lo <= hi <= s.len(),
    ensures
        r == number(s@, lo as int, hi as int),
{
    if lo == hi {
        return None;
    }
    let mut acc: u32 = 0;
    let mut j = lo;
    while j < hi
        invariant
            lo <= j <= hi,
            hi <= s.len(),
            forall|k: int| lo <= k < j ==> is_digit(#[trigger] s@[k]),
            acc <= 256,
            acc == digits_value(s@, lo as int, j as int) || (acc == 256 && digits_value(
                s@,
                lo as int,
                j as int,
            ) > 255),
        decreases hi - j,
    {
        let c = s[j];
        if !('0' <= c && c <= '9') {
            return None;
        }
        let d = (c as u32) - 48;
        if acc == 256 || acc * 10 + d > 255 {
            acc = 256;
        } else {
            acc = acc * 10 + d;
        }
        j = j + 1;
    }
    if acc > 255 {
        None
    } else {
        Some(acc as u8)
    }
}

fn lower_char(c: char) -> (r: char)
    ensures
        r == lower(c),
{
    if 'A' <= c && c <= 'Z' {
        ((c as u8) + 32) as char
    } else {
        c
    }
}

fn month_name(a: char, b: char, c: char) -> (r: Option<u8>)
    ensures
        r == month_named(a, b, c),
{
    if a == 'j' && b == 'a' && c == 'n' { Some(1) }
    else if a == 'f' && b == 'e' && c == 'b' { Some(2) }
    else if a == 'm' && b == 'a' && c == 'r' { Some(3) }
    else if a == 'a' && b == 'p' && c == 'r' { Some(4) }
    else if a == 'm' && b == 'a' && c == 'y' { Some(5) }
    else if a == 'j' && b == 'u' && c == 'n' { Some(6) }
    else if a == 'j' && b == 'u' && c == 'l' { Some(7) }
    else if a == 'a' && b == 'u' && c == 'g' { Some(8) }
    else if a == 's' && b == 'e' && c == 'p' { Some(9) }
    else if a == 'o' && b == 'c' && c == 't' { Some(10) }
    else if a == 'n' && b == 'o' && c == 'v' { Some(11) }
    else if a == 'd' && b == 'e' && c == 'c' { Some(12) }
    else { None }
}

fn weekday_name(a: char, b: char, c: char) -> (r: Option<u8>)
    ensures
        r == weekday_named(a, b, c),
{
    if a == 's' && b == 'u' && c == 'n' { Some(0) }
    else if a == 'm' && b == 'o' && c == 'n' { Some(1) }
    else if a == 't' && b == 'u' && c == 'e' { Some(2) }
    else if a == 'w' && b == 'e' && c == 'd' { Some(3) }
    else if a == 't' && b == 'h' && c == 'u' { Some(4) }
    else if a == 'f' && b == 'r' && c == 'i' { Some(5) }
    else if a == 's' && b == 'a' && c == 't' { Some(6) }
    else { None }
}

fn parse_atom(s: &Vec<char>, lo: usize, hi: usize, which: FieldName) -> (r: Option<u8>)
    requires
        lo <= hi <= s.len(),
    ensures
        r == atom(s@, lo as int, hi as int, which),
{
    match parse_number(s, lo, hi) {
        Some(v) => Some(v),
        None => if hi - lo != 3 {
            None
        } else if which == FieldName::Months {
            month_name(lower_char(s[lo]), lower_char(s[lo + 1]), lower_char(s[lo + 2]))
        } else if which == FieldName::Weekdays {
            weekday_name(lower_char(s[lo]), lower_char(s[lo + 1]), lower_char(s[lo + 2]))
        } else {
            None
        },
    }
}

fn parse_item(s: &Vec<char>, lo: usize, hi: usize, which: FieldName) -> (r: Option<FieldItem>)
    requires
        lo <= hi <= s.len(),
    ensures
        r == item_at(s@, lo as int, hi as int, which),
{
    let k = find_char(s, lo, hi, '/');
    let step = if k == hi {
        Some(1u8)
    } else {
        parse_number(s, k + 1, hi)
    };
    if k > lo && k - lo == 1 && s[lo] == '*' {
        match step {
            Some(st) => Some(FieldItem::Full(st)),
            None => None,
        }
    } else {
        let h = find_char(s, lo, k, '-');
        if h == k {
            if k < hi {
                None
            } else {
                match parse_atom(s, lo, k, which) {
                    Some(v) => Some(FieldItem::Value(v)),
                    None => None,
                }
            }
        } else {
            match (parse_atom(s, lo, h, which), parse_atom(s, h + 1, k, which), step) {
                (Some(a), Some(b), Some(st)) => Some(FieldItem::Range(a, b, st)),
                _ => None,
            }
        }
    }
}

fn parse_items(s: &Vec<char>, lo: usize, hi: usize, which: FieldName) -> (r: Option<Vec<FieldItem>>)
    requires
        lo <= hi <= s.len(),
    ensures
        match r {
            None => items_at(s@, lo as int, hi as int, which) is None,
            Some(v) => items_at(s@, lo as int, hi as int, which) == Some(v@),
        },
{
    let mut acc: Vec<FieldItem> = Vec::new();
    let mut i = lo;
    loop
        invariant
            lo <= i <= hi,
            hi <= s.len(),
            items_at(s@, lo as int, hi as int, which) == match items_at(s@, i as int, hi as int, which) {
                None => None,
                Some(rest) => Some(acc@ + rest),
            },
        decreases hi - i,
    {
        let k = find_char(s, i, hi, ',');
        match parse_item(s, i, k, which) {
            None => {
                return None;
            },
            Some(it) => {
                acc.push(it);
                if k >= hi {
                    return Some(acc);
                }
                proof {
                    match items_at(s@, k + 1, hi as int, which) {
                        None => {},
                        Some(rest) => {
                            assert(acc@.drop_last() + (seq![acc@.last()] + rest) == acc@ + rest);
                        },
                    }
                }
                i = k + 1;
            },
        }
    }
}


pub open spec fn error_view(e: ParseError) -> ErrorSpec {
    match e {
        ParseError::MissingField(w) => ErrorSpec::MissingField(w),
        ParseError::BadField(w, t) => ErrorSpec::BadField(w, t@),
        ParseError::UnknownKeyword(t) => ErrorSpec::UnknownKeyword(t@),
        ParseError::MissingUser => ErrorSpec::MissingUser,
        ParseError::NonAsciiValue => ErrorSpec::NonAsciiValue,
    }
}

/// What a parsed line holds, as a value.
pub open spec fn outcome_view(r: Option<Result<Entry, LineError>>) -> LineSpec {
    match r {
        None => LineSpec::Skip,
        Some(Ok(Entry::Env(v))) => LineSpec::Env(v.name@, v.value@),
        Some(Ok(Entry::Job(j))) => LineSpec::Job(j.schedule@, user_view(j.user), j.command@),
        Some(Err(e)) => LineSpec::Error(error_view(e.error)),
    }
}

fn window(s: &Vec<char>, lo: usize, hi: usize) -> (r: String)
    requires
        lo <= hi <= s.len(),
    ensures
        r@ == s@.subrange(lo as int, hi as int),
{
    let mut out: Vec<char> = Vec::new();
    let mut j = lo;
    while j < hi
        invariant
            lo <= j <= hi,
            hi <= s.len(),
            out@ == s@.subrange(lo as int, j as int),
        decreases hi - j,
    {
        out.push(s[j]);
        assert(s@.subrange(lo as int, j + 1) == s@.subrange(lo as int, j as int).push(s@[j as int]));
        j = j + 1;
    }
    crate::text::string_of(out.as_slice())
}

fn window_is(s: &Vec<char>, lo: usize, hi: usize, lit: &str) -> (r: bool)
    requires
        lo <= hi <= s.len(),
    ensures
        r == (s@.subrange(lo as int, hi as int) == lit@),
{
    let w = chars_of(lit);
    if w.len() != hi - lo {
        assert(s@.subrange(lo as int, hi as int).len() != lit@.len());
        return false;
    }
    let mut j: usize = 0;
    while j < w.len()
        invariant
            j <= w.len(),
            w.len() == hi - lo,
            hi <= s.len(),
            w@ == lit@,
            forall|k: int| 0 <= k < j ==> s@[lo + k] == #[trigger] w@[k],
        decreases w.len() - j,
    {
        if s[lo + j] != w[j] {
            assert(s@.subrange(lo as int, hi as int)[j as int] != lit@[j as int]);
            return false;
        }
        j = j + 1;
    }
    assert(s@.subrange(lo as int, hi as int) =~= lit@);
    true
}

fn keyword(s: &Vec<char>, lo: usize, hi: usize) -> (r: Option<Period>)
    requires
        lo <= hi <= s.len(),
    ensures
        r == keyword_of(s@.subrange(lo as int, hi as int)),
{
    if window_is(s, lo, hi, "reboot") {
        Some(Period::Reboot)
    } else if window_is(s, lo, hi, "minutely") {
        Some(Period::Minutely)
    } else if window_is(s, lo, hi, "hourly") {
        Some(Period::Hourly)
    } else if window_is(s, lo, hi, "daily") || window_is(s, lo, hi, "midnight") {
        Some(Period::Daily)
    } else if window_is(s, lo, hi, "weekly") {
        Some(Period::Weekly)
    } else if window_is(s, lo, hi, "monthly") {
        Some(Period::Monthly)
    } else if window_is(s, lo, hi, "quarterly") {
        Some(Period::Quarterly)
    } else if window_is(s, lo, hi, "semi-annually") || window_is(s, lo, hi, "semiannually")
        || window_is(s, lo, hi, "biannually") {
        Some(Period::SemiAnnually)
    } else if window_is(s, lo, hi, "yearly") || window_is(s, lo, hi, "annually") {
        Some(Period::Yearly)
    } else {
        None
    }
}

fn field_bounds(which: FieldName) -> (r: (u8, u8))
    ensures
        r.0 as int == bounds(which).0,
        r.1 as int == bounds(which).1,
{
    match which {
        FieldName::Minutes => (0, 59),
        FieldName::Hours => (0, 23),
        FieldName::Days => (1, 31),
        FieldName::Months => (1, 12),
        FieldName::Weekdays => (0, 7),
    }
}

fn parse_field(s: &Vec<char>, i: usize, which: FieldName) -> (r: Result<(Vec<FieldItem>, usize), ParseError>)
    requires
        i <= s.len(),
    ensures
        match r {
            Ok((f, e)) => field_at(s@, i as int, which) == Ok::<(Seq<FieldItem>, int), ErrorSpec>((f@, e as int)) && e <= s.len(),
            Err(e) => field_at(s@, i as int, which) == Err::<(Seq<FieldItem>, int), ErrorSpec>(error_view(e)),
        },
{
    let j = skip_spaces(s, i);
    let e = token_end(s, j);
    if j >= s.len() {
        return Err(ParseError::MissingField(which));
    }
    let (lo, hi) = field_bounds(which);
    match parse_items(s, j, e, which) {
        Some(f) => if in_range(&f, lo, hi) {
            Ok((f, e))
        } else {
            Err(ParseError::BadField(which, window(s, j, e)))
        },
        None => Err(ParseError::BadField(which, window(s, j, e))),
    }
}

fn parse_calendar(s: &Vec<char>, i: usize) -> (r: Result<(CronSchedule, usize), ParseError>)
    requires
        i <= s.len(),
    ensures
        match r {
            Ok((c, e)) => calendar_at(s@, i as int) == Ok::<(ScheduleSpec, int), ErrorSpec>(
                (Schedule::Calendar(c)@, e as int),
            ) && e <= s.len(),
            Err(e) => calendar_at(s@, i as int) == Err::<(ScheduleSpec, int), ErrorSpec>(error_view(e)),
        },
{
    let (minutes, i1) = parse_field(s, i, FieldName::Minutes)?;
    let (hours, i2) = parse_field(s, i1, FieldName::Hours)?;
    let (days, i3) = parse_field(s, i2, FieldName::Days)?;
    let (months, i4) = parse_field(s, i3, FieldName::Months)?;
    let (weekdays, i5) = parse_field(s, i4, FieldName::Weekdays)?;
    Ok((CronSchedule { minutes, hours, days, months, weekdays }, i5))
}

fn parse_schedule(s: &Vec<char>) -> (r: Result<(Schedule, usize), ParseError>)
    requires
        skip_ws(s@, 0) < s.len(),
    ensures
        match r {
            Ok((c, e)) => schedule_at(s@) == Ok::<(ScheduleSpec, int), ErrorSpec>((c@, e as int))
                && e <= s.len(),
            Err(e) => schedule_at(s@) == Err::<(ScheduleSpec, int), ErrorSpec>(error_view(e)),
        },
{
    let i = skip_spaces(s, 0);
    let e = token_end(s, i);
    if s[i] == '@' {
        match keyword(s, i + 1, e) {
            Some(p) => Ok((Schedule::Keyword(p), e)),
            None => Err(ParseError::UnknownKeyword(window(s, i, e))),
        }
    } else {
        match parse_calendar(s, i) {
            Ok((c, e)) => Ok((Schedule::Calendar(c), e)),
            Err(err) => Err(err),
        }
    }
}


fn trim_end(s: &Vec<char>, j: usize) -> (r: usize)
    requires
        j <= s.len(),
    ensures
        r == rtrim(s@, j as int),
        r <= j,
{
    let mut k = j;
    while k > 0 && (s[k - 1] == ' ' || s[k - 1] == '\t')
        invariant
            k <= j <= s.len(),
            rtrim(s@, k as int) == rtrim(s@, j as int),
        decreases k,
    {
        k = k - 1;
    }
    k
}

fn is_ascii_char(c: char) -> (r: bool)
    ensures
        r == ascii(c),
{
    (c as u32) < 128
}

/// Whether cronparse can read the line as a possible assignment.
fn readable_assignment(s: &Vec<char>) -> (r: bool)
    ensures
        r == env_readable(s@),
{
    let k = find_char(s, 0, s.len(), '=');
    let n = trim_end(s, k);
    assert(env_name(s@) == s@.subrange(0, n as int));
    if k >= s.len() || n == 0 {
        return true;
    }
    let mut i: usize = 0;
    while i < n
        invariant
            i <= n <= s.len(),
            env_name(s@) == s@.subrange(0, n as int),
            forall|m: int| 0 <= m < i ==> !sp(#[trigger] s@[m]),
        decreases n - i,
    {
        if s[i] == ' ' || s[i] == '\t' {
            assert(env_name(s@)[i as int] == s@[i as int]);
            return true;
        }
        i = i + 1;
    }
    assert(env_name_ok(s@)) by {
        assert forall|m: int| 0 <= m < env_name(s@).len() implies !sp(#[trigger] env_name(s@)[m]) by {
            assert(env_name(s@)[m] == s@[m]);
        }
    }
    let j = skip_spaces(s, k + 1);
    let ghost v = env_raw_value(s@);
    assert(v == s@.subrange(j as int, s@.len() as int));
    if j == s.len() {
        return true;
    }
    let first = s[j];
    let last = s[s.len() - 1];
    assert(v[0] == first && v.last() == last);
    is_ascii_char(first) && (!(first == '\'' || first == '"') || is_ascii_char(last))
}

/// Parses one crontab line, numbered `line` from 1. `system` says whether the
/// crontab names a user after the schedule.
pub fn parse_line(text: &str, line: usize, system: bool) -> (r: Option<Result<Entry, LineError>>)
    ensures
        outcome_view(r) == line_spec(text@, system),
        r matches Some(Ok(Entry::Job(j))) ==> j.line == line,
        r matches Some(Err(e)) ==> e.line == line && e.text@ == text@,
{
    let s = chars_of(text);
    let i = skip_spaces(&s, 0);
    if i >= s.len() || s[i] == '#' {
        return None;
    }
    if !readable_assignment(&s) {
        return Some(Err(LineError { line, text: crate::text::string_of(s.as_slice()), error: ParseError::NonAsciiValue }));
    }
    if let Some((name, value)) = env_assignment(text) {
        return Some(Ok(Entry::Env(EnvVar { name, value })));
    }
    let (schedule, e) = match parse_schedule(&s) {
        Ok(p) => p,
        Err(error) => {
            return Some(Err(LineError { line, text: crate::text::string_of(s.as_slice()), error }));
        },
    };
    let (user, start) = if system {
        let j = skip_spaces(&s, e);
        let k = token_end(&s, j);
        if j >= s.len() {
            return Some(
                Err(LineError { line, text: crate::text::string_of(s.as_slice()), error: ParseError::MissingUser }),
            );
        }
        (Some(window(&s, j, k)), skip_spaces(&s, k))
    } else {
        (None, skip_spaces(&s, e))
    };
    let command = window(&s, start, s.len());
    assert(s@.subrange(start as int, s@.len() as int) == s@.skip(start as int));
    Some(Ok(Entry::Job(JobEntry { schedule, user, command, line })))
}

} // verus!
