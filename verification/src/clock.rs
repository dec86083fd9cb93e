//! Timestamps.  The clock itself is read through a trusted wrapper around
//! chrono; everything built on top of the reading — the fixed textual
//! formats and the sync commit message — is verified.

use chrono::Datelike;
use chrono::Timelike;
use crate::text::{chars_to_string, push_all, str_to_chars};
use vstd::prelude::*;

verus! {

/// One reading of the local clock, split into plain fields.
#[derive(Debug, Clone, Copy, PartialEq, Eq, Structural)]
pub struct DateTimeParts {
    pub year: i32,
    pub month: u32,
    pub day: u32,
    pub hour: u32,
    pub minute: u32,
    pub second: u32,
}

/// What every clock reading satisfies.
pub open spec fn parts_wf(p: DateTimeParts) -> bool {
    &&& 1 <= p.month <= 12
    &&& 1 <= p.day <= 31
    &&& p.hour < 24
    &&& p.minute < 60
    &&& p.second < 60
}

/// A reading whose year also fits the four-digit textual format.
pub open spec fn parts_in_range(p: DateTimeParts) -> bool {
    parts_wf(p) && 0 <= p.year <= 9999
}

/// Relies on `chrono::Local::now` and chrono's `Datelike` / `Timelike`
/// accessors: the month is 1 to 12, the day 1 to 31, the hour below 24,
/// the minute and second below 60.
#[verifier::external_body]
pub fn local_now_parts() -> (p: DateTimeParts)
    ensures
        parts_wf(p),
{
    let now = chrono::Local::now();
    DateTimeParts {
        year: now.year(),
        month: now.month(),
        day: now.day(),
        hour: now.hour(),
        minute: now.minute(),
        second: now.second(),
    }
}

impl DateTimeParts {
    /// Whether this reading fits the four-digit year formats.
    pub fn in_range(&self) -> (r: bool)
        ensures
            r == parts_in_range(*self),
    {
        1 <= self.month && self.month <= 12 && 1 <= self.day && self.day <= 31 && self.hour < 24
            && self.minute < 60 && self.second < 60 && 0 <= self.year && self.year <= 9999
    }
}

/// The decimal digit character for `d`.
pub open spec fn digit_char(d: int) -> char {
    if d == 0 {
        '0'
    } else if d == 1 {
        '1'
    } else if d == 2 {
        '2'
    } else if d == 3 {
        '3'
    } else if d == 4 {
        '4'
    } else if d == 5 {
        '5'
    } else if d == 6 {
        '6'
    } else if d == 7 {
        '7'
    } else if d == 8 {
        '8'
    } else {
        '9'
    }
}

/// `n` rendered as exactly two digits, zero-padded.
pub open spec fn fmt2(n: int) -> Seq<char> {
    seq![digit_char(n / 10), digit_char(n % 10)]
}

/// `n` rendered as exactly four digits, zero-padded.
pub open spec fn fmt4(n: int) -> Seq<char> {
    seq![
        digit_char(n / 1000),
        digit_char((n / 100) % 10),
        digit_char((n / 10) % 10),
        digit_char(n % 10),
    ]
}

/// The timestamp format of the `created` and `updated` fields.
pub open spec fn spec_datetime_stamp(p: DateTimeParts) -> Seq<char> {
    fmt4(p.year as int) + seq!['-'] + fmt2(p.month as int) + seq!['-'] + fmt2(p.day as int)
        + seq!['-'] + fmt2(p.hour as int) + seq![':'] + fmt2(p.minute as int)
}

/// The date format of the `due` field's construction default.
pub open spec fn spec_date_stamp(p: DateTimeParts) -> Seq<char> {
    fmt4(p.year as int) + seq!['-'] + fmt2(p.month as int) + seq!['-'] + fmt2(p.day as int)
}

/// The compact format used in generated file names.
pub open spec fn spec_compact_stamp(p: DateTimeParts) -> Seq<char> {
    fmt4(p.year as int) + fmt2(p.month as int) + fmt2(p.day as int) + fmt2(p.hour as int) + fmt2(
        p.minute as int,
    ) + fmt2(p.second as int)
}

/// The commit message of the sync workflow: a fixed label plus the local
/// date and time.
pub open spec fn spec_commit_message(p: DateTimeParts) -> Seq<char> {
    "Task sync: "@ + spec_date_stamp(p) + seq![' '] + fmt2(p.hour as int) + seq![':'] + fmt2(
        p.minute as int,
    )
}

fn digit(d: u32) -> (c: char)
    requires
        d < 10,
    ensures
        c == digit_char(d as int),
{
    match d {
        0 => '0',
        1 => '1',
        2 => '2',
        3 => '3',
        4 => '4',
        5 => '5',
        6 => '6',
        7 => '7',
        8 => '8',
        _ => '9',
    }
}

fn push2(out: &mut Vec<char>, n: u32)
    requires
        n < 100,
    ensures
        final(out)@ == old(out)@ + fmt2(n as int),
{
    let hi = digit(n / 10);
    let lo = digit(n % 10);
    out.push(hi);
    out.push(lo);
    proof {
        assert(out@ =~= old(out)@ + fmt2(n as int));
    }
}

fn push4(out: &mut Vec<char>, n: u32)
    requires
        n < 10000,
    ensures
        final(out)@ == old(out)@ + fmt4(n as int),
{
    let a = digit(n / 1000);
    let b = digit((n / 100) % 10);
    let c = digit((n / 10) % 10);
    let d = digit(n % 10);
    out.push(a);
    out.push(b);
    out.push(c);
    out.push(d);
    proof {
        assert(out@ =~= old(out)@ + fmt4(n as int));
    }
}

/// The `YYYY-MM-DD-HH:MM` timestamp of a reading.
pub fn datetime_stamp(p: &DateTimeParts) -> (r: String)
    requires
        parts_in_range(*p),
    ensures
        r@ == spec_datetime_stamp(*p),
{
    let mut v: Vec<char> = Vec::new();
    push4(&mut v, p.year as u32);
    v.push('-');
    push2(&mut v, p.month);
    v.push('-');
    push2(&mut v, p.day);
    v.push('-');
    push2(&mut v, p.hour);
    v.push(':');
    push2(&mut v, p.minute);
    proof {
        assert(v@ =~= spec_datetime_stamp(*p));
    }
    chars_to_string(&v)
}

/// The `YYYY-MM-DD` date of a reading.
pub fn date_stamp(p: &DateTimeParts) -> (r: String)
    requires
        parts_in_range(*p),
    ensures
        r@ == spec_date_stamp(*p),
{
    let mut v: Vec<char> = Vec::new();
    push4(&mut v, p.year as u32);
    v.push('-');
    push2(&mut v, p.month);
    v.push('-');
    push2(&mut v, p.day);
    proof {
        assert(v@ =~= spec_date_stamp(*p));
    }
    chars_to_string(&v)
}

/// The `YYYYMMDDHHMMSS` stamp used in generated file names.
pub fn compact_stamp(p: &DateTimeParts) -> (r: String)
    requires
        parts_in_range(*p),
    ensures
        r@ == spec_compact_stamp(*p),
{
    let mut v: Vec<char> = Vec::new();
    push4(&mut v, p.year as u32);
    push2(&mut v, p.month);
    push2(&mut v, p.day);
    push2(&mut v, p.hour);
    push2(&mut v, p.minute);
    push2(&mut v, p.second);
    proof {
        assert(v@ =~= spec_compact_stamp(*p));
    }
    chars_to_string(&v)
}

/// The timestamped commit message of the sync workflow.
pub fn sync_commit_message(p: &DateTimeParts) -> (r: String)
    requires
        parts_in_range(*p),
    ensures
        r@ == spec_commit_message(*p),
{
    let mut v = str_to_chars("Task sync: ");
    push4(&mut v, p.year as u32);
    v.push('-');
    push2(&mut v, p.month);
    v.push('-');
    push2(&mut v, p.day);
    v.push(' ');
    push2(&mut v, p.hour);
    v.push(':');
    push2(&mut v, p.minute);
    proof {
        assert(v@ =~= spec_commit_message(*p));
    }
    chars_to_string(&v)
}

} // verus!
