//! Local timestamps and the two ways they are written into file names.

use crate::text::{four_digits, push_char, push_decimal, push_four_digits, push_two_digits, two_digits};
use chrono::{Datelike, Timelike};
use vstd::prelude::*;

verus! {

/// A local date and time of day, second-granular, with its day of the week.
#[derive(Clone, Copy, Debug, PartialEq, Eq)]
pub struct Stamp {
    pub year: i32,
    /// 1 (January) to 12 (December).
    pub month: u32,
    /// 1 to 31.
    pub day: u32,
    /// 0 to 23.
    pub hour: u32,
    /// 0 to 59.
    pub minute: u32,
    /// 0 to 59.
    pub second: u32,
    /// Days since Sunday: 0 (Sunday) to 6 (Saturday).
    pub weekday: u32,
}

impl Stamp {
    pub open spec fn wf(&self) -> bool {
        &&& 1 <= self.month <= 12
        &&& 1 <= self.day <= 31
        &&& self.hour < 24
        &&& self.minute < 60
        &&& self.second < 60
        &&& self.weekday < 7
    }
}

/// Three-letter English name of a weekday counted from Sunday.
pub open spec fn weekday_abbrev(w: nat) -> Seq<char> {
    if w == 0 {
        seq!['S', 'u', 'n']
    } else if w == 1 {
        seq!['M', 'o', 'n']
    } else if w == 2 {
        seq!['T', 'u', 'e']
    } else if w == 3 {
        seq!['W', 'e', 'd']
    } else if w == 4 {
        seq!['T', 'h', 'u']
    } else if w == 5 {
        seq!['F', 'r', 'i']
    } else {
        seq!['S', 'a', 't']
    }
}

/// Three-letter English name of a month numbered from 1.
pub open spec fn month_abbrev(m: nat) -> Seq<char> {
    if m == 1 {
        seq!['J', 'a', 'n']
    } else if m == 2 {
        seq!['F', 'e', 'b']
    } else if m == 3 {
        seq!['M', 'a', 'r']
    } else if m == 4 {
        seq!['A', 'p', 'r']
    } else if m == 5 {
        seq!['M', 'a', 'y']
    } else if m == 6 {
        seq!['J', 'u', 'n']
    } else if m == 7 {
        seq!['J', 'u', 'l']
    } else if m == 8 {
        seq!['A', 'u', 'g']
    } else if m == 9 {
        seq!['S', 'e', 'p']
    } else if m == 10 {
        seq!['O', 'c', 't']
    } else if m == 11 {
        seq!['N', 'o', 'v']
    } else {
        seq!['D', 'e', 'c']
    }
}

/// The year with at least four digits; a sign is written for years outside
/// 0 to 9999.
pub open spec fn year_text(y: int) -> Seq<char> {
    if 0 <= y <= 9999 {
        four_digits(y as nat)
    } else if y > 9999 {
        seq!['+'] + four_digits(y as nat)
    } else {
        seq!['-'] + four_digits((-y) as nat)
    }
}

/// `Sun_Jan_05_2025_09_04_03`: weekday, month, day, year, hour, minute and
/// second, joined by underscores.
pub open spec fn capsule_stamp_text(s: Stamp) -> Seq<char> {
    weekday_abbrev(s.weekday as nat) + seq!['_'] + month_abbrev(s.month as nat) + seq!['_']
        + two_digits(s.day as nat) + seq!['_'] + year_text(s.year as int) + seq!['_']
        + two_digits(s.hour as nat) + seq!['_'] + two_digits(s.minute as nat) + seq!['_']
        + two_digits(s.second as nat)
}

/// `20250105090403`: year, month, day, hour, minute and second, run together.
pub open spec fn compact_stamp_text(s: Stamp) -> Seq<char> {
    year_text(s.year as int) + two_digits(s.month as nat) + two_digits(s.day as nat)
        + two_digits(s.hour as nat) + two_digits(s.minute as nat) + two_digits(
        s.second as nat,
    )
}

/// Relies on chrono's `Local::now` for the current local time, and on its
/// `Datelike` and `Timelike` accessors, whose documented ranges are those of
/// `Stamp::wf`.
#[verifier::external_body]
pub(crate) fn local_now() -> (r: Stamp)
    ensures
        r.wf(),
{
    let now = chrono::Local::now();
    Stamp {
        year: now.year(),
        month: now.month(),
        day: now.day(),
        hour: now.hour(),
        minute: now.minute(),
        second: now.second(),
        weekday: now.weekday().num_days_from_sunday(),
    }
}

fn push_three(s: &mut String, a: char, b: char, c: char)
    ensures
        final(s)@ == old(s)@ + seq![a, b, c],
{
    push_char(s, a);
    push_char(s, b);
    push_char(s, c);
    assert(s@ =~= old(s)@ + seq![a, b, c]);
}

fn push_weekday(s: &mut String, w: u32)
    ensures
        final(s)@ == old(s)@ + weekday_abbrev(w as nat),
{
    if w == 0 {
        push_three(s, 'S', 'u', 'n');
    } else if w == 1 {
        push_three(s, 'M', 'o', 'n');
    } else if w == 2 {
        push_three(s, 'T', 'u', 'e');
    } else if w == 3 {
        push_three(s, 'W', 'e', 'd');
    } else if w == 4 {
        push_three(s, 'T', 'h', 'u');
    } else if w == 5 {
        push_three(s, 'F', 'r', 'i');
    } else {
        push_three(s, 'S', 'a', 't');
    }
}

fn push_month(s: &mut String, m: u32)
    ensures
        final(s)@ == old(s)@ + month_abbrev(m as nat),
{
    if m == 1 {
        push_three(s, 'J', 'a', 'n');
    } else if m == 2 {
        push_three(s, 'F', 'e', 'b');
    } else if m == 3 {
        push_three(s, 'M', 'a', 'r');
    } else if m == 4 {
        push_three(s, 'A', 'p', 'r');
    } else if m == 5 {
        push_three(s, 'M', 'a', 'y');
    } else if m == 6 {
        push_three(s, 'J', 'u', 'n');
    } else if m == 7 {
        push_three(s, 'J', 'u', 'l');
    } else if m == 8 {
        push_three(s, 'A', 'u', 'g');
    } else if m == 9 {
        push_three(s, 'S', 'e', 'p');
    } else if m == 10 {
        push_three(s, 'O', 'c', 't');
    } else if m == 11 {
        push_three(s, 'N', 'o', 'v');
    } else {
        push_three(s, 'D', 'e', 'c');
    }
}

fn push_year(s: &mut String, y: i32)
    ensures
        final(s)@ == old(s)@ + year_text(y as int),
{
    if 0 <= y && y <= 9999 {
        push_four_digits(s, y as u32);
    } else if y > 9999 {
        push_char(s, '+');
        push_four_digits(s, y as u32);
        assert(s@ =~= old(s)@ + year_text(y as int));
    } else {
        push_char(s, '-');
        let a: i64 = -(y as i64);
        push_four_digits(s, a as u32);
        assert(s@ =~= old(s)@ + year_text(y as int));
    }
}

/// The stamp as it appears in capsule names, e.g. `Sun_Jan_05_2025_09_04_03`.
pub fn capsule_stamp(s: &Stamp) -> (r: String)
    requires
        s.wf(),
    ensures
        r@ == capsule_stamp_text(*s),
{
    let mut r = String::new();
    push_weekday(&mut r, s.weekday);
    push_char(&mut r, '_');
    push_month(&mut r, s.month);
    push_char(&mut r, '_');
    push_two_digits(&mut r, s.day);
    push_char(&mut r, '_');
    push_year(&mut r, s.year);
    push_char(&mut r, '_');
    push_two_digits(&mut r, s.hour);
    push_char(&mut r, '_');
    push_two_digits(&mut r, s.minute);
    push_char(&mut r, '_');
    push_two_digits(&mut r, s.second);
    assert(r@ =~= capsule_stamp_text(*s));
    r
}

/// The stamp as it appears in names of moved-aside configuration
/// directories, e.g. `20250105090403`.
pub fn compact_stamp(s: &Stamp) -> (r: String)
    requires
        s.wf(),
    ensures
        r@ == compact_stamp_text(*s),
{
    let mut r = String::new();
    push_year(&mut r, s.year);
    push_two_digits(&mut r, s.month);
    push_two_digits(&mut r, s.day);
    push_two_digits(&mut r, s.hour);
    push_two_digits(&mut r, s.minute);
    push_two_digits(&mut r, s.second);
    assert(r@ =~= compact_stamp_text(*s));
    r
}

} // verus!
