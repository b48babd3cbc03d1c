//! Calendar moments and signed durations.
//!
//! `Datetime` orders and diffs through a deliberately simplified projection to
//! total minutes: every month counts as exactly 30 days and every year as
//! exactly 365 days. `TimeDiff` is a signed duration, normalized to
//! days/hours/minutes with the sign carried separately.

use vstd::prelude::*;

use crate::digits::{dec_rep, dec_val, digit_val, is_digit, push_dec_u64};
use crate::text::{chars_to_string, str_to_chars};

use chrono::Datelike;
use chrono::Timelike;

verus! {

/// A signed duration, decomposed into whole days, hours and minutes. The
/// magnitude fields are meant to be kept normalized (`wf`); the sign is a
/// separate flag, never folded into negative field values.
#[derive(Copy, Clone, Debug, Eq, PartialEq, Structural)]
pub struct TimeDiff {
    pub days: i32,
    pub hours: i8,
    pub minutes: i8,
    pub is_negative: bool,
}

/// A calendar moment, minute precision.
#[derive(Copy, Clone, Debug, Eq, PartialEq, Structural)]
pub struct Datetime {
    pub year: u16,
    pub month: u8,
    pub day: u8,
    pub hour: u8,
    pub minute: u8,
}

/// The decimal rendering of a signed number: a minus sign before the
/// magnitude for negative values.
pub open spec fn int_rep(n: int) -> Seq<char> {
    if n < 0 {
        seq!['-'] + dec_rep((-n) as nat)
    } else {
        dec_rep(n as nat)
    }
}

/// The decimal rendering of a number, left-padded with zeros to at least
/// `w` characters.
pub open spec fn pad_rep(n: nat, w: nat) -> Seq<char> {
    let d = dec_rep(n);
    if d.len() >= w {
        d
    } else {
        Seq::new((w - d.len()) as nat, |i: int| '0') + d
    }
}

impl TimeDiff {
    /// Normalized magnitude fields: hours and minutes within bounds, days
    /// non-negative.
    pub open spec fn wf(self) -> bool {
        0 <= self.days && 0 <= self.hours < 24 && 0 <= self.minutes < 60
    }

    /// The magnitude of the duration in minutes.
    pub open spec fn abs_minutes(self) -> int {
        self.days * 1440 + self.hours * 60 + self.minutes
    }

    /// The duration in minutes with its sign applied.
    pub open spec fn signed_minutes(self) -> int {
        if self.is_negative {
            -self.abs_minutes()
        } else {
            self.abs_minutes()
        }
    }

    /// The rendering `to_string` produces: sign, then days, hours and
    /// minutes with unit letters.
    pub open spec fn text_rep(self) -> Seq<char> {
        (if self.is_negative {
            seq!['-']
        } else {
            Seq::<char>::empty()
        }) + int_rep(self.days as int) + seq!['d', ' '] + int_rep(self.hours as int) + seq![
            'h',
            ' ',
        ] + int_rep(self.minutes as int) + seq!['m']
    }

    /// The whole duration in signed minutes.
    pub fn to_minutes(&self) -> (r: i32)
        requires
            self.wf(),
            self.abs_minutes() <= i32::MAX,
        ensures
            r == self.signed_minutes(),
    {
        let total = (self.days * 24 * 60) + (self.hours as i32 * 60) + (self.minutes as i32);
        if self.is_negative {
            -total
        } else {
            total
        }
    }

    /// Renders the duration as text, e.g. `3d 4h 5m` with a leading minus
    /// sign for a negative duration.
    pub fn to_string(&self) -> (r: String)
        ensures
            r@ == self.text_rep(),
    {
        let mut out: Vec<char> = Vec::new();
        if self.is_negative {
            out.push('-');
        }
        push_dec_i64(self.days as i64, &mut out);
        out.push('d');
        out.push(' ');
        push_dec_i64(self.hours as i64, &mut out);
        out.push('h');
        out.push(' ');
        push_dec_i64(self.minutes as i64, &mut out);
        out.push('m');
        assert(out@ =~= self.text_rep());
        chars_to_string(&out)
    }
}

/// Appends the decimal rendering of a signed number to `out`.
pub fn push_dec_i64(n: i64, out: &mut Vec<char>)
    ensures
        final(out)@ == old(out)@ + int_rep(n as int),
{
    if n >= 0 {
        push_dec_u64(n as u64, out);
    } else {
        out.push('-');
        let m: u64 = ((-(n + 1)) as u64) + 1;
        assert(m as nat == -(n as int));
        push_dec_u64(m, out);
        assert(final(out)@ =~= old(out)@ + int_rep(n as int));
    }
}

/// Appends the decimal rendering of `n`, zero-padded to at least `w`
/// characters, to `out`.
pub fn push_padded_u64(n: u64, w: usize, out: &mut Vec<char>)
    ensures
        final(out)@ == old(out)@ + pad_rep(n as nat, w as nat),
{
    let mut tmp: Vec<char> = Vec::new();
    push_dec_u64(n, &mut tmp);
    let mut k = tmp.len();
    while k < w
        invariant
            tmp@ == dec_rep(n as nat),
            tmp.len() <= k <= w || (k == tmp.len() && k >= w),
            out@ == old(out)@ + Seq::new((k - tmp.len()) as nat, |i: int| '0'),
        decreases w - k,
    {
        out.push('0');
        assert(out@ =~= old(out)@ + Seq::new((k + 1 - tmp.len()) as nat, |i: int| '0'));
        k = k + 1;
    }
    let mut tmp = tmp;
    out.append(&mut tmp);
    assert(final(out)@ =~= old(out)@ + pad_rep(n as nat, w as nat));
}

impl Datetime {
    /// Field ranges of a calendar moment: month 1 to 12, day 1 to 31, hour
    /// and minute within a day.
    pub open spec fn wf(self) -> bool {
        1 <= self.month <= 12 && 1 <= self.day <= 31 && self.hour < 24 && self.minute < 60
    }

    /// The simplified projection to total minutes: 365-day years, 30-day
    /// months.
    pub open spec fn spec_total_minutes(self) -> int {
        (self.year * 365 + (self.month - 1) * 30 + self.day) * 1440 + self.hour * 60 + self.minute
    }

    /// The text rendering `YYYY-MM-DD HH:MM`, each field zero-padded.
    pub open spec fn text_rep(self) -> Seq<char> {
        pad_rep(self.year as nat, 4) + seq!['-'] + pad_rep(self.month as nat, 2) + seq!['-']
            + pad_rep(self.day as nat, 2) + seq![' '] + pad_rep(self.hour as nat, 2) + seq![':']
            + pad_rep(self.minute as nat, 2)
    }

    pub fn new(year: u16, month: u8, day: u8, hour: u8, minute: u8) -> (r: Self)
        ensures
            r == (Datetime { year, month, day, hour, minute }),
    {
        Self { year, month, day, hour, minute }
    }

    /// The current calendar moment.
    ///
    /// Relies on `chrono::Local::now` and the `Datelike`/`Timelike`
    /// accessors: chrono documents month in 1..=12, day in 1..=31, hour
    /// below 24 and minute below 60. The value itself depends on the clock,
    /// so nothing more is promised.
    #[verifier::external_body]
    pub fn now() -> (r: Self)
        ensures
            r.wf(),
    {
        let now = chrono::Local::now();
        Self {
            year: now.year() as u16,
            month: now.month() as u8,
            day: now.day() as u8,
            hour: now.hour() as u8,
            minute: now.minute() as u8,
        }
    }

    /// Renders the moment as `YYYY-MM-DD HH:MM`.
    pub fn to_string(&self) -> (r: String)
        ensures
            r@ == self.text_rep(),
    {
        let mut out: Vec<char> = Vec::new();
        push_padded_u64(self.year as u64, 4, &mut out);
        out.push('-');
        push_padded_u64(self.month as u64, 2, &mut out);
        out.push('-');
        push_padded_u64(self.day as u64, 2, &mut out);
        out.push(' ');
        push_padded_u64(self.hour as u64, 2, &mut out);
        out.push(':');
        push_padded_u64(self.minute as u64, 2, &mut out);
        assert(out@ =~= self.text_rep());
        chars_to_string(&out)
    }

    /// The signed difference between two moments, `self` minus `other`,
    /// normalized to days/hours/minutes with a separate sign flag.
    pub fn time_diff(&self, other: &Datetime) -> (r: TimeDiff)
        ensures
            r.wf(),
            r.signed_minutes() == self.spec_total_minutes() - other.spec_total_minutes(),
            r.is_negative == (self.spec_total_minutes() < other.spec_total_minutes()),
    {
        let self_total_minutes = self.to_total_minutes();
        let other_total_minutes = other.to_total_minutes();

        let diff_minutes = self_total_minutes - other_total_minutes;
        let is_negative = diff_minutes < 0;
        let abs_minutes = if diff_minutes < 0 {
            -diff_minutes
        } else {
            diff_minutes
        };

        let days = (abs_minutes / 1440) as i32;
        let hours = ((abs_minutes % 1440) / 60) as i8;
        let minutes = (abs_minutes % 60) as i8;

        let r = TimeDiff { days, hours, minutes, is_negative };
        proof {
            lemma_minute_decomposition(abs_minutes as int);
        }
        r
    }

    /// The simplified total-minutes projection as a machine integer.
    pub fn to_total_minutes(&self) -> (r: i64)
        ensures
            r == self.spec_total_minutes(),
            -43_200 <= r <= 34_456_551_555,
    {
        let days_in_month: i64 = 30;
        let total_days = (self.year as i64 * 365) + ((self.month as i64 - 1) * days_in_month) + (
        self.day as i64);
        let total_minutes = (total_days * 1440) + (self.hour as i64 * 60) + (self.minute as i64);
        total_minutes
    }

    /// Orders two moments by their total-minutes projection.
    pub fn cmp(&self, other: &Datetime) -> (r: core::cmp::Ordering)
        ensures
            r == core::cmp::Ordering::Less <==> self.spec_total_minutes()
                < other.spec_total_minutes(),
            r == core::cmp::Ordering::Equal <==> self.spec_total_minutes()
                == other.spec_total_minutes(),
            r == core::cmp::Ordering::Greater <==> self.spec_total_minutes()
                > other.spec_total_minutes(),
    {
        let a = self.to_total_minutes();
        let b = other.to_total_minutes();
        if a < b {
            core::cmp::Ordering::Less
        } else if a == b {
            core::cmp::Ordering::Equal
        } else {
            core::cmp::Ordering::Greater
        }
    }
}

/// Whether a character counts as surrounding whitespace in human input.
pub open spec fn is_ws(c: char) -> bool {
    c == ' ' || c == '\t' || c == '\n' || c == '\r'
}

/// The sequence with surrounding whitespace removed.
pub open spec fn trim_rec(s: Seq<char>) -> Seq<char>
    decreases s.len(),
{
    if s.len() > 0 && is_ws(s[0]) {
        trim_rec(s.skip(1))
    } else if s.len() > 0 && is_ws(s.last()) {
        trim_rec(s.drop_last())
    } else {
        s
    }
}

/// Whether a sequence has exactly the shape `YYYY-MM-DD HH:MM`.
pub open spec fn due_text_shape(s: Seq<char>) -> bool {
    &&& s.len() == 16
    &&& is_digit(s[0]) && is_digit(s[1]) && is_digit(s[2]) && is_digit(s[3])
    &&& s[4] == '-'
    &&& is_digit(s[5]) && is_digit(s[6])
    &&& s[7] == '-'
    &&& is_digit(s[8]) && is_digit(s[9])
    &&& s[10] == ' '
    &&& is_digit(s[11]) && is_digit(s[12])
    &&& s[13] == ':'
    &&& is_digit(s[14]) && is_digit(s[15])
}

/// What parsing a due-date text yields: after trimming, the text must have
/// exactly the shape `YYYY-MM-DD HH:MM` and every field must be in range.
pub open spec fn parse_due_text(s: Seq<char>) -> Option<Datetime> {
    let t = trim_rec(s);
    if due_text_shape(t) {
        let d = Datetime {
            year: dec_val(t.subrange(0, 4)) as u16,
            month: dec_val(t.subrange(5, 7)) as u8,
            day: dec_val(t.subrange(8, 10)) as u8,
            hour: dec_val(t.subrange(11, 13)) as u8,
            minute: dec_val(t.subrange(14, 16)) as u8,
        };
        if d.wf() {
            Some(d)
        } else {
            None
        }
    } else {
        None
    }
}

/// The numeric value of a digit character.
fn digit_value(c: char) -> (d: u8)
    requires
        is_digit(c),
    ensures
        d as int == crate::digits::digit_val(c),
        d < 10,
{
    (c as u8) - ('0' as u8)
}

/// Whether a character counts as surrounding whitespace.
fn is_ws_exec(c: char) -> (r: bool)
    ensures
        r == is_ws(c),
{
    c == ' ' || c == '\t' || c == '\n' || c == '\r'
}

/// Whether a character is a decimal digit.
fn is_digit_exec(c: char) -> (r: bool)
    ensures
        r == is_digit(c),
{
    '0' <= c && c <= '9'
}

impl Datetime {
    /// Parses a due-date text of the exact shape `YYYY-MM-DD HH:MM`
    /// (surrounding whitespace ignored), validating every field's range.
    pub fn from_string(s: &str) -> (r: Option<Datetime>)
        ensures
            r == parse_due_text(s@),
            r is Some ==> r->Some_0.wf(),
    {
        let v = str_to_chars(s);
        let mut lo: usize = 0;
        let mut hi: usize = v.len();
        assert(v@.subrange(0, v@.len() as int) =~= v@);
        while lo < hi && is_ws_exec(v[lo])
            invariant
                v@ == s@,
                0 <= lo <= hi <= v@.len(),
                trim_rec(s@) == trim_rec(v@.subrange(lo as int, hi as int)),
            decreases hi - lo,
        {
            assert(v@.subrange(lo as int, hi as int).skip(1) =~= v@.subrange(
                lo as int + 1,
                hi as int,
            ));
            lo = lo + 1;
        }
        while lo < hi && is_ws_exec(v[hi - 1])
            invariant
                v@ == s@,
                0 <= lo <= hi <= v@.len(),
                trim_rec(s@) == trim_rec(v@.subrange(lo as int, hi as int)),
                lo < hi ==> !is_ws(v@[lo as int]),
            decreases hi - lo,
        {
            assert(v@.subrange(lo as int, hi as int).drop_last() =~= v@.subrange(
                lo as int,
                hi as int - 1,
            ));
            hi = hi - 1;
        }
        let ghost t = v@.subrange(lo as int, hi as int);
        proof {
            assert(trim_rec(t) == t);
            assert(trim_rec(s@) == t);
        }
        if hi - lo != 16 {
            return None;
        }
        // The fixed-width shape check.
        let shape_ok = is_digit_exec(v[lo]) && is_digit_exec(v[lo + 1]) && is_digit_exec(v[lo + 2])
            && is_digit_exec(v[lo + 3]) && v[lo + 4] == '-' && is_digit_exec(v[lo + 5])
            && is_digit_exec(v[lo + 6]) && v[lo + 7] == '-' && is_digit_exec(v[lo + 8])
            && is_digit_exec(v[lo + 9]) && v[lo + 10] == ' ' && is_digit_exec(v[lo + 11])
            && is_digit_exec(v[lo + 12]) && v[lo + 13] == ':' && is_digit_exec(v[lo + 14])
            && is_digit_exec(v[lo + 15]);
        proof {
            assert forall|k: int| 0 <= k < 16 implies t[k] == v@[lo + k] by {
            }
        }
        if !shape_ok {
            assert(!due_text_shape(t));
            return None;
        }
        assert(due_text_shape(t));
        let y0 = digit_value(v[lo]);
        let y1 = digit_value(v[lo + 1]);
        let y2 = digit_value(v[lo + 2]);
        let y3 = digit_value(v[lo + 3]);
        let year: u16 = ((y0 as u16) * 10 + y1 as u16) * 100 + (y2 as u16) * 10 + y3 as u16;
        let month: u8 = digit_value(v[lo + 5]) * 10 + digit_value(v[lo + 6]);
        let day: u8 = digit_value(v[lo + 8]) * 10 + digit_value(v[lo + 9]);
        let hour: u8 = digit_value(v[lo + 11]) * 10 + digit_value(v[lo + 12]);
        let minute: u8 = digit_value(v[lo + 14]) * 10 + digit_value(v[lo + 15]);
        proof {
            lemma_two_digit_val(t, 5);
            lemma_two_digit_val(t, 8);
            lemma_two_digit_val(t, 11);
            lemma_two_digit_val(t, 14);
            lemma_four_digit_val(t);
        }
        let d = Datetime { year, month, day, hour, minute };
        if 1 <= month && month <= 12 && 1 <= day && day <= 31 && hour < 24 && minute < 60 {
            Some(d)
        } else {
            None
        }
    }
}

/// The value of a two-digit slice, digit by digit.
proof fn lemma_two_digit_val(t: Seq<char>, k: int)
    requires
        0 <= k,
        k + 2 <= t.len(),
    ensures
        dec_val(t.subrange(k, k + 2)) == digit_val(t[k]) * 10 + digit_val(t[k + 1]),
{
    let s = t.subrange(k, k + 2);
    let s1 = t.subrange(k, k + 1);
    assert(s.drop_last() =~= s1);
    assert(s1.drop_last() =~= Seq::<char>::empty());
    assert(dec_val(Seq::<char>::empty()) == 0);
    assert(s1.last() == t[k]);
    assert(s.last() == t[k + 1]);
    assert(dec_val(s1) == dec_val(s1.drop_last()) * 10 + digit_val(s1.last()));
    assert(dec_val(s) == dec_val(s.drop_last()) * 10 + digit_val(s.last()));
}

/// The value of a four-digit prefix, digit by digit.
proof fn lemma_four_digit_val(t: Seq<char>)
    requires
        t.len() >= 4,
    ensures
        dec_val(t.subrange(0, 4)) == ((digit_val(t[0]) * 10 + digit_val(t[1])) * 100 + digit_val(
            t[2],
        ) * 10 + digit_val(t[3])),
{
    lemma_two_digit_val(t, 0);
    let s = t.subrange(0, 4);
    let s3 = t.subrange(0, 3);
    let s2 = t.subrange(0, 2);
    assert(s.drop_last() =~= s3);
    assert(s3.drop_last() =~= s2);
    assert(s3.last() == t[2]);
    assert(s.last() == t[3]);
    assert(dec_val(s3) == dec_val(s3.drop_last()) * 10 + digit_val(s3.last()));
    assert(dec_val(s) == dec_val(s.drop_last()) * 10 + digit_val(s.last()));
}

/// Splitting a minute count by whole days, then hours, then minutes loses
/// nothing.
proof fn lemma_minute_decomposition(m: int)
    requires
        m >= 0,
    ensures
        (m / 1440) * 1440 + ((m % 1440) / 60) * 60 + m % 60 == m,
        0 <= m % 1440 / 60 < 24,
        0 <= m % 60 < 60,
        0 <= m / 1440,
{
    assert((m / 1440) * 1440 + ((m % 1440) / 60) * 60 + m % 60 == m) by (nonlinear_arith)
        requires
            m >= 0,
    ;
    assert(0 <= m % 1440 / 60 < 24 && 0 <= m % 60 < 60 && 0 <= m / 1440) by (nonlinear_arith)
        requires
            m >= 0,
    ;
}

} // verus!
