//! Log lines and identifiers: time stamps in UTC computed from the seconds
//! since the epoch, run and session identifiers, and the shape of a line.
//! The clock is the caller's: every function takes the time as an argument.

use vstd::prelude::*;
use vstd::string::*;
use crate::text::{push_padded, spec_padded};

verus! {

/// A date of the Gregorian calendar.
#[derive(Clone, Copy, PartialEq, Eq, Structural, Debug)]
pub struct CivilDate {
    pub year: u64,
    pub month: u64,
    pub day: u64,
}

/// Whether `year` is a leap year.
pub open spec fn spec_is_leap(year: int) -> bool {
    year % 4 == 0 && (year % 100 != 0 || year % 400 == 0)
}

/// Days of the month `month` in `year`.
pub open spec fn spec_days_in_month(year: int, month: int) -> int {
    if month == 2 {
        if spec_is_leap(year) {
            29
        } else {
            28
        }
    } else if month == 4 || month == 6 || month == 9 || month == 11 {
        30
    } else {
        31
    }
}

/// Whether the date exists.
pub open spec fn spec_valid_date(d: CivilDate) -> bool {
    1 <= d.month <= 12 && 1 <= d.day <= spec_days_in_month(d.year as int, d.month as int)
}

/// The number of the day `year`-`month`-`day`, counted from 1970-01-01.
pub open spec fn spec_days_from_civil(year: int, month: int, day: int) -> int {
    let y = if month <= 2 {
        year - 1
    } else {
        year
    };
    let era = y / 400;
    let yoe = y - era * 400;
    let mp = if month > 2 {
        month - 3
    } else {
        month + 9
    };
    let doy = (153 * mp + 2) / 5 + day - 1;
    let doe = yoe * 365 + yoe / 4 - yoe / 100 + doy;
    era * 146097 + doe - 719468
}

/// Days of a 400-year era before its `yoe`-th year, the years beginning in
/// March.
pub open spec fn spec_days_before_year(yoe: int) -> int {
    365 * yoe + yoe / 4 - yoe / 100
}

/// The year of the era in which its `doe`-th day falls.
pub open spec fn spec_year_of_era(doe: int) -> int {
    (doe - doe / 1460 + doe / 36524 - doe / 146096) / 365
}

/// The year of the era is the one whose days hold the day of the era; its
/// last day is day 365 only in a leap year.
proof fn lemma_year_of_era(doe: u32)
    requires
        doe <= 146096,
    ensures
        ({
            let yoe = spec_year_of_era(doe as int);
            let doy = doe - spec_days_before_year(yoe);
            &&& 0 <= yoe <= 399
            &&& 0 <= doy <= 365
            &&& doy == 365 ==> ((yoe + 1) % 4 == 0 && (yoe + 1) % 100 != 0) || yoe == 399
        }),
{
    let q1: u32 = doe / 1460;
    let q2: u32 = doe / 36524;
    let q3: u32 = doe / 146096;
    let up: u32 = (doe + q2) as u32;
    let down: u32 = (q1 + q3) as u32;
    let t: u32 = (up - down) as u32;
    let yoe: u32 = t / 365;
    let a: u32 = yoe / 4;
    let b: u32 = yoe / 100;
    let gross: u32 = (365 * yoe + a) as u32;
    let base: u32 = (gross - b) as u32;
    let last: u32 = (base + 365) as u32;
    let next: u32 = (yoe + 1) as u32;
    let n4: u32 = next % 4;
    let n100: u32 = next % 100;
    assert(down <= up && yoe <= 399 && b <= gross && base <= doe && doe <= last && (doe == last ==> (
    n4 == 0 && n100 != 0) || yoe == 399)) by (bit_vector)
        requires
            doe <= 146096,
            q1 == doe / 1460,
            q2 == doe / 36524,
            q3 == doe / 146096,
            up == doe + q2,
            down == q1 + q3,
            down <= up ==> up == t + down,
            yoe == t / 365,
            a == yoe / 4,
            b == yoe / 100,
            gross == 365 * yoe + a,
            b <= gross ==> gross == base + b,
            last == base + 365,
            next == yoe + 1,
            n4 == next % 4,
            n100 == next % 100,
    ;
}

/// The month, counted from March, and the day of the month of the `doy`-th
/// day of a year that begins in March.
proof fn lemma_month_of_year(doy: u32)
    requires
        doy <= 365,
    ensures
        ({
            let mp = (5 * doy + 2) / 153;
            let d = doy - (153 * mp + 2) / 5 + 1;
            &&& 0 <= mp <= 11
            &&& 1 <= d <= 31
            &&& (mp == 1 || mp == 3 || mp == 6 || mp == 8) ==> d <= 30
            &&& mp == 11 ==> d <= 29 && (d == 29 ==> doy == 365)
        }),
{
    let x: u32 = (5 * doy + 2) as u32;
    let mp: u32 = x / 153;
    let y: u32 = (153 * mp + 2) as u32;
    let first: u32 = y / 5;
    let end30: u32 = (first + 30) as u32;
    let end28: u32 = (first + 28) as u32;
    assert(mp <= 11 && first <= doy && doy <= end30 && ((mp == 1 || mp == 3 || mp == 6 || mp == 8)
        ==> doy < end30) && (mp == 11 ==> doy <= end28 && (doy == end28 ==> doy == 365))) by (bit_vector)
        requires
            doy <= 365,
            x == 5 * doy + 2,
            mp == x / 153,
            y == 153 * mp + 2,
            first == y / 5,
            end30 == first + 30,
            end28 == first + 28,
    ;
}

/// The date of day number `z`, counted from 1970-01-01, for `z` from zero
/// up: the day is placed in its 400-year era, then in its year, which
/// begins in March, then in its month.
pub open spec fn spec_civil_from_days(z: int) -> CivilDate {
    let shifted = z + 719468;
    let era = shifted / 146097;
    let doe = shifted - era * 146097;
    let yoe = spec_year_of_era(doe);
    let doy = doe - spec_days_before_year(yoe);
    let mp = (5 * doy + 2) / 153;
    let day = doy - (153 * mp + 2) / 5 + 1;
    let month = if mp < 10 {
        mp + 3
    } else {
        mp - 9
    };
    let year = yoe + era * 400 + if month <= 2 {
        1int
    } else {
        0int
    };
    CivilDate { year: year as u64, month: month as u64, day: day as u64 }
}

/// From the day on which the count begins, the year of the era is 369 at
/// least, and in that year the day is one of January or February.
proof fn lemma_year_from_epoch(doe: u32)
    requires
        135080 <= doe <= 146096,
    ensures
        ({
            let yoe = spec_year_of_era(doe as int);
            let doy = doe - spec_days_before_year(yoe);
            yoe >= 369 && (yoe == 369 ==> doy >= 306)
        }),
{
    let q1: u32 = doe / 1460;
    let q2: u32 = doe / 36524;
    let q3: u32 = doe / 146096;
    let up: u32 = (doe + q2) as u32;
    let down: u32 = (q1 + q3) as u32;
    let t: u32 = (up - down) as u32;
    let yoe: u32 = t / 365;
    let first: u32 = 135080;
    assert(down <= up && yoe >= 369 && (yoe == 369 ==> doe >= first)) by (bit_vector)
        requires
            135080 <= doe <= 146096,
            q1 == doe / 1460,
            q2 == doe / 36524,
            q3 == doe / 146096,
            up == doe + q2,
            down == q1 + q3,
            down <= up ==> up == t + down,
            yoe == t / 365,
            first == 135080,
    ;
}

/// A day placed in its era, year and month gives a date that exists, and
/// the day number of that date is the day it was placed from.
proof fn lemma_placed_date(era: int, yoe: int, doy: int)
    requires
        0 <= era,
        0 <= yoe <= 399,
        0 <= doy <= 365,
        doy == 365 ==> ((yoe + 1) % 4 == 0 && (yoe + 1) % 100 != 0) || yoe == 399,
        ({
            let mp = (5 * doy + 2) / 153;
            let d = doy - (153 * mp + 2) / 5 + 1;
            &&& 0 <= mp <= 11
            &&& 1 <= d <= 31
            &&& (mp == 1 || mp == 3 || mp == 6 || mp == 8) ==> d <= 30
            &&& mp == 11 ==> d <= 29 && (d == 29 ==> doy == 365)
        }),
    ensures
        ({
            let mp = (5 * doy + 2) / 153;
            let d = doy - (153 * mp + 2) / 5 + 1;
            let m = if mp < 10 {
                mp + 3
            } else {
                mp - 9
            };
            let year = yoe + era * 400 + if m <= 2 {
                1int
            } else {
                0int
            };
            &&& 1 <= m <= 12
            &&& 1 <= d <= spec_days_in_month(year, m)
            &&& spec_days_from_civil(year, m, d) == era * 146097 + spec_days_before_year(yoe) + doy
                - 719468
        }),
{
    let mp = (5 * doy + 2) / 153;
    let d = doy - (153 * mp + 2) / 5 + 1;
    let m = if mp < 10 {
        mp + 3
    } else {
        mp - 9
    };
    let y = yoe + era * 400;
    let year = if m <= 2 {
        y + 1
    } else {
        y
    };
    assert(y / 400 == era && y - era * 400 == yoe);
    if m == 2 && d == 29 {
        assert(doy == 365);
        assert(year == yoe + 1 + era * 400);
        assert(spec_is_leap(year));
    }
    assert(1 <= d <= spec_days_in_month(year, m));
    let back = if m > 2 {
        m - 3
    } else {
        m + 9
    };
    assert(back == mp);
}

/// The date of day number `z`, counted from 1970-01-01. It is a date that
/// exists, and the day number of that date is `z` again.
pub fn civil_from_days(z: u64) -> (r: CivilDate)
    requires
        z <= 0xFFFF_FFFF_FFFF,
    ensures
        r == spec_civil_from_days(z as int),
        spec_valid_date(r),
        spec_days_from_civil(r.year as int, r.month as int, r.day as int) == z,
        r.year >= 1970,
{
    let shifted = z + 719468;
    let era = shifted / 146097;
    let doe = shifted - era * 146097;
    proof {
        lemma_year_of_era(doe as u32);
        if era == 4 {
            lemma_year_from_epoch(doe as u32);
        }
    }
    let yoe = (doe - doe / 1460 + doe / 36524 - doe / 146096) / 365;
    let y = yoe + era * 400;
    let doy = doe - (365 * yoe + yoe / 4 - yoe / 100);
    proof {
        lemma_month_of_year(doy as u32);
        lemma_placed_date(era as int, yoe as int, doy as int);
    }
    let mp = (5 * doy + 2) / 153;
    let d = doy - (153 * mp + 2) / 5 + 1;
    let m = if mp < 10 {
        mp + 3
    } else {
        mp - 9
    };
    let year = if m <= 2 {
        y + 1
    } else {
        y
    };
    CivilDate { year, month: m, day: d }
}

/// The date of the second `secs` after the epoch.
pub open spec fn spec_date_of(secs: u64) -> CivilDate {
    spec_civil_from_days((secs / 86400) as int)
}

/// The time of day of the second `secs`, as `HH:MM:SS`.
pub open spec fn spec_clock(secs: u64) -> Seq<char> {
    let sod = secs % 86400;
    spec_padded((sod / 3600) as nat, 2) + ":"@ + spec_padded(((sod % 3600) / 60) as nat, 2) + ":"@
        + spec_padded((sod % 60) as nat, 2)
}

/// The time of day of the second `secs`, as `hhmmss`.
pub open spec fn spec_compact_clock(secs: u64) -> Seq<char> {
    let sod = secs % 86400;
    spec_padded((sod / 3600) as nat, 2) + spec_padded(((sod % 3600) / 60) as nat, 2) + spec_padded(
        (sod % 60) as nat,
        2,
    )
}

/// A date as `YYYY-MM-DD`.
pub open spec fn spec_date_text(d: CivilDate) -> Seq<char> {
    spec_padded(d.year as nat, 4) + "-"@ + spec_padded(d.month as nat, 2) + "-"@ + spec_padded(
        d.day as nat,
        2,
    )
}

/// A date as `YYYYMMDD`.
pub open spec fn spec_compact_date_text(d: CivilDate) -> Seq<char> {
    spec_padded(d.year as nat, 4) + spec_padded(d.month as nat, 2) + spec_padded(d.day as nat, 2)
}

/// The time stamp of a log line: `YYYY-MM-DD HH:MM:SS.mmm`, in UTC.
pub open spec fn spec_log_timestamp(date: CivilDate, secs: u64, millis: u32) -> Seq<char> {
    spec_date_text(date) + " "@ + spec_clock(secs) + "."@ + spec_padded(millis as nat, 3)
}

/// The time stamp of an identifier: `YYYYMMDDThhmmssZ`, in UTC.
pub open spec fn spec_compact_timestamp(date: CivilDate, secs: u64) -> Seq<char> {
    spec_compact_date_text(date) + "T"@ + spec_compact_clock(secs) + "Z"@
}

/// The time stamp of a log line for the instant `secs` seconds and `millis`
/// milliseconds after the epoch.
pub fn log_timestamp(secs: u64, millis: u32) -> (r: String)
    ensures
        r@ == spec_log_timestamp(spec_date_of(secs), secs, millis),
{
    let date = civil_from_days(secs / 86400);
    let sod = secs % 86400;
    let mut out = String::new();
    push_padded(&mut out, date.year, 4);
    out.append("-");
    push_padded(&mut out, date.month, 2);
    out.append("-");
    push_padded(&mut out, date.day, 2);
    assert(out@ == spec_date_text(date));
    out.append(" ");
    let ghost head = out@;
    push_padded(&mut out, sod / 3600, 2);
    out.append(":");
    push_padded(&mut out, (sod % 3600) / 60, 2);
    out.append(":");
    push_padded(&mut out, sod % 60, 2);
    assert(out@ == head + spec_clock(secs));
    out.append(".");
    push_padded(&mut out, millis as u64, 3);
    out
}

/// The time stamp of an identifier for the instant `secs` seconds after
/// the epoch.
pub fn compact_utc_timestamp(secs: u64) -> (r: String)
    ensures
        r@ == spec_compact_timestamp(spec_date_of(secs), secs),
{
    let date = civil_from_days(secs / 86400);
    let sod = secs % 86400;
    let mut out = String::new();
    push_padded(&mut out, date.year, 4);
    push_padded(&mut out, date.month, 2);
    push_padded(&mut out, date.day, 2);
    assert(out@ == spec_compact_date_text(date));
    out.append("T");
    let ghost head = out@;
    push_padded(&mut out, sod / 3600, 2);
    push_padded(&mut out, (sod % 3600) / 60, 2);
    push_padded(&mut out, sod % 60, 2);
    assert(out@ == head + spec_compact_clock(secs));
    out.append("Z");
    out
}

/// The state of the log that outlives a line: the identifier of the run
/// and the count of the sessions begun so far.
pub struct LogContext {
    run_id: String,
    sessions: u64,
}

/// The digit of `d` in base sixteen, in lower case.
pub open spec fn hex_char(d: int) -> char {
    if d == 0 {
        '0'
    } else if d == 1 {
        '1'
    } else if d == 2 {
        '2'
    } else if d == 3 {
        '3'
    } else if d == 4 {
        '4'
    } else if d == 5 {
        '5'
    } else if d == 6 {
        '6'
    } else if d == 7 {
        '7'
    } else if d == 8 {
        '8'
    } else if d == 9 {
        '9'
    } else if d == 10 {
        'a'
    } else if d == 11 {
        'b'
    } else if d == 12 {
        'c'
    } else if d == 13 {
        'd'
    } else if d == 14 {
        'e'
    } else {
        'f'
    }
}

/// The numeral of `n` in base sixteen with at least `width` digits.
pub open spec fn spec_hex(n: nat, width: nat) -> Seq<char>
    decreases n, width,
{
    if n < 16 && width <= 1 {
        seq![hex_char(n as int)]
    } else {
        spec_hex(n / 16, if width > 0 {
            (width - 1) as nat
        } else {
            0
        }).push(hex_char((n % 16) as int))
    }
}

fn hex_digit(d: u64) -> (c: char)
    requires
        d < 16,
    ensures
        c == hex_char(d as int),
{
    if d == 0 {
        '0'
    } else if d == 1 {
        '1'
    } else if d == 2 {
        '2'
    } else if d == 3 {
        '3'
    } else if d == 4 {
        '4'
    } else if d == 5 {
        '5'
    } else if d == 6 {
        '6'
    } else if d == 7 {
        '7'
    } else if d == 8 {
        '8'
    } else if d == 9 {
        '9'
    } else if d == 10 {
        'a'
    } else if d == 11 {
        'b'
    } else if d == 12 {
        'c'
    } else if d == 13 {
        'd'
    } else if d == 14 {
        'e'
    } else {
        'f'
    }
}

/// The numeral of `n` in base sixteen with at least `width` digits.
pub fn hex_string(n: u64, width: usize) -> (r: String)
    ensures
        r@ == spec_hex(n as nat, width as nat),
{
    let mut rev: Vec<char> = Vec::new();
    let mut m = n;
    let mut w = width;
    while !(m < 16 && w <= 1)
        invariant
            spec_hex(n as nat, width as nat) == spec_hex(m as nat, w as nat) + rev@.reverse(),
        decreases m, w,
    {
        let d = hex_digit(m % 16);
        let w2 = if w > 0 {
            w - 1
        } else {
            0
        };
        proof {
            assert(spec_hex(m as nat, w as nat) == spec_hex((m / 16) as nat, w2 as nat).push(d));
            assert(rev@.push(d).reverse() == seq![d] + rev@.reverse());
            assert(spec_hex((m / 16) as nat, w2 as nat).push(d) + rev@.reverse() == spec_hex(
                (m / 16) as nat,
                w2 as nat,
            ) + (seq![d] + rev@.reverse()));
        }
        rev.push(d);
        m = m / 16;
        w = w2;
    }
    let d = hex_digit(m);
    proof {
        assert(rev@.push(d).reverse() == seq![d] + rev@.reverse());
        assert(spec_hex(m as nat, w as nat) == seq![d]);
    }
    rev.push(d);
    let mut out = String::new();
    let mut i: usize = rev.len();
    while i > 0
        invariant
            i <= rev.len(),
            out@ == rev@.reverse().take(rev.len() - i),
        decreases i,
    {
        i -= 1;
        out.push(rev[i]);
        proof {
            let r = rev@.reverse();
            assert(r[rev.len() - 1 - i] == rev@[i as int]);
            assert(r.take(rev.len() - i) == r.take(rev.len() - i - 1).push(r[rev.len() - 1 - i]));
        }
    }
    assert(rev@.reverse().take(rev.len() as int) == rev@.reverse());
    out
}

/// The identifier of a run that began `now_nanos` nanoseconds after the
/// epoch in the process `pid`: the two numbers combined bit by bit, in base
/// sixteen, eight digits at least.
pub fn make_run_id(now_nanos: u64, pid: u32) -> (r: String)
    ensures
        r@ == spec_hex((now_nanos ^ (pid as u64)) as nat, 8),
{
    hex_string(now_nanos ^ (pid as u64), 8)
}

/// The identifier of the `n`-th session begun under `prefix`, at the
/// instant with the compact time stamp `stamp`.
pub open spec fn spec_session_id(prefix: Seq<char>, stamp: Seq<char>, n: u64) -> Seq<char> {
    prefix + "_"@ + stamp + "_"@ + spec_padded(n as nat, 4)
}

impl LogContext {
    /// The identifier of the run.
    pub closed spec fn spec_run_id(&self) -> Seq<char> {
        self.run_id@
    }

    /// How many sessions were begun.
    pub closed spec fn spec_sessions(&self) -> u64 {
        self.sessions
    }

    /// The log state of a run that began `now_nanos` nanoseconds after the
    /// epoch in the process `pid`.
    pub fn init(now_nanos: u64, pid: u32) -> (r: Self)
        ensures
            r.spec_run_id() == spec_hex((now_nanos ^ (pid as u64)) as nat, 8),
            r.spec_sessions() == 0,
    {
        LogContext { run_id: make_run_id(now_nanos, pid), sessions: 0 }
    }
}

/// The identifier of the run.
pub fn run_id(ctx: &LogContext) -> (r: &str)
    ensures
        r@ == ctx.spec_run_id(),
{
    ctx.run_id.as_str()
}

/// Begins a session at `secs` seconds after the epoch and returns its
/// identifier: the prefix, the compact time stamp and the session's number,
/// four digits at least. The count goes round after the largest number.
pub fn make_session_id(ctx: &mut LogContext, prefix: &str, secs: u64) -> (r: String)
    ensures
        final(ctx).spec_run_id() == old(ctx).spec_run_id(),
        final(ctx).spec_sessions() == if old(ctx).spec_sessions() == u64::MAX {
            0
        } else {
            (old(ctx).spec_sessions() + 1) as u64
        },
        r@ == spec_session_id(
            prefix@,
            spec_compact_timestamp(spec_date_of(secs), secs),
            old(ctx).spec_sessions(),
        ),
{
    let n = ctx.sessions;
    ctx.sessions = if n == u64::MAX {
        0
    } else {
        n + 1
    };
    let stamp = compact_utc_timestamp(secs);
    let mut out = String::from_str(prefix);
    out.append("_");
    out.append(stamp.as_str());
    out.append("_");
    push_padded(&mut out, n, 4);
    out
}

/// A log line: time stamp, tag and thread in brackets, message.
pub open spec fn spec_log_line(stamp: Seq<char>, tag: Seq<char>, thread: Seq<char>, msg: Seq<char>) -> Seq<
    char,
> {
    stamp + " ["@ + tag + "]["@ + thread + "] "@ + msg
}

/// Puts a log line together.
pub fn format_log_line(stamp: &str, tag: &str, thread: &str, msg: &str) -> (r: String)
    ensures
        r@ == spec_log_line(stamp@, tag@, thread@, msg@),
{
    let mut out = String::from_str(stamp);
    out.append(" [");
    out.append(tag);
    out.append("][");
    out.append(thread);
    out.append("] ");
    out.append(msg);
    out
}

/// The name under which a thread appears in a log line.
pub fn log_thread_name(name: Option<&str>) -> (r: String)
    ensures
        r@ == match name {
            Some(n) => n@,
            None => "main"@,
        },
{
    match name {
        Some(n) => String::from_str(n),
        None => String::from_str("main"),
    }
}

/// How much a log line matters.
#[derive(Clone, Copy, PartialEq, Eq, Structural, Debug)]
pub enum LogLevel {
    Trace,
    Debug,
    Info,
    Warn,
    Error,
}

/// The word for a level in a log line.
pub fn level_word(level: LogLevel) -> (r: &'static str)
    ensures
        r@ == match level {
            LogLevel::Trace => "TRACE"@,
            LogLevel::Debug => "DEBUG"@,
            LogLevel::Info => "INFO"@,
            LogLevel::Warn => "WARN"@,
            LogLevel::Error => "ERROR"@,
        },
{
    match level {
        LogLevel::Trace => "TRACE",
        LogLevel::Debug => "DEBUG",
        LogLevel::Info => "INFO",
        LogLevel::Warn => "WARN",
        LogLevel::Error => "ERROR",
    }
}

} // verus!
