use vstd::prelude::*;
use chrono::{Datelike, TimeZone};
use crate::view::{Tick, Timeline};

verus! {

pub const SECS_PER_DAY: u64 = 86_400;

/// The calendar date (year, month, day) of a day counted from 1970-01-01,
/// as chrono's proleptic Gregorian calendar gives it.
pub uninterp spec fn date_of_epoch_day(days: i32) -> Option<(i32, u32, u32)>;

/// Relies on chrono's `NaiveDate::from_epoch_days` and its `Datelike`
/// accessors: the date of a day number, `None` out of chrono's range; months
/// run from 1 to 12 and days from 1 to 31.
#[verifier::external_body]
fn epoch_day_date(days: i32) -> (r: Option<(i32, u32, u32)>)
    ensures
        r == date_of_epoch_day(days),
        r matches Some(d) ==> 1 <= d.1 <= 12 && 1 <= d.2 <= 31,
{
    match chrono::NaiveDate::from_epoch_days(days) {
        Some(d) => Some((d.year(), d.month(), d.day())),
        None => None,
    }
}

/// Relies on chrono's `Local` time zone: the offset from UTC, in seconds, in
/// force at `utc_secs` in the machine's zone (`None` out of chrono's range).
/// A chrono `FixedOffset` lies strictly within a day.
#[verifier::external_body]
fn local_offset_secs(utc_secs: i64) -> (r: Option<i32>)
    ensures
        r matches Some(o) ==> -86_400 < o < 86_400,
{
    match chrono::DateTime::from_timestamp(utc_secs, 0) {
        Some(t) => Some(chrono::Local.offset_from_utc_datetime(&t.naive_utc()).local_minus_utc()),
        None => None,
    }
}

/// Relies on std's `String: FromIterator<char>`: the characters in order.
#[verifier::external_body]
pub(crate) fn string_from_chars(v: &Vec<char>) -> (r: String)
    ensures
        r@ == v@,
{
    v.iter().collect()
}

pub open spec fn digit_chars() -> Seq<char> {
    seq!['0', '1', '2', '3', '4', '5', '6', '7', '8', '9']
}

/// The decimal digits of `n`.
pub open spec fn decimal(n: nat) -> Seq<char>
    decreases n,
{
    if n < 10 {
        seq![digit_chars()[n as int]]
    } else {
        decimal(n / 10).push(digit_chars()[(n % 10) as int])
    }
}

/// The decimal digits of `n`, zero-padded on the left to `width`.
pub open spec fn padded(n: nat, width: nat) -> Seq<char> {
    let d = decimal(n);
    if d.len() < width {
        Seq::new((width - d.len()) as nat, |i: int| '0') + d
    } else {
        d
    }
}

/// A year as four digits at least, a negative one with a sign.
pub open spec fn year_text(y: int) -> Seq<char> {
    if y >= 0 {
        padded(y as nat, 4)
    } else {
        seq!['-'] + padded((-y) as nat, 3)
    }
}

/// The label of a tick at the given local date and time: `HH:MM`, with
/// `:SS` for a grain of seconds, after `MM/DD` and a line break at midnight,
/// after `YYYY/MM/DD` and a line break at the first midnight of a year.
pub open spec fn label_of(
    with_sec: bool,
    date: Option<(i32, u32, u32)>,
    hour: nat,
    minute: nat,
    second: nat,
) -> Seq<char> {
    let time = padded(hour, 2) + seq![':'] + padded(minute, 2) + if with_sec {
        seq![':'] + padded(second, 2)
    } else {
        Seq::empty()
    };
    match date {
        Some((y, mo, d)) => if hour == 0 && minute == 0 {
            let md = padded(mo as nat, 2) + seq!['/'] + padded(d as nat, 2) + seq!['\n'];
            if mo == 1 && d == 1 {
                year_text(y as int) + seq!['/'] + md + time
            } else {
                md + time
            }
        } else {
            time
        },
        None => time,
    }
}

/// The date of the local instant `ms` (milliseconds since the epoch).
pub open spec fn date_at(ms: nat) -> Option<(i32, u32, u32)> {
    let days = ms / (SECS_PER_DAY as nat * 1000);
    if days <= i32::MAX {
        date_of_epoch_day(days as i32)
    } else {
        None
    }
}

/// The label of the tick at local instant `ms`.
pub open spec fn label_at(with_sec: bool, ms: nat) -> Seq<char> {
    let secs = ms / 1000;
    let of_day = secs % SECS_PER_DAY as nat;
    label_of(with_sec, date_at(ms), of_day / 3600, of_day % 3600 / 60, of_day % 60)
}

fn digit_char(d: u64) -> (r: char)
    requires
        d < 10,
    ensures
        r == digit_chars()[d as int],
{
    match d {
        0 => '0',
        1 => '1',
        2 => '2',
        3 => '3',
        4 => '4',
        5 => '5',
        6 => '6',
        7 => '7',
        8 => '8',
        _ => '9',
    }
}

pub(crate) fn push_decimal(out: &mut Vec<char>, n: u64)
    ensures
        final(out)@ == old(out)@ + decimal(n as nat),
    decreases n,
{
    if n >= 10 {
        push_decimal(out, n / 10);
    }
    out.push(digit_char(n % 10));
    proof {
        if n >= 10 {
            assert(decimal(n as nat) == decimal((n / 10) as nat).push(digit_chars()[(n % 10) as int]));
        }
    }
}

pub(crate) fn push_padded(out: &mut Vec<char>, n: u64, width: usize)
    ensures
        final(out)@ == old(out)@ + padded(n as nat, width as nat),
{
    let mut digits: Vec<char> = Vec::new();
    push_decimal(&mut digits, n);
    assert(digits@ =~= decimal(n as nat));
    let ghost start = out@;
    let mut k: usize = digits.len();
    while k < width
        invariant
            digits.len() <= k <= width || (k == digits.len() && k >= width),
            out@ == start + Seq::new((k - digits@.len()) as nat, |i: int| '0'),
        decreases width - k,
    {
        out.push('0');
        k = k + 1;
        assert(out@ =~= start + Seq::new((k - digits@.len()) as nat, |i: int| '0'));
    }
    let mut j: usize = 0;
    let ghost mid = out@;
    while j < digits.len()
        invariant
            j <= digits@.len(),
            out@ == mid + digits@.take(j as int),
        decreases digits@.len() - j,
    {
        out.push(digits[j]);
        j = j + 1;
        assert(out@ =~= mid + digits@.take(j as int));
    }
    assert(digits@.take(j as int) == digits@);
    assert(out@ =~= start + padded(n as nat, width as nat));
}

fn push_str(out: &mut Vec<char>, c: char)
    ensures
        final(out)@ == old(out)@ + seq![c],
{
    out.push(c);
    assert(out@ =~= old(out)@ + seq![c]);
}

/// The label of a tick at a local date and time (see `label_of`).
pub fn format_label(
    with_sec: bool,
    date: Option<(i32, u32, u32)>,
    hour: u64,
    minute: u64,
    second: u64,
) -> (r: String)
    ensures
        r@ == label_of(with_sec, date, hour as nat, minute as nat, second as nat),
{
    let mut out: Vec<char> = Vec::new();
    let midnight = hour == 0 && minute == 0;
    match date {
        Some((y, mo, d)) => {
            if midnight {
                if mo == 1 && d == 1 {
                    if y >= 0 {
                        push_padded(&mut out, y as u64, 4);
                    } else {
                        push_str(&mut out, '-');
                        let neg: i64 = -(y as i64);
                        push_padded(&mut out, neg as u64, 3);
                    }
                    push_str(&mut out, '/');
                }
                push_padded(&mut out, mo as u64, 2);
                push_str(&mut out, '/');
                push_padded(&mut out, d as u64, 2);
                push_str(&mut out, '\n');
            }
        },
        None => {},
    }
    push_padded(&mut out, hour, 2);
    push_str(&mut out, ':');
    push_padded(&mut out, minute, 2);
    if with_sec {
        push_str(&mut out, ':');
        push_padded(&mut out, second, 2);
    }
    assert(out@ =~= label_of(with_sec, date, hour as nat, minute as nat, second as nat));
    string_from_chars(&out)
}

impl Tick {
    /// The label of a tick at the local instant `local_ms` (milliseconds
    /// since the epoch in local time).
    pub fn format(&self, local_ms: u64) -> (r: String)
        ensures
            r@ == label_at(self.with_sec, local_ms as nat),
    {
        let secs = local_ms / 1000;
        let days = secs / SECS_PER_DAY;
        let date = if days <= i32::MAX as u64 {
            epoch_day_date(days as i32)
        } else {
            None
        };
        let of_day = secs % SECS_PER_DAY;
        proof {
            assert(local_ms as nat / (SECS_PER_DAY as nat * 1000) == secs / SECS_PER_DAY) by {
                vstd::arithmetic::div_mod::lemma_div_denominator(local_ms as int, 1000, 86_400);
            }
        }
        format_label(self.with_sec, date, of_day / 3600, of_day % 3600 / 60, of_day % 60)
    }
}

/// `d` milliseconds after a local instant `origin`, strictly inside an axis
/// of `span` milliseconds, falls on a multiple of `interval`.
pub open spec fn is_tick(origin: nat, interval: nat, span: nat, d: nat) -> bool {
    0 < d < span && (origin + d) % interval == 0
}

proof fn lemma_next_tick(origin: nat, interval: nat, d: nat, e: nat)
    requires
        interval > 0,
        (origin + d) % interval == 0,
        d < e < d + interval,
    ensures
        (origin + e) % interval != 0,
{
    assert((origin + e) % interval != 0) by (nonlinear_arith)
        requires
            interval > 0,
            (origin + d) % interval == 0,
            d < e < d + interval,
    {
        let q = (origin + d) / interval;
        assert(origin + d == q * interval);
        assert(origin + e == q * interval + (e - d));
        assert(0 < e - d < interval);
    }
}

/// The offsets of the ticks of an axis of `span` milliseconds that starts at
/// local instant `origin`: every instant strictly inside it that falls on a
/// multiple of `interval`, in ascending order.
pub fn tick_offsets(origin: u64, interval: u64, span: u64) -> (r: Vec<u64>)
    requires
        interval > 0,
        origin + span + interval <= u64::MAX,
    ensures
        forall|i: int| 0 <= i < r@.len() ==> is_tick(origin as nat, interval as nat, span as nat, #[trigger] r@[i] as nat),
        forall|i: int, j: int| 0 <= i < j < r@.len() ==> #[trigger] r@[i] < #[trigger] r@[j],
        forall|d: nat| #[trigger] is_tick(origin as nat, interval as nat, span as nat, d) ==> r@.contains(d as u64),
{
    let mut d: u64 = interval - origin % interval;
    let mut out: Vec<u64> = Vec::new();
    proof {
        assert((origin + d) % (interval as int) == 0) by (nonlinear_arith)
            requires
                interval > 0,
                d == interval - origin % interval,
        {
            let q = origin / interval;
            assert(origin == q * interval + origin % interval);
            assert(origin + d == (q + 1) * interval);
        }
        assert forall|e: nat| e < d && #[trigger] is_tick(origin as nat, interval as nat, span as nat, e) implies false by {
            assert((origin + e) % (interval as int) != 0) by (nonlinear_arith)
                requires
                    interval > 0,
                    d == interval - origin % interval,
                    0 < e < d,
            {
                let q = origin / interval;
                assert(origin == q * interval + origin % interval);
                assert(origin + e == q * interval + (origin % interval + e));
                assert(0 < origin % interval + e < interval);
            }
        }
    }
    while d < span
        invariant
            interval > 0,
            origin + span + interval <= u64::MAX,
            0 < d <= span + interval,
            (origin + d) % (interval as int) == 0,
            forall|i: int| 0 <= i < out@.len() ==> is_tick(origin as nat, interval as nat, span as nat, #[trigger] out@[i] as nat),
            forall|i: int| 0 <= i < out@.len() ==> #[trigger] out@[i] < d,
            forall|i: int, j: int| 0 <= i < j < out@.len() ==> #[trigger] out@[i] < #[trigger] out@[j],
            forall|e: nat| e < d && #[trigger] is_tick(origin as nat, interval as nat, span as nat, e) ==> out@.contains(e as u64),
        decreases span + interval - d,
    {
        let ghost before = out@;
        out.push(d);
        proof {
            assert forall|e: nat| e < d + interval && #[trigger] is_tick(origin as nat, interval as nat, span as nat, e) implies out@.contains(e as u64) by {
                if e < d {
                    let k = choose|k: int| 0 <= k < before.len() && before[k] == e as u64;
                    assert(out@[k] == e as u64);
                } else if e == d {
                    assert(out@[before.len() as int] == d);
                } else {
                    lemma_next_tick(origin as nat, interval as nat, d as nat, e);
                }
            }
            assert((origin + d + interval) % (interval as int) == 0) by (nonlinear_arith)
                requires
                    interval > 0,
                    (origin + d) % (interval as int) == 0,
            {
                let q = (origin + d) / (interval as int);
                assert(origin + d == q * interval);
                assert(origin + d + interval == (q + 1) * interval);
            }
        }
        d = d + interval;
    }
    out
}

/// One tick of the time axis: its offset from the axis start in
/// milliseconds, and its label.
pub struct TickMark {
    pub offset: u64,
    pub label: String,
}

/// `r` holds the ticks of `t` labelled `offset_secs` east of UTC: at every
/// multiple of the grain strictly inside the axis, in ascending order; none
/// when the axis would start before the epoch in local time.
pub open spec fn marks_of(r: Seq<TickMark>, t: Timeline, offset_secs: int) -> bool {
    let local = t.created_timestamp + offset_secs * 1000;
    let interval = t.tick.interval_secs * 1000;
    let span = t.terminated_at - t.created_at;
    &&& local < 0 ==> r.len() == 0
    &&& local >= 0 ==> {
        &&& forall|i: int|
            0 <= i < r.len() ==> is_tick(local as nat, interval as nat, span as nat, (#[trigger] r[i]).offset as nat)
                && r[i].label@ == label_at(t.tick.with_sec, (local + r[i].offset) as nat)
        &&& forall|i: int, j: int| 0 <= i < j < r.len() ==> (#[trigger] r[i]).offset < (#[trigger] r[j]).offset
        &&& forall|d: nat|
            #[trigger] is_tick(local as nat, interval as nat, span as nat, d) ==> exists|i: int|
                0 <= i < r.len() && (#[trigger] r[i]).offset == d
    }
}

/// The ticks of `timeline` with labels in local time, `utc_offset_secs`
/// east of UTC: at every multiple of the grain strictly inside the axis, in
/// ascending order. An axis that would start before the epoch in local time
/// gets none.
pub fn tick_marks(timeline: &Timeline, utc_offset_secs: i32) -> (r: Vec<TickMark>)
    requires
        timeline.tick.interval_secs > 0,
        timeline.tick.interval_secs <= SECS_PER_DAY,
        timeline.created_at <= timeline.terminated_at,
        timeline.created_timestamp <= u64::MAX / 4,
        timeline.terminated_at - timeline.created_at <= u64::MAX / 4,
        -86_400 < utc_offset_secs < 86_400,
    ensures
        marks_of(r@, *timeline, utc_offset_secs as int),
{
    let mut out: Vec<TickMark> = Vec::new();
    let offset_ms: i64 = utc_offset_secs as i64 * 1000;
    let created = timeline.created_timestamp;
    let local: u64 = if offset_ms >= 0 {
        created + offset_ms as u64
    } else if created >= (-offset_ms) as u64 {
        created - (-offset_ms) as u64
    } else {
        return out;
    };
    let interval = timeline.tick.interval_secs * 1000;
    let span = timeline.terminated_at - timeline.created_at;
    let offsets = tick_offsets(local, interval, span);
    let mut i: usize = 0;
    while i < offsets.len()
        invariant
            i <= offsets@.len(),
            out@.len() == i,
            local <= u64::MAX / 2,
            forall|k: int| 0 <= k < offsets@.len() ==> #[trigger] offsets@[k] < span,
            span <= u64::MAX / 4,
            forall|k: int|
                0 <= k < i ==> (#[trigger] out@[k]).offset == offsets@[k] && out@[k].label@ == label_at(
                    timeline.tick.with_sec,
                    (local + offsets@[k]) as nat,
                ),
        decreases offsets@.len() - i,
    {
        let d = offsets[i];
        let label = timeline.tick.format(local + d);
        out.push(TickMark { offset: d, label });
        i = i + 1;
    }
    proof {
        assert forall|dd: nat|
            #[trigger] is_tick(local as nat, interval as nat, span as nat, dd) implies exists|k: int|
                0 <= k < out@.len() && (#[trigger] out@[k]).offset == dd by {
            let k = choose|k: int| 0 <= k < offsets@.len() && offsets@[k] == dd as u64;
            assert(out@[k].offset == dd);
        }
    }
    out
}

/// The ticks of `timeline` labelled in the machine's local time zone, at the
/// offset in force when the axis starts.
pub fn local_tick_marks(timeline: &Timeline) -> (r: Vec<TickMark>)
    requires
        timeline.tick.interval_secs > 0,
        timeline.tick.interval_secs <= SECS_PER_DAY,
        timeline.created_at <= timeline.terminated_at,
        timeline.created_timestamp <= u64::MAX / 4,
        timeline.terminated_at - timeline.created_at <= u64::MAX / 4,
    ensures
        exists|o: int| -86_400 < o < 86_400 && marks_of(r@, *timeline, o),
{
    let secs = (timeline.created_timestamp / 1000) as i64;
    let offset = match local_offset_secs(secs) {
        Some(o) => o,
        None => 0,
    };
    tick_marks(timeline, offset)
}

} // verus!
