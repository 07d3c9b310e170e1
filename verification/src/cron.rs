//! A small cron-expression schedule: five fields — minute, hour, day
//! of month, month, day of week — each a wildcard, a single value, a
//! range `M-N`, a step `*/N` or `M/N`, or a list `M,N,O`.
//!
//! Each parsed field is the explicit list of matching values, in the
//! order the expression generates them; `matches` then only asks
//! whether every component of a timestamp is listed.

use vstd::prelude::*;

use crate::strings::{find_char, split_ws, split_ws_exec, str_eq, trim_of, trimmed};

verus! {

pub open spec fn is_digit(c: char) -> bool {
    '0' <= c && c <= '9'
}

pub open spec fn digit_value(c: char) -> int {
    c as u32 - '0' as u32
}

pub open spec fn all_digits(s: Seq<char>) -> bool {
    s.len() > 0 && forall|i: int| 0 <= i < s.len() ==> is_digit(s[i])
}

/// The number a digit string denotes.
pub open spec fn digits_value(s: Seq<char>) -> int
    decreases s.len(),
{
    if s.len() == 0 {
        0
    } else {
        digits_value(s.drop_last()) * 10 + digit_value(s.last())
    }
}

/// What `str::parse::<u32>` accepts here: an optional `+`, then
/// digits, denoting a value that fits.
pub open spec fn parse_u32_spec(s: Seq<char>) -> Option<u32> {
    let digits = if s.len() > 0 && s[0] == '+' {
        s.drop_first()
    } else {
        s
    };
    if all_digits(digits) && digits_value(digits) <= u32::MAX {
        Some(digits_value(digits) as u32)
    } else {
        None
    }
}

fn is_digit_char(c: char) -> (r: bool)
    ensures
        r == is_digit(c),
{
    '0' <= c && c <= '9'
}

fn parse_digits(s: &str) -> (r: Option<u32>)
    ensures
        (match r {
            Some(v) => all_digits(s@) && digits_value(s@) == v,
            None => !(all_digits(s@) && digits_value(s@) <= u32::MAX),
        }),
{
    let n = s.unicode_len();
    if n == 0 {
        return None;
    }
    let mut value: u32 = 0;
    let mut i: usize = 0;
    while i < n
        invariant
            i <= n,
            n == s@.len(),
            n > 0,
            forall|j: int| 0 <= j < i ==> is_digit(s@[j]),
            value == digits_value(s@.subrange(0, i as int)),
        decreases n - i,
    {
        let c = s.get_char(i);
        if !is_digit_char(c) {
            return None;
        }
        let d = (c as u32) - ('0' as u32);
        proof {
            assert(s@.subrange(0, i + 1).drop_last() =~= s@.subrange(0, i as int));
            assert(s@.subrange(0, i + 1).last() == s@[i as int]);
        }
        let shifted = match value.checked_mul(10) {
            Some(v) => v,
            None => {
                proof {
                    if all_digits(s@) {
                        lemma_digits_value_grows(s@, i + 1);
                    }
                }
                return None;
            },
        };
        value = match shifted.checked_add(d) {
            Some(v) => v,
            None => {
                proof {
                    if all_digits(s@) {
                        lemma_digits_value_grows(s@, i + 1);
                    }
                }
                return None;
            },
        };
        i = i + 1;
    }
    proof {
        assert(s@.subrange(0, n as int) =~= s@);
    }
    Some(value)
}

/// A longer digit prefix never denotes a smaller number.
proof fn lemma_digits_value_grows(s: Seq<char>, i: int)
    requires
        0 <= i <= s.len(),
        forall|j: int| 0 <= j < s.len() ==> is_digit(s[j]),
    ensures
        digits_value(s.subrange(0, i)) <= digits_value(s),
    decreases s.len() - i,
{
    if i < s.len() {
        lemma_digits_value_grows(s, i + 1);
        assert(s.subrange(0, i + 1).drop_last() =~= s.subrange(0, i));
        assert(digit_value(s.subrange(0, i + 1).last()) >= 0);
        assert(digits_value(s.subrange(0, i)) >= 0) by {
            lemma_digits_value_nonneg(s.subrange(0, i));
        }
    } else {
        assert(s.subrange(0, i) =~= s);
    }
}

proof fn lemma_digits_value_nonneg(s: Seq<char>)
    requires
        forall|i: int| 0 <= i < s.len() ==> is_digit(s[i]),
    ensures
        digits_value(s) >= 0,
    decreases s.len(),
{
    if s.len() > 0 {
        assert(forall|i: int|
            0 <= i < s.drop_last().len() ==> is_digit(#[trigger] s.drop_last()[i]));
        lemma_digits_value_nonneg(s.drop_last());
    }
}

/// `str::parse::<u32>` on one trimmed segment.
fn parse_u32(s: &str) -> (r: Option<u32>)
    ensures
        r == parse_u32_spec(s@),
{
    let n = s.unicode_len();
    if n > 0 && s.get_char(0) == '+' {
        let rest = s.substring_char(1, n);
        proof {
            assert(rest@ =~= s@.drop_first());
        }
        parse_digits(rest)
    } else {
        parse_digits(s)
    }
}

/// The values `min..=max`, in order.
pub open spec fn wildcard_values(min: u32, max: u32) -> Seq<u32> {
    if min > max {
        Seq::empty()
    } else {
        Seq::new((max - min + 1) as nat, |k: int| (min + k) as u32)
    }
}

/// The values `start, start+step, ...` up to `max`, in order.
pub open spec fn step_values(start: u32, step: u32, max: u32) -> Seq<u32>
    recommends
        step > 0,
{
    if start > max {
        Seq::empty()
    } else {
        Seq::new(((max - start) as int / (step as int) + 1) as nat, |k: int| (start + k * step) as u32)
    }
}

/// The comma-separated segments of a field.
pub open spec fn comma_segments(s: Seq<char>) -> Seq<Seq<char>>
    decreases s.len(),
    via comma_segments_decreases
{
    if !(exists|i: int| 0 <= i < s.len() && s[i] == ',') {
        seq![s]
    } else {
        let i = choose|i: int|
            0 <= i < s.len() && s[i] == ',' && forall|j: int| 0 <= j < i ==> s[j] != ',';
        seq![s.subrange(0, i)] + comma_segments(s.subrange(i + 1, s.len() as int))
    }
}

#[via_fn]
proof fn comma_segments_decreases(s: Seq<char>) {
    if exists|i: int| 0 <= i < s.len() && s[i] == ',' {
        let w = choose|i: int| 0 <= i < s.len() && s[i] == ',';
        lemma_min_index(s, ',', w);
    }
}

/// Wherever a character occurs, it has a first occurrence.
proof fn lemma_min_index(s: Seq<char>, c: char, w: int)
    requires
        0 <= w < s.len(),
        s[w] == c,
    ensures
        exists|i: int|
            0 <= i < s.len() && s[i] == c && (forall|j: int| 0 <= j < i ==> s[j] != c),
    decreases w,
{
    if forall|j: int| 0 <= j < w ==> s[j] != c {
    } else {
        let j = choose|j: int| 0 <= j < w && s[j] == c;
        lemma_min_index(s, c, j);
    }
}

/// Whether every listed segment parses to a value within bounds; the
/// list of those values when so.
pub open spec fn list_values(segments: Seq<Seq<char>>, min: u32, max: u32) -> Option<Seq<u32>>
    decreases segments.len(),
{
    if segments.len() == 0 {
        Some(Seq::empty())
    } else {
        match parse_u32_spec(trimmed(segments[0])) {
            Some(v) => {
                if min <= v <= max {
                    match list_values(segments.drop_first(), min, max) {
                        Some(rest) => Some(seq![v] + rest),
                        None => None,
                    }
                } else {
                    None
                }
            },
            None => None,
        }
    }
}

/// What one cron field denotes: `None` when it is rejected, else the
/// explicit, ordered list of matching values.
pub open spec fn field_spec(field: Seq<char>, min: u32, max: u32) -> Option<Seq<u32>> {
    let s = trimmed(field);
    if s == seq!['*'] {
        Some(wildcard_values(min, max))
    } else if exists|i: int| 0 <= i < s.len() && s[i] == '/' {
        let i = choose|i: int|
            0 <= i < s.len() && s[i] == '/' && forall|j: int| 0 <= j < i ==> s[j] != '/';
        let left = s.subrange(0, i);
        let right = s.subrange(i + 1, s.len() as int);
        let start = if left == seq!['*'] {
            Some(min)
        } else {
            parse_u32_spec(left)
        };
        match (start, parse_u32_spec(right)) {
            (Some(start), Some(step)) => {
                if step == 0 {
                    None
                } else {
                    Some(step_values(start, step, max))
                }
            },
            _ => None,
        }
    } else if exists|i: int| 0 <= i < s.len() && s[i] == '-' {
        let i = choose|i: int|
            0 <= i < s.len() && s[i] == '-' && forall|j: int| 0 <= j < i ==> s[j] != '-';
        match (parse_u32_spec(s.subrange(0, i)), parse_u32_spec(s.subrange(i + 1, s.len() as int))) {
            (Some(start), Some(end)) => {
                if start > end || start < min || end > max {
                    None
                } else {
                    Some(wildcard_values(start, end))
                }
            },
            _ => None,
        }
    } else if exists|i: int| 0 <= i < s.len() && s[i] == ',' {
        list_values(comma_segments(s), min, max)
    } else {
        match parse_u32_spec(s) {
            Some(v) => {
                if min <= v <= max {
                    Some(seq![v])
                } else {
                    None
                }
            },
            None => None,
        }
    }
}

fn build_range(start: u32, end: u32) -> (r: Vec<u32>)
    ensures
        r@ == wildcard_values(start, end),
{
    let mut r: Vec<u32> = Vec::new();
    if start > end {
        proof {
            assert(r@ =~= wildcard_values(start, end));
        }
        return r;
    }
    let mut v = start;
    while v < end
        invariant
            start <= v <= end,
            r@.len() == v - start,
            forall|k: int| 0 <= k < r@.len() ==> r@[k] == start + k,
        decreases end - v,
    {
        r.push(v);
        v = v + 1;
    }
    r.push(v);
    proof {
        assert(r@ =~= wildcard_values(start, end));
    }
    r
}

fn build_steps(start: u32, step: u32, max: u32) -> (r: Vec<u32>)
    requires
        step > 0,
    ensures
        r@ == step_values(start, step, max),
{
    let mut r: Vec<u32> = Vec::new();
    if start > max {
        proof {
            assert(r@ =~= step_values(start, step, max));
        }
        return r;
    }
    let mut v = start;
    let ghost k: int = 0;
    loop
        invariant
            step > 0,
            start <= max,
            v == start + k * step,
            v <= max,
            k >= 0,
            r@.len() == k,
            forall|j: int| 0 <= j < r@.len() ==> r@[j] == start + j * step,
        decreases max - v,
    {
        r.push(v);
        proof {
            k = k + 1;
        }
        proof {
            assert((k - 1) * step + step == k * step) by (nonlinear_arith);
        }
        let next = match v.checked_add(step) {
            Some(n) => n,
            None => {
                proof {
                    lemma_step_count(start, step, max, k);
                    assert(r@ =~= step_values(start, step, max));
                }
                return r;
            },
        };
        if next > max {
            proof {
                lemma_step_count(start, step, max, k);
                assert(r@ =~= step_values(start, step, max));
            }
            return r;
        }
        v = next;
    }
}

/// When `start + (k-1)*step <= max < start + k*step`, the schedule
/// holds exactly `k` values.
proof fn lemma_step_count(start: u32, step: u32, max: u32, k: int)
    requires
        step > 0,
        start <= max,
        k >= 1,
        start + (k - 1) * step <= max,
        max < start + k * step,
    ensures
        (max - start) / (step as int) + 1 == k,
{
    let d = (max - start) as int;
    assert((k - 1) * step <= d < k * step);
    assert(d / (step as int) == k - 1) by (nonlinear_arith)
        requires
            step > 0,
            (k - 1) * step <= d < k * step,
            d >= 0,
    ;
}

fn parse_list(s: &str, min: u32, max: u32) -> (r: Option<Vec<u32>>)
    ensures
        (match r {
            Some(values) => list_values(comma_segments(s@), min, max) == Some(values@),
            None => list_values(comma_segments(s@), min, max) is None,
        }),
    decreases s@.len(),
{
    let n = s.unicode_len();
    match find_char(s, ',') {
        None => {
            proof {
                assert(comma_segments(s@) =~= seq![s@]);
            }
            let v = match parse_u32(trim_of(s)) {
                Some(v) => v,
                None => {
                    return None;
                },
            };
            if v < min || v > max {
                return None;
            }
            let mut out: Vec<u32> = Vec::new();
            out.push(v);
            proof {
                assert(comma_segments(s@).drop_first() =~= Seq::<Seq<char>>::empty());
                assert(list_values(Seq::<Seq<char>>::empty(), min, max) == Some(
                    Seq::<u32>::empty(),
                ));
                assert(out@ =~= seq![v] + Seq::<u32>::empty());
            }
            Some(out)
        },
        Some(i) => {
            proof {
                let first = choose|j: int|
                    0 <= j < s@.len() && s@[j] == ',' && forall|l: int| 0 <= l < j ==> s@[l]
                        != ',';
                assert(s@[i as int] == ',' && forall|l: int| 0 <= l < i ==> s@[l] != ',');
                assert(first == i as int);
                assert(comma_segments(s@) == seq![s@.subrange(0, i as int)] + comma_segments(
                    s@.subrange(i + 1, s@.len() as int),
                ));
            }
            let segment = s.substring_char(0, i);
            let rest = s.substring_char(i + 1, n);
            let v = match parse_u32(trim_of(segment)) {
                Some(v) => v,
                None => {
                    proof {
                        assert(comma_segments(s@)[0] == segment@);
                    }
                    return None;
                },
            };
            if v < min || v > max {
                proof {
                    assert(comma_segments(s@)[0] == segment@);
                }
                return None;
            }
            let mut tail = match parse_list(rest, min, max) {
                Some(t) => t,
                None => {
                    proof {
                        assert(comma_segments(s@).drop_first() =~= comma_segments(rest@));
                    }
                    return None;
                },
            };
            let ghost tail0 = tail@;
            let mut out: Vec<u32> = Vec::new();
            out.push(v);
            out.append(&mut tail);
            proof {
                assert(comma_segments(s@)[0] == segment@);
                assert(comma_segments(s@).drop_first() =~= comma_segments(rest@));
                assert(out@ =~= seq![v] + tail0);
            }
            Some(out)
        },
    }
}

/// Parse a single cron field into the list of values it matches.
pub fn parse_field(field: &str, min: u32, max: u32) -> (r: Result<Vec<u32>, String>)
    ensures
        (match r {
            Ok(values) => field_spec(field@, min, max) == Some(values@),
            Err(_) => field_spec(field@, min, max) is None,
        }),
{
    let s = trim_of(field);
    let n = s.unicode_len();
    proof {
        reveal_strlit("*");
        assert("*"@ =~= seq!['*']);
    }
    if str_eq(s, "*") {
        proof {
            assert(s@ =~= seq!['*']);
        }
        return Ok(build_range(min, max));
    }
    proof {
        assert(!(s@ =~= seq!['*']));
    }
    if let Some(i) = find_char(s, '/') {
        proof {
            let w = choose|j: int| 0 <= j < s@.len() && s@[j] == '/';
            lemma_min_index(s@, '/', w);
            let first = choose|j: int|
                0 <= j < s@.len() && s@[j] == '/' && forall|l: int| 0 <= l < j ==> s@[l] != '/';
            assert(first == i as int);
        }
        let left = s.substring_char(0, i);
        let right = s.substring_char(i + 1, n);
        let start = if str_eq(left, "*") {
            proof {
                assert("*"@ =~= seq!['*']);
                assert(left@ =~= seq!['*']);
            }
            min
        } else {
            proof {
                assert("*"@ =~= seq!['*']);
                assert(!(left@ =~= seq!['*']));
            }
            match parse_u32(left) {
                Some(v) => v,
                None => {
                    return Err(String::from_str("Invalid cron field: ").concat(s));
                },
            }
        };
        let step = match parse_u32(right) {
            Some(v) => v,
            None => {
                return Err(String::from_str("Invalid step in cron field: ").concat(s));
            },
        };
        if step == 0 {
            return Err(String::from_str("Step cannot be zero in: ").concat(s));
        }
        return Ok(build_steps(start, step, max));
    }
    if let Some(i) = find_char(s, '-') {
        proof {
            let w = choose|j: int| 0 <= j < s@.len() && s@[j] == '-';
            lemma_min_index(s@, '-', w);
            let first = choose|j: int|
                0 <= j < s@.len() && s@[j] == '-' && forall|l: int| 0 <= l < j ==> s@[l] != '-';
            assert(first == i as int);
        }
        let left = s.substring_char(0, i);
        let right = s.substring_char(i + 1, n);
        let start = match parse_u32(left) {
            Some(v) => v,
            None => {
                return Err(String::from_str("Invalid range start: ").concat(s));
            },
        };
        let end = match parse_u32(right) {
            Some(v) => v,
            None => {
                return Err(String::from_str("Invalid range end: ").concat(s));
            },
        };
        if start > end || start < min || end > max {
            return Err(String::from_str("Invalid range: ").concat(s));
        }
        return Ok(build_range(start, end));
    }
    if find_char(s, ',').is_some() {
        return match parse_list(s, min, max) {
            Some(values) => Ok(values),
            None => Err(String::from_str("Invalid value in list: ").concat(s)),
        };
    }
    let value = match parse_u32(s) {
        Some(v) => v,
        None => {
            return Err(String::from_str("Invalid cron field: ").concat(s));
        },
    };
    if value < min || value > max {
        return Err(String::from_str("Value out of range in: ").concat(s));
    }
    let mut out: Vec<u32> = Vec::new();
    out.push(value);
    proof {
        assert(out@ =~= seq![value]);
    }
    Ok(out)
}

/// A parsed five-field schedule: the explicit value lists for minute,
/// hour, day of month, month, and day of week (0 is Sunday).
pub struct CronSchedule {
    pub minutes: Vec<u32>,
    pub hours: Vec<u32>,
    pub days_of_month: Vec<u32>,
    pub months: Vec<u32>,
    pub days_of_week: Vec<u32>,
}

/// The clock components a schedule is matched against.
pub struct DateParts {
    pub minute: u32,
    pub hour: u32,
    pub day: u32,
    pub month: u32,
    /// Days since Sunday: 0 is Sunday, 6 is Saturday.
    pub weekday: u32,
}

/// Whether the five fields of `expr` all parse within their bounds.
pub open spec fn schedule_spec(expr: Seq<char>) -> Option<(
    Seq<u32>,
    Seq<u32>,
    Seq<u32>,
    Seq<u32>,
    Seq<u32>,
)> {
    let parts = split_ws(trimmed(expr));
    if parts.len() != 5 {
        None
    } else {
        match (
            field_spec(parts[0], 0, 59),
            field_spec(parts[1], 0, 23),
            field_spec(parts[2], 1, 31),
            field_spec(parts[3], 1, 12),
            field_spec(parts[4], 0, 6),
        ) {
            (Some(m), Some(h), Some(dom), Some(mo), Some(dow)) => Some((m, h, dom, mo, dow)),
            _ => None,
        }
    }
}

fn contains_u32(values: &Vec<u32>, x: u32) -> (r: bool)
    ensures
        r == values@.contains(x),
{
    let n = values.len();
    let mut i: usize = 0;
    while i < n
        invariant
            i <= n,
            n == values@.len(),
            forall|j: int| 0 <= j < i ==> values@[j] != x,
        decreases n - i,
    {
        if values[i] == x {
            return true;
        }
        i = i + 1;
    }
    proof {
        if values@.contains(x) {
            let j = choose|j: int| 0 <= j < values@.len() && values@[j] == x;
        }
    }
    false
}

impl CronSchedule {
    /// Parse a standard five-field cron expression,
    /// `minute hour day_of_month month day_of_week`.
    pub fn parse(expr: &str) -> (r: Result<CronSchedule, String>)
        ensures
            (match r {
                Ok(schedule) => schedule_spec(expr@) == Some(
                    (
                        schedule.minutes@,
                        schedule.hours@,
                        schedule.days_of_month@,
                        schedule.months@,
                        schedule.days_of_week@,
                    ),
                ),
                Err(_) => schedule_spec(expr@) is None,
            }),
    {
        let parts = split_ws_exec(trim_of(expr));
        if parts.len() != 5 {
            proof {
                assert(parts@.map_values(|t: String| t@).len() == parts@.len());
            }
            return Err(String::from_str("Invalid cron expression: expected 5 fields"));
        }
        proof {
            let ghost_parts = parts@.map_values(|t: String| t@);
            assert(ghost_parts[0] == parts@[0]@);
            assert(ghost_parts[1] == parts@[1]@);
            assert(ghost_parts[2] == parts@[2]@);
            assert(ghost_parts[3] == parts@[3]@);
            assert(ghost_parts[4] == parts@[4]@);
        }
        let minutes = match parse_field(parts[0].as_str(), 0, 59) {
            Ok(v) => v,
            Err(e) => {
                return Err(e);
            },
        };
        let hours = match parse_field(parts[1].as_str(), 0, 23) {
            Ok(v) => v,
            Err(e) => {
                return Err(e);
            },
        };
        let days_of_month = match parse_field(parts[2].as_str(), 1, 31) {
            Ok(v) => v,
            Err(e) => {
                return Err(e);
            },
        };
        let months = match parse_field(parts[3].as_str(), 1, 12) {
            Ok(v) => v,
            Err(e) => {
                return Err(e);
            },
        };
        let days_of_week = match parse_field(parts[4].as_str(), 0, 6) {
            Ok(v) => v,
            Err(e) => {
                return Err(e);
            },
        };
        Ok(CronSchedule { minutes, hours, days_of_month, months, days_of_week })
    }

    /// Whether the given clock components match this schedule.
    pub fn matches(&self, at: &DateParts) -> (r: bool)
        ensures
            r == (self.minutes@.contains(at.minute) && self.hours@.contains(at.hour)
                && self.days_of_month@.contains(at.day) && self.months@.contains(at.month)
                && self.days_of_week@.contains(at.weekday)),
    {
        contains_u32(&self.minutes, at.minute) && contains_u32(&self.hours, at.hour)
            && contains_u32(&self.days_of_month, at.day) && contains_u32(&self.months, at.month)
            && contains_u32(&self.days_of_week, at.weekday)
    }
}

} // verus!
