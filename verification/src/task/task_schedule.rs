use vstd::prelude::*;

use crate::digits::{all_digits, digit_prefix_len, digits_val, is_digit, lemma_digit_prefix_characterization, lemma_digits_val_mono, lemma_digits_val_step};
use crate::digits::{is_digit_char, lemma_digits_val_nonneg};

verus! {

/// One schedule interval: a count of a fixed time unit.
#[derive(Clone, Copy, PartialEq, Eq, Structural, Debug)]
pub enum ScheduleInterval {
    Seconds(u32),
    Minutes(u32),
    Hours(u32),
    Days(u32),
    Months(u32),
    Years(u32),
}

/// How many seconds an interval stands for: months count as 30 days,
/// years as 365 days.
pub open spec fn interval_seconds(s: ScheduleInterval) -> int {
    match s {
        ScheduleInterval::Seconds(t) => t as int,
        ScheduleInterval::Minutes(t) => t * 60,
        ScheduleInterval::Hours(t) => t * 3600,
        ScheduleInterval::Days(t) => t * 86400,
        ScheduleInterval::Months(t) => t * 2592000,
        ScheduleInterval::Years(t) => t * 31536000,
    }
}

/// When a task's schedule string carries a suffix other than the six
/// known units, the schedule falls back to this many minutes.
pub open spec fn fallback_minutes() -> u32 {
    15
}

/// A schedule string parses when it has a non-empty digit prefix whose
/// value fits in a `u32`, followed by at least one non-digit character.
pub open spec fn schedule_ok(s: Seq<char>) -> bool {
    let n = digit_prefix_len(s);
    0 < n < s.len() && digits_val(s.subrange(0, n)) <= u32::MAX
}

/// The interval a count and a unit suffix denote; an unknown suffix
/// falls back to fifteen minutes.
pub open spec fn interval_of(n: u32, unit: Seq<char>) -> ScheduleInterval {
    if unit == seq!['s'] {
        ScheduleInterval::Seconds(n)
    } else if unit == seq!['m'] {
        ScheduleInterval::Minutes(n)
    } else if unit == seq!['h'] {
        ScheduleInterval::Hours(n)
    } else if unit == seq!['d'] {
        ScheduleInterval::Days(n)
    } else if unit == seq!['m', 't'] {
        ScheduleInterval::Months(n)
    } else if unit == seq!['y'] {
        ScheduleInterval::Years(n)
    } else {
        ScheduleInterval::Minutes(fallback_minutes())
    }
}

/// The interval a valid schedule string denotes.
pub open spec fn schedule_of(s: Seq<char>) -> ScheduleInterval {
    let n = digit_prefix_len(s);
    interval_of(digits_val(s.subrange(0, n)) as u32, s.skip(n))
}

/// One of the six recognised unit suffixes.
pub open spec fn is_unit(unit: Seq<char>) -> bool {
    ||| unit == seq!['s']
    ||| unit == seq!['m']
    ||| unit == seq!['h']
    ||| unit == seq!['d']
    ||| unit == seq!['m', 't']
    ||| unit == seq!['y']
}

/// Seconds in one unit of each recognised suffix.
pub open spec fn unit_factor(unit: Seq<char>) -> int {
    if unit == seq!['s'] {
        1
    } else if unit == seq!['m'] {
        60
    } else if unit == seq!['h'] {
        3600
    } else if unit == seq!['d'] {
        86400
    } else if unit == seq!['m', 't'] {
        2592000
    } else if unit == seq!['y'] {
        31536000
    } else {
        0
    }
}

/// For every digit string `n` whose value fits in a `u32` and every one of
/// the six units, the schedule string `n` followed by the unit parses, and
/// the wait it denotes is the count times the unit's seconds.
pub proof fn lemma_schedule_duration(n: Seq<char>, unit: Seq<char>)
    requires
        n.len() > 0,
        all_digits(n),
        digits_val(n) <= u32::MAX,
        is_unit(unit),
    ensures
        schedule_ok(n + unit),
        interval_seconds(schedule_of(n + unit)) == digits_val(n) * unit_factor(unit),
{
    let s = n + unit;
    assert(s.subrange(0, n.len() as int) =~= n);
    assert(s.skip(n.len() as int) =~= unit);
    assert(s[n.len() as int] == unit[0]);
    assert(!is_digit(unit[0])) by {
        if unit == seq!['s'] {
            assert(unit[0] == 's');
        } else if unit == seq!['m'] {
            assert(unit[0] == 'm');
        } else if unit == seq!['h'] {
            assert(unit[0] == 'h');
        } else if unit == seq!['d'] {
            assert(unit[0] == 'd');
        } else if unit == seq!['m', 't'] {
            assert(unit[0] == 'm');
        } else {
            assert(unit[0] == 'y');
        }
    }
    assert(all_digits(s.subrange(0, n.len() as int)));
    lemma_digit_prefix_characterization(s, n.len() as int);
    lemma_digits_val_nonneg(n);
}

/// A malformed schedule string, kept with a short description.
#[derive(Debug)]
pub struct InvalidFormatError(pub String);

/// A parsed schedule: the fixed interval a task sleeps between cycles.
#[derive(Clone, Copy, PartialEq, Eq, Structural, Debug)]
pub struct TaskSchedule {
    pub schedule: ScheduleInterval,
}

impl TaskSchedule {
    /// The wait between two cycles, in whole seconds.
    pub fn to_seconds(&self) -> (r: u64)
        ensures
            r == interval_seconds(self.schedule),
    {
        match self.schedule {
            ScheduleInterval::Seconds(t) => t as u64,
            ScheduleInterval::Minutes(t) => (t as u64) * 60,
            ScheduleInterval::Hours(t) => (t as u64) * 3600,
            ScheduleInterval::Days(t) => (t as u64) * 86400,
            ScheduleInterval::Months(t) => (t as u64) * 2592000,
            ScheduleInterval::Years(t) => (t as u64) * 31536000,
        }
    }

    /// Parses `"<count><unit>"` with unit in s, m, h, d, mt, y; any other
    /// suffix falls back to fifteen minutes. Fails when no non-digit suffix
    /// exists, when the digit prefix is empty, or when the count overflows.
    pub fn parse(value: &str) -> (r: Result<TaskSchedule, InvalidFormatError>)
        ensures
            r is Ok <==> schedule_ok(value@),
            r matches Ok(ts) ==> ts.schedule == schedule_of(value@),
    {
        let len = value.unicode_len();
        let ghost s = value@;

        // Find where the digit prefix ends.
        let mut i: usize = 0;
        while i < len && is_digit_char(value.get_char(i))
            invariant
                0 <= i <= len,
                len == s.len(),
                s == value@,
                forall|k: int| 0 <= k < i ==> is_digit(s[k]),
            decreases len - i,
        {
            i = i + 1;
        }
        proof {
            assert(all_digits(s.subrange(0, i as int))) by {
                assert(forall|k: int| 0 <= k < i ==> s.subrange(0, i as int)[k] == s[k]);
            }
            lemma_digit_prefix_characterization(s, i as int);
        }

        if i == len {
            return Err(InvalidFormatError(String::from_str("invalid schedule format")));
        }
        if i == 0 {
            return Err(InvalidFormatError(String::from_str("unable to parse interval digit")));
        }

        // Accumulate the digit prefix, rejecting a count over u32::MAX.
        let mut acc: u64 = 0;
        let mut j: usize = 0;
        while j < i
            invariant
                0 <= j <= i < len,
                len == s.len(),
                s == value@,
                forall|k: int| 0 <= k < i ==> is_digit(s[k]),
                all_digits(s.subrange(0, i as int)),
                digit_prefix_len(s) == i,
                acc == digits_val(s.subrange(0, j as int)),
                acc <= u32::MAX,
            decreases i - j,
        {
            let c = value.get_char(j);
            assert(is_digit(c));
            let d = ((c as u32) - ('0' as u32)) as u64;
            proof {
                lemma_digits_val_step(s, j as int);
            }
            acc = acc * 10 + d;
            j = j + 1;
            if acc > u32::MAX as u64 {
                proof {
                    lemma_digits_val_mono(s, j as int, i as int);
                }
                return Err(InvalidFormatError(String::from_str("unable to parse interval digit")));
            }
        }
        let count: u32 = acc as u32;

        let ghost unit = s.skip(i as int);
        assert(unit.len() == len - i);
        assert(forall|k: int| 0 <= k < unit.len() ==> unit[k] == s[i + k]);

        let schedule: ScheduleInterval = if len - i == 1 {
            let c = value.get_char(i);
            proof {
                assert(unit[0] == s[i as int]);
            }
            if c == 's' {
                assert(unit =~= seq!['s']);
                ScheduleInterval::Seconds(count)
            } else if c == 'm' {
                assert(unit =~= seq!['m']);
                ScheduleInterval::Minutes(count)
            } else if c == 'h' {
                assert(unit =~= seq!['h']);
                ScheduleInterval::Hours(count)
            } else if c == 'd' {
                assert(unit =~= seq!['d']);
                ScheduleInterval::Days(count)
            } else if c == 'y' {
                assert(unit =~= seq!['y']);
                ScheduleInterval::Years(count)
            } else {
                ScheduleInterval::Minutes(15)
            }
        } else if len - i == 2 {
            let c0 = value.get_char(i);
            let c1 = value.get_char(i + 1);
            if c0 == 'm' && c1 == 't' {
                assert(unit =~= seq!['m', 't']);
                ScheduleInterval::Months(count)
            } else {
                ScheduleInterval::Minutes(15)
            }
        } else {
            ScheduleInterval::Minutes(15)
        };

        assert(schedule == interval_of(count, unit));
        Ok(TaskSchedule { schedule })
    }
}

} // verus!
