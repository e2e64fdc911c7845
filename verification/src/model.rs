//! Time-of-day instants and second-granularity durations.

use vstd::arithmetic::div_mod::lemma_add_mod_noop_right;
use vstd::arithmetic::div_mod::lemma_div_is_ordered;
use vstd::arithmetic::div_mod::lemma_fundamental_div_mod;
use vstd::prelude::*;
use vstd::string::StringExecFns;

verus! {

/// A wall-clock time of day, at second granularity.
///
/// Only the time-of-day components matter to the resolver: clock-form
/// input always means "today, not yet passed", so no date is carried.
#[derive(Clone, Copy, Debug, PartialEq, Eq, Structural)]
pub struct Instant {
    pub hour: u8,
    pub minute: u8,
    pub second: u8,
}

/// A non-negative span of time, in whole seconds.
#[derive(Clone, Copy, Debug, PartialEq, Eq, Structural)]
pub struct Duration {
    pub seconds: u64,
}

impl Instant {
    /// The components form a valid 24-hour clock reading.
    pub open spec fn wf(self) -> bool {
        self.hour < 24 && self.minute < 60 && self.second < 60
    }

    /// Seconds elapsed since the start of the day.
    pub open spec fn spec_total_seconds(self) -> int {
        self.hour * 3600 + self.minute * 60 + self.second
    }

    pub fn new(hour: u8, minute: u8, second: u8) -> (r: Instant)
        requires
            hour < 24,
            minute < 60,
            second < 60,
        ensures
            r == (Instant { hour, minute, second }),
            r.wf(),
    {
        Instant { hour, minute, second }
    }

    pub fn total_seconds(&self) -> (r: u32)
        ensures
            r == self.spec_total_seconds(),
    {
        (self.hour as u32) * 3600 + (self.minute as u32) * 60 + (self.second as u32)
    }
}

impl Duration {
    pub fn from_secs(seconds: u64) -> (r: Duration)
        ensures
            r == (Duration { seconds }),
    {
        Duration { seconds }
    }

    pub fn as_secs(&self) -> (r: u64)
        ensures
            r == self.seconds,
    {
        self.seconds
    }
}

/// The character for a single decimal digit.
pub open spec fn digit_char(d: int) -> char {
    if d == 0 {
        '0'
    } else if d == 1 {
        '1'
    } else if d == 2 {
        '2'
    } else if d == 3 {
        '3'
    } else if d == 4 {
        '4'
    } else if d == 5 {
        '5'
    } else if d == 6 {
        '6'
    } else if d == 7 {
        '7'
    } else if d == 8 {
        '8'
    } else {
        '9'
    }
}

/// A clock reading rendered as zero-padded 24-hour `hh:mm`.
pub open spec fn spec_hhmm(hour: int, minute: int) -> Seq<char> {
    seq![
        digit_char(hour / 10),
        digit_char(hour % 10),
        ':',
        digit_char(minute / 10),
        digit_char(minute % 10),
    ]
}

fn digit_str(d: u8) -> (r: &'static str)
    requires
        d < 10,
    ensures
        r@ == seq![digit_char(d as int)],
{
    let r: &'static str = if d == 0 {
        "0"
    } else if d == 1 {
        "1"
    } else if d == 2 {
        "2"
    } else if d == 3 {
        "3"
    } else if d == 4 {
        "4"
    } else if d == 5 {
        "5"
    } else if d == 6 {
        "6"
    } else if d == 7 {
        "7"
    } else if d == 8 {
        "8"
    } else {
        "9"
    };
    proof {
        reveal_strlit("0");
        reveal_strlit("1");
        reveal_strlit("2");
        reveal_strlit("3");
        reveal_strlit("4");
        reveal_strlit("5");
        reveal_strlit("6");
        reveal_strlit("7");
        reveal_strlit("8");
        reveal_strlit("9");
        assert(r@ =~= seq![digit_char(d as int)]);
    }
    r
}

/// Pretty-print a clock reading as zero-padded 24-hour `hh:mm`; only
/// current-day times of limited precision matter here, so hours and
/// minutes are all that is shown.
pub fn timespec_fmt(timespec: Instant) -> (r: String)
    requires
        timespec.wf(),
    ensures
        r@ == spec_hhmm(timespec.hour as int, timespec.minute as int),
{
    let mut out = String::from_str(digit_str(timespec.hour / 10));
    out.append(digit_str(timespec.hour % 10));
    out.append(":");
    out.append(digit_str(timespec.minute / 10));
    out.append(digit_str(timespec.minute % 10));
    proof {
        reveal_strlit(":");
        assert(out@ =~= spec_hhmm(timespec.hour as int, timespec.minute as int));
    }
    out
}

/// The time of day reached after waiting a duration from a reference
/// instant, rolling over past midnight as a wall clock does.
pub fn instant_after(reference: Instant, d: Duration) -> (r: Instant)
    requires
        reference.wf(),
    ensures
        r.wf(),
        r.spec_total_seconds() == (reference.spec_total_seconds() + d.seconds) % 86400,
{
    let rem: u64 = d.seconds % 86400;
    let total: u64 = (reference.total_seconds() as u64) + rem;
    let t: u64 = total % 86400;
    let h: u64 = t / 3600;
    let within_hour: u64 = t % 3600;
    let m: u64 = within_hour / 60;
    let sec: u64 = within_hour % 60;
    proof {
        lemma_add_mod_noop_right(
            reference.spec_total_seconds(),
            d.seconds as int,
            86400,
        );
        lemma_div_is_ordered(t as int, 86399, 3600);
        lemma_div_is_ordered(within_hour as int, 3599, 60);
        lemma_fundamental_div_mod(t as int, 3600);
        lemma_fundamental_div_mod(within_hour as int, 60);
    }
    Instant { hour: h as u8, minute: m as u8, second: sec as u8 }
}

} // verus!
