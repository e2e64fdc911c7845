//! The timespec resolver: parsing and validating user input.
//!
//! Input is one of two shapes: clock form `hh:mm`, or interval form
//! `<n>s` / `<n>m` / `<n>h`.  The grammar is specified over the UTF-8
//! bytes of the input, so that every byte sequence is classified.

use vstd::prelude::*;
use vstd::slice::slice_subrange;
use vstd::string::StringExecFns;
use vstd::string::StringSliceAdditionalSpecFns;

use crate::model::Duration;
use crate::model::Instant;

verus! {

/// Why an input was rejected by the resolver.
#[derive(Clone, Copy, Debug, PartialEq, Eq, Structural)]
pub enum ParseError {
    /// The input matches neither grammar, or a numeric component is
    /// malformed or out of range.
    FormatError,
    /// Interval form with a valid integer but no trailing unit.
    MissingSuffixError,
    /// The input string is empty.
    EmptyInputError,
    /// Clock form naming an instant at or before the reference; carries
    /// the rejected clock reading for display.
    PastTimeError { hour: u8, minute: u8 },
}

impl ParseError {
    /// The human-readable rejection text for this error.
    pub open spec fn spec_message(self) -> Seq<char> {
        match self {
            ParseError::FormatError => "Unknown format"@,
            ParseError::MissingSuffixError => "Missing suffix"@,
            ParseError::EmptyInputError => "No time specified"@,
            ParseError::PastTimeError { hour, minute } => "Desired time "@ + crate::model::spec_hhmm(
                hour as int,
                minute as int,
            ) + " is in the past"@,
        }
    }

    /// Render the rejection for user display.
    pub fn message(self) -> (r: String)
        requires
            self matches ParseError::PastTimeError { hour, minute } ==> hour < 24 && minute < 60,
        ensures
            r@ == self.spec_message(),
    {
        match self {
            ParseError::FormatError => String::from_str("Unknown format"),
            ParseError::MissingSuffixError => String::from_str("Missing suffix"),
            ParseError::EmptyInputError => String::from_str("No time specified"),
            ParseError::PastTimeError { hour, minute } => {
                let mut out = String::from_str("Desired time ");
                let shown = crate::model::timespec_fmt(Instant::new(hour, minute, 0));
                out.append(shown.as_str());
                out.append(" is in the past");
                proof {
                    assert(out@ =~= self.spec_message());
                }
                out
            },
        }
    }
}

/// ASCII decimal digit.
pub open spec fn is_digit(b: u8) -> bool {
    48 <= b <= 57
}

pub open spec fn all_digits(s: Seq<u8>) -> bool {
    forall|i: int| 0 <= i < s.len() ==> is_digit(#[trigger] s[i])
}

/// The base-10 value of a digit string (meaningful when `all_digits`).
pub open spec fn dec_value(s: Seq<u8>) -> int
    decreases s.len(),
{
    if s.len() == 0 {
        0
    } else {
        dec_value(s.drop_last()) * 10 + (s.last() - 48)
    }
}

/// A non-empty, unsigned, base-10 numeral: no sign, no whitespace.
pub open spec fn is_numeral(s: Seq<u8>) -> bool {
    s.len() > 0 && all_digits(s)
}

/// The ASCII colon that routes input to clock form.
pub open spec fn is_colon(b: u8) -> bool {
    b == 58
}

pub open spec fn has_colon(s: Seq<u8>) -> bool {
    exists|i: int| 0 <= i < s.len() && is_colon(#[trigger] s[i])
}

/// Index of the first colon (meaningful when `has_colon`).
pub open spec fn first_colon(s: Seq<u8>) -> int
    decreases s.len(),
{
    if s.len() == 0 {
        0
    } else if is_colon(s[0]) {
        0
    } else {
        1 + first_colon(s.drop_first())
    }
}

/// Interval-form unit suffix: `s`, `m` or `h`.
pub open spec fn is_unit(b: u8) -> bool {
    b == 115 || b == 109 || b == 104
}

/// Seconds per unit: s = 1, m = 60, h = 3600.
pub open spec fn unit_factor(b: u8) -> int {
    if b == 115 {
        1
    } else if b == 109 {
        60
    } else {
        3600
    }
}

/// The digits before the first colon.
pub open spec fn clock_hour_part(s: Seq<u8>) -> Seq<u8> {
    s.subrange(0, first_colon(s))
}

/// Everything after the first colon.
pub open spec fn clock_minute_part(s: Seq<u8>) -> Seq<u8> {
    s.subrange(first_colon(s) + 1, s.len() as int)
}

/// Both parts of a clock-form input are in-range numerals.
pub open spec fn clock_parts_valid(s: Seq<u8>) -> bool {
    &&& is_numeral(clock_hour_part(s))
    &&& dec_value(clock_hour_part(s)) <= 23
    &&& is_numeral(clock_minute_part(s))
    &&& dec_value(clock_minute_part(s)) <= 59
}

/// The candidate instant a clock-form input names, as seconds since the
/// start of the day (seconds and sub-second components zeroed).
pub open spec fn clock_candidate_seconds(s: Seq<u8>) -> int {
    dec_value(clock_hour_part(s)) * 3600 + dec_value(clock_minute_part(s)) * 60
}

/// What resolving a clock-form input comes to, once routed there by a
/// colon: split at the first colon, read both parts as bounded
/// numerals, and demand a strictly future instant today.
pub open spec fn spec_resolve_clock(s: Seq<u8>, reference: Instant) -> Result<
    Duration,
    ParseError,
> {
    if clock_parts_valid(s) {
        if clock_candidate_seconds(s) <= reference.spec_total_seconds() {
            Err(
                ParseError::PastTimeError {
                    hour: dec_value(clock_hour_part(s)) as u8,
                    minute: dec_value(clock_minute_part(s)) as u8,
                },
            )
        } else {
            Ok(
                Duration {
                    seconds: (clock_candidate_seconds(s) - reference.spec_total_seconds()) as u64,
                },
            )
        }
    } else {
        Err(ParseError::FormatError)
    }
}

/// What resolving an interval-form (colon-free) input comes to: a
/// numeral with a unit suffix scales by that unit; a bare numeral is a
/// missing suffix; an empty string is empty input; anything else is a
/// format error.  A product beyond `u64` cannot be represented and is
/// rejected as a format error.  A value of zero is syntactically valid
/// with any unit and yields a zero duration; treating that as "no alarm
/// requested" is left to callers that insist on a strictly future wait.
pub open spec fn spec_resolve_interval(s: Seq<u8>) -> Result<Duration, ParseError> {
    if s.len() > 0 && is_unit(s.last()) {
        let p = s.drop_last();
        if is_numeral(p) && dec_value(p) <= u64::MAX && dec_value(p) * unit_factor(s.last())
            <= u64::MAX {
            Ok(Duration { seconds: (dec_value(p) * unit_factor(s.last())) as u64 })
        } else {
            Err(ParseError::FormatError)
        }
    } else if is_numeral(s) && dec_value(s) <= u64::MAX {
        Err(ParseError::MissingSuffixError)
    } else if s.len() == 0 {
        Err(ParseError::EmptyInputError)
    } else {
        Err(ParseError::FormatError)
    }
}

/// The resolver, over the bytes of the input: a colon anywhere routes
/// to clock form exclusively; otherwise interval form is attempted.
pub open spec fn spec_resolve(s: Seq<u8>, reference: Instant) -> Result<Duration, ParseError> {
    if has_colon(s) {
        spec_resolve_clock(s, reference)
    } else {
        spec_resolve_interval(s)
    }
}

pub proof fn lemma_dec_value_nonneg(s: Seq<u8>)
    requires
        all_digits(s),
    ensures
        dec_value(s) >= 0,
    decreases s.len(),
{
    if s.len() > 0 {
        assert forall|i: int| 0 <= i < s.drop_last().len() implies is_digit(
            #[trigger] s.drop_last()[i],
        ) by {
            assert(s.drop_last()[i] == s[i]);
        }
        lemma_dec_value_nonneg(s.drop_last());
    }
}

/// Appending digits to a digit string never decreases its value.
pub proof fn lemma_dec_value_prefix_le(s: Seq<u8>, i: int)
    requires
        all_digits(s),
        0 <= i <= s.len(),
    ensures
        dec_value(s.subrange(0, i)) <= dec_value(s),
    decreases s.len() - i,
{
    if i == s.len() {
        assert(s.subrange(0, i) =~= s);
    } else {
        let shorter = s.subrange(0, i);
        let longer = s.subrange(0, i + 1);
        assert(longer.drop_last() =~= shorter);
        assert(longer.last() == s[i]);
        assert forall|j: int| 0 <= j < shorter.len() implies is_digit(#[trigger] shorter[j]) by {
            assert(shorter[j] == s[j]);
        }
        lemma_dec_value_nonneg(shorter);
        assert(dec_value(longer) == dec_value(shorter) * 10 + (s[i] - 48));
        assert(dec_value(shorter) * 10 >= dec_value(shorter));
        lemma_dec_value_prefix_le(s, i + 1);
    }
}

/// The recursive `first_colon` agrees with "colon here, none before".
pub proof fn lemma_first_colon_at(s: Seq<u8>, i: int)
    requires
        0 <= i < s.len(),
        is_colon(s[i]),
        forall|j: int| 0 <= j < i ==> !is_colon(#[trigger] s[j]),
    ensures
        first_colon(s) == i,
    decreases s.len(),
{
    if !is_colon(s[0]) {
        let t = s.drop_first();
        assert forall|j: int| 0 <= j < i - 1 implies !is_colon(#[trigger] t[j]) by {
            assert(t[j] == s[j + 1]);
        }
        assert(t[i - 1] == s[i]);
        lemma_first_colon_at(t, i - 1);
    }
}

/// Parse a whole byte slice as an unsigned base-10 numeral.
///
/// Returns the value exactly when the slice is a non-empty digit string
/// whose value fits in `u64`.
pub fn parse_u64(s: &[u8]) -> (r: Option<u64>)
    ensures
        r is Some <==> is_numeral(s@) && dec_value(s@) <= u64::MAX,
        r matches Some(v) ==> v == dec_value(s@),
{
    if s.len() == 0 {
        return None;
    }
    let mut acc: u64 = 0;
    let mut i: usize = 0;
    while i < s.len()
        invariant
            0 <= i <= s@.len(),
            all_digits(s@.subrange(0, i as int)),
            acc == dec_value(s@.subrange(0, i as int)),
        decreases s@.len() - i,
    {
        let b = s[i];
        if b < 48 || b > 57 {
            assert(!is_digit(s@[i as int]));
            return None;
        }
        let d: u64 = (b - 48) as u64;
        proof {
            let longer = s@.subrange(0, i + 1);
            assert(longer.drop_last() =~= s@.subrange(0, i as int));
            assert(longer.last() == s@[i as int]);
            assert forall|j: int| 0 <= j < longer.len() implies is_digit(#[trigger] longer[j]) by {
                if j < i {
                    assert(longer[j] == s@.subrange(0, i as int)[j]);
                }
            }
        }
        if acc > u64::MAX / 10 {
            proof {
                assert(u64::MAX / 10 == 1844674407370955161);
                assert(dec_value(s@.subrange(0, i + 1)) > u64::MAX);
                if all_digits(s@) {
                    lemma_dec_value_prefix_le(s@, i + 1);
                }
            }
            return None;
        }
        proof {
            assert(u64::MAX / 10 == 1844674407370955161);
        }
        let acc10: u64 = acc * 10;
        if d > u64::MAX - acc10 {
            proof {
                assert(dec_value(s@.subrange(0, i + 1)) > u64::MAX);
                if all_digits(s@) {
                    lemma_dec_value_prefix_le(s@, i + 1);
                }
            }
            return None;
        }
        acc = acc10 + d;
        i = i + 1;
    }
    proof {
        assert(s@.subrange(0, i as int) =~= s@);
    }
    Some(acc)
}

/// Resolve a timespec, given as raw bytes, against a reference instant.
pub fn parse_timespec_bytes(s: &[u8], current_time: Instant) -> (r: Result<Duration, ParseError>)
    ensures
        r == spec_resolve(s@, current_time),
{
    let n = s.len();
    let mut i: usize = 0;
    while i < n && s[i] != 58
        invariant
            0 <= i <= n,
            n == s@.len(),
            forall|j: int| 0 <= j < i ==> !is_colon(#[trigger] s@[j]),
        decreases n - i,
    {
        i = i + 1;
    }
    if i < n {
        proof {
            lemma_first_colon_at(s@, i as int);
            assert(has_colon(s@));
        }
        let hp = slice_subrange(s, 0, i);
        let mp = slice_subrange(s, i + 1, n);
        let oh = parse_u64(hp);
        let om = parse_u64(mp);
        match (oh, om) {
            (Some(h), Some(m)) => {
                if h > 23 || m > 59 {
                    return Err(ParseError::FormatError);
                }
                let candidate: u32 = (h as u32) * 3600 + (m as u32) * 60;
                let now: u32 = current_time.total_seconds();
                if candidate <= now {
                    Err(ParseError::PastTimeError { hour: h as u8, minute: m as u8 })
                } else {
                    Ok(Duration { seconds: (candidate - now) as u64 })
                }
            },
            _ => Err(ParseError::FormatError),
        }
    } else {
        proof {
            assert(!has_colon(s@));
        }
        if n == 0 {
            return Err(ParseError::EmptyInputError);
        }
        let last = s[n - 1];
        if last == 115 || last == 109 || last == 104 {
            let p = slice_subrange(s, 0, n - 1);
            proof {
                assert(p@ =~= s@.drop_last());
            }
            match parse_u64(p) {
                Some(v) => {
                    let factor: u64 = if last == 115 {
                        1
                    } else if last == 109 {
                        60
                    } else {
                        3600
                    };
                    match v.checked_mul(factor) {
                        Some(total) => Ok(Duration { seconds: total }),
                        None => Err(ParseError::FormatError),
                    }
                },
                None => Err(ParseError::FormatError),
            }
        } else {
            match parse_u64(s) {
                Some(_) => Err(ParseError::MissingSuffixError),
                None => Err(ParseError::FormatError),
            }
        }
    }
}

/// Resolve a timespec string against a reference instant.
///
/// The result is a function of the input string and the reference
/// alone: resolving the same input against the same reference always
/// yields the same value.
pub fn parse_timespec(input: &str, current_time: Instant) -> (r: Result<Duration, ParseError>)
    requires
        current_time.wf(),
    ensures
        r == spec_resolve(input.spec_bytes(), current_time),
{
    let bytes = input.as_bytes();
    parse_timespec_bytes(bytes, current_time)
}

/// Law: a valid interval input `<n><u>` resolves to n, 60n or 3600n
/// seconds for u = s, m, h respectively, whatever the reference.
pub proof fn lemma_interval_resolution(p: Seq<u8>, unit: u8, reference: Instant)
    requires
        is_numeral(p),
        is_unit(unit),
        dec_value(p) * unit_factor(unit) <= u64::MAX,
    ensures
        spec_resolve(p.push(unit), reference) == Ok::<Duration, ParseError>(
            Duration { seconds: (dec_value(p) * unit_factor(unit)) as u64 },
        ),
{
    let s = p.push(unit);
    assert(s.last() == unit);
    assert(s.drop_last() =~= p);
    assert forall|i: int| 0 <= i < s.len() implies !is_colon(#[trigger] s[i]) by {
        if i < p.len() {
            assert(s[i] == p[i]);
            assert(is_digit(p[i]));
        } else {
            assert(s[i] == unit);
        }
    }
    assert(!has_colon(s));
    lemma_dec_value_nonneg(p);
    assert(dec_value(p) <= dec_value(p) * unit_factor(unit));
}

/// Law: resolution is idempotent.  The contract of `parse_timespec`
/// pins each result to `spec_resolve` of the arguments alone, so any
/// two results obtained for the same input and the same reference are
/// equal: only the injected reference matters, no hidden clock.
pub proof fn lemma_resolution_deterministic(
    s: Seq<u8>,
    reference: Instant,
    r1: Result<Duration, ParseError>,
    r2: Result<Duration, ParseError>,
)
    requires
        r1 == spec_resolve(s, reference),
        r2 == spec_resolve(s, reference),
    ensures
        r1 == r2,
{
}

/// Law: a clock-form input never resolves to a zero or negative wait.
/// Whenever input containing a colon resolves successfully, the named
/// instant lies strictly after the reference and the duration covers
/// exactly the gap, which is strictly positive.
pub proof fn lemma_clock_resolution_strictly_future(s: Seq<u8>, reference: Instant)
    requires
        has_colon(s),
        spec_resolve(s, reference) is Ok,
    ensures
        clock_candidate_seconds(s) > reference.spec_total_seconds(),
        spec_resolve(s, reference)->Ok_0.seconds == clock_candidate_seconds(s)
            - reference.spec_total_seconds(),
        spec_resolve(s, reference)->Ok_0.seconds > 0,
{
    lemma_dec_value_nonneg(clock_hour_part(s));
    lemma_dec_value_nonneg(clock_minute_part(s));
}

} // verus!

