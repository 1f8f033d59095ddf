//! Instants on the UTC time line, and the digits that stand for one in a file
//! name.

use chrono::{DateTime, Utc};
use vstd::pervasive::unreached;
use vstd::prelude::*;

verus! {

/// The first second the calendar reaches: the start of the year -262143.
pub const MIN_SECS: i64 = -8_334_601_228_800;

/// The last second the calendar reaches: the end of the year 262142.
pub const MAX_SECS: i64 = 8_210_266_876_799;

/// Nanoseconds in one second.
pub const NANOS_PER_SEC: u32 = 1_000_000_000;

/// What chrono writes for an instant, taken in UTC, under a pattern of
/// `strftime` fashion. The calendar arithmetic is chrono's, so the text is
/// known here by name only.
pub uninterp spec fn utc_text(secs: int, nanos: int, pattern: Seq<char>) -> Seq<char>;

/// The pattern of the stamp that stands for an instant in a file name:
/// year, month, day of the month, minute and second, without separators.
/// The minute comes before the second, and the hour is not part of it.
pub open spec fn stamp_pattern() -> Seq<char> {
    "%Y%m%d%M%S"@
}

/// Whether seconds and nanoseconds name an instant of the calendar.
pub open spec fn in_calendar(secs: int, nanos: int) -> bool {
    MIN_SECS <= secs <= MAX_SECS && 0 <= nanos < NANOS_PER_SEC
}

/// An instant of the calendar, counted from 1970-01-01T00:00:00 UTC.
#[derive(Clone, Copy, Debug)]
pub struct Timestamp {
    secs: i64,
    nanos: u32,
}

impl View for Timestamp {
    type V = int;

    /// Nanoseconds since the epoch; negative before it.
    closed spec fn view(&self) -> int {
        self.secs * 1_000_000_000 + self.nanos
    }
}

impl Timestamp {
    /// Every instant that exists at run time lies within the calendar.
    #[verifier::type_invariant]
    pub closed spec fn wf(self) -> bool {
        in_calendar(self.secs as int, self.nanos as int)
    }

    /// Whole seconds since the epoch.
    pub closed spec fn spec_secs(self) -> int {
        self.secs as int
    }

    /// Nanoseconds into the second.
    pub closed spec fn spec_nanos(self) -> int {
        self.nanos as int
    }

    /// The digits that stand for this instant in a file name: the instant
    /// in UTC, written under `stamp_pattern`.
    pub open spec fn stamp_text(self) -> Seq<char> {
        utc_text(self.spec_secs(), self.spec_nanos(), stamp_pattern())
    }

    /// The instant `nanos` nanoseconds after second `secs`, if the calendar
    /// reaches it.
    pub fn new(secs: i64, nanos: u32) -> (r: Option<Timestamp>)
        ensures
            r is Some <==> in_calendar(secs as int, nanos as int),
            r matches Some(t) ==> {
                &&& t.wf()
                &&& t.spec_secs() == secs
                &&& t.spec_nanos() == nanos
            },
    {
        if MIN_SECS <= secs && secs <= MAX_SECS && nanos < NANOS_PER_SEC {
            Some(Timestamp { secs, nanos })
        } else {
            None
        }
    }

    /// Whole seconds since the epoch.
    pub fn secs(&self) -> (r: i64)
        ensures
            r == self.spec_secs(),
    {
        self.secs
    }

    /// Nanoseconds into the second.
    pub fn nanos(&self) -> (r: u32)
        ensures
            r == self.spec_nanos(),
    {
        self.nanos
    }

    /// Whether this instant is no later than `other`.
    pub fn not_after(&self, other: &Timestamp) -> (r: bool)
        ensures
            r <==> self@ <= other@,
    {
        proof {
            use_type_invariant(self);
            use_type_invariant(other);
        }
        self.secs < other.secs || (self.secs == other.secs && self.nanos <= other.nanos)
    }

    /// The digits that stand for this instant in a file name.
    pub fn stamp(&self) -> (r: String)
        ensures
            r@ == self.stamp_text(),
    {
        proof {
            use_type_invariant(self);
        }
        match format_utc(self.secs, self.nanos, "%Y%m%d%M%S") {
            Some(text) => text,
            None => unreached(),
        }
    }
}

/// Asks chrono to write an instant under a pattern: `DateTime::from_timestamp`
/// makes the instant in UTC, `DateTime::format` reads the pattern, and
/// `DelayedFormat::write_to` writes the text. `None` where chrono does not
/// know the instant or cannot write it under the pattern.
///
/// Trusted: what chrono writes is a function of the instant and the pattern
/// alone, for which `utc_text` is the name; and it does write every instant
/// of the calendar under the pattern of the stamp. For an instant outside
/// the calendar, or for another pattern, it is left open whether anything
/// is written.
#[verifier::external_body]
fn format_utc(secs: i64, nanos: u32, pattern: &str) -> (r: Option<String>)
    ensures
        in_calendar(secs as int, nanos as int) && pattern@ == stamp_pattern() ==> r is Some,
        r matches Some(text) ==> text@ == utc_text(secs as int, nanos as int, pattern@),
{
    match DateTime::<Utc>::from_timestamp(secs, nanos) {
        Some(instant) => {
            let mut text = String::new();
            match instant.format(pattern).write_to(&mut text) {
                Ok(()) => Some(text),
                Err(_) => None,
            }
        },
        None => None,
    }
}

/// A well-formed instant is its seconds and nanoseconds, and nothing else:
/// the view counts them in nanoseconds, and two instants with one view are
/// the same.
pub proof fn lemma_view(a: Timestamp, b: Timestamp)
    requires
        a.wf(),
        b.wf(),
    ensures
        in_calendar(a.spec_secs(), a.spec_nanos()),
        a@ == a.spec_secs() * NANOS_PER_SEC + a.spec_nanos(),
        a@ == b@ <==> a == b,
{
}

} // verus!
