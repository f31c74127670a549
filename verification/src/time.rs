//! Block times.

use vstd::prelude::*;

verus! {

/// The number of nanoseconds in a second.
pub const NANOS_PER_SECOND: u32 = 1_000_000_000;

/// A point in time, in UTC: whole seconds since the Unix epoch and the
/// nanoseconds past that second.
#[derive(Clone, Copy, Debug, PartialEq, Eq, Structural)]
pub struct DateTimeUtc {
    seconds: i64,
    nanos: u32,
}

impl DateTimeUtc {
    /// The invariant of the type: the nanoseconds are less than a second.
    #[verifier::type_invariant]
    spec fn valid(self) -> bool {
        self.is_valid()
    }

    /// Whether the nanoseconds are less than a second. Every time that the
    /// program holds is valid; a time that a proof speaks of need not be.
    pub closed spec fn is_valid(&self) -> bool {
        self.nanos < NANOS_PER_SECOND
    }

    /// The nanoseconds of a valid time are less than a second.
    pub proof fn lemma_valid(self)
        requires
            self.is_valid(),
        ensures
            0 <= self.spec_nanos() < NANOS_PER_SECOND,
    {
    }

    /// The whole seconds since the Unix epoch.
    pub closed spec fn spec_seconds(&self) -> i64 {
        self.seconds
    }

    /// The nanoseconds past the whole second.
    pub closed spec fn spec_nanos(&self) -> u32 {
        self.nanos
    }

    /// The time as nanoseconds since the Unix epoch.
    pub open spec fn instant(&self) -> int {
        self.spec_seconds() * 1_000_000_000 + self.spec_nanos()
    }

    /// The time `seconds` seconds after this one, or the last second that the
    /// type can hold where the sum lies beyond it.
    pub closed spec fn spec_plus_seconds(&self, seconds: u64) -> DateTimeUtc {
        DateTimeUtc {
            seconds: if self.seconds + seconds <= i64::MAX {
                (self.seconds + seconds) as i64
            } else {
                i64::MAX
            },
            nanos: self.nanos,
        }
    }

    /// What `spec_plus_seconds` gives, by its parts.
    pub proof fn lemma_plus_seconds(self, seconds: u64)
        ensures
            self.spec_plus_seconds(seconds).is_valid() == self.is_valid(),
            self.spec_plus_seconds(seconds).spec_nanos() == self.spec_nanos(),
            self.spec_plus_seconds(seconds).spec_seconds() == if self.spec_seconds() + seconds
                <= i64::MAX {
                self.spec_seconds() + seconds
            } else {
                i64::MAX as int
            },
    {
    }

    /// The time `nanos` nanoseconds after the second `seconds`, or `None`
    /// where `nanos` is a second or more.
    pub fn new(seconds: i64, nanos: u32) -> (time: Option<DateTimeUtc>)
        ensures
            time is Some <==> nanos < NANOS_PER_SECOND,
            time matches Some(t) ==> t.spec_seconds() == seconds && t.spec_nanos() == nanos,
    {
        if nanos < NANOS_PER_SECOND {
            Some(DateTimeUtc { seconds, nanos })
        } else {
            None
        }
    }

    /// The Unix epoch itself.
    pub closed spec fn spec_unix_epoch() -> DateTimeUtc {
        DateTimeUtc { seconds: 0, nanos: 0 }
    }

    /// The Unix epoch itself.
    pub fn unix_epoch() -> (time: DateTimeUtc)
        ensures
            time == Self::spec_unix_epoch(),
            time.spec_seconds() == 0,
            time.spec_nanos() == 0,
    {
        DateTimeUtc { seconds: 0, nanos: 0 }
    }

    /// The whole seconds since the Unix epoch.
    pub fn seconds(&self) -> (seconds: i64)
        ensures
            seconds == self.spec_seconds(),
    {
        self.seconds
    }

    /// The nanoseconds past the whole second.
    pub fn nanos(&self) -> (nanos: u32)
        ensures
            nanos == self.spec_nanos(),
    {
        self.nanos
    }

    /// Whether this time is `other` or later.
    pub fn is_at_or_after(&self, other: &DateTimeUtc) -> (later: bool)
        ensures
            later == (self.instant() >= other.instant()),
    {
        proof {
            use_type_invariant(self);
            use_type_invariant(other);
        }
        self.seconds > other.seconds || (self.seconds == other.seconds && self.nanos
            >= other.nanos)
    }

    /// The time `seconds` seconds later, or the last second that the type can
    /// hold where the sum lies beyond it.
    pub fn plus_seconds(&self, seconds: u64) -> (later: DateTimeUtc)
        ensures
            later == self.spec_plus_seconds(seconds),
    {
        proof {
            use_type_invariant(self);
        }
        let sum: i128 = self.seconds as i128 + seconds as i128;
        let capped: i64 = if sum > i64::MAX as i128 {
            i64::MAX
        } else {
            sum as i64
        };
        DateTimeUtc { seconds: capped, nanos: self.nanos }
    }
}

} // verus!
