//! Time instants and half-open time intervals in millisecond precision.

use vstd::prelude::*;

verus! {

/// One instant in time, in milliseconds since the Unix epoch.
#[derive(Clone, Copy, Debug, PartialEq, Eq, Structural)]
pub struct TimeInstance {
    millis: i64,
}

impl TimeInstance {
    /// The instant's value, for specifications.
    pub closed spec fn spec_inner(self) -> int {
        self.millis as int
    }

    /// Builds an instant from epoch milliseconds.
    pub fn from_millis(millis: i64) -> (r: TimeInstance)
        ensures
            r.spec_inner() == millis,
    {
        TimeInstance { millis }
    }

    /// The raw epoch milliseconds of this instant.
    pub fn inner(self) -> (r: i64)
        ensures
            r == self.spec_inner(),
    {
        self.millis
    }
}

/// A half-open time interval `[start, end)` over epoch milliseconds.
///
/// Every constructed interval satisfies `start <= end`.
#[derive(Clone, Copy, Debug, PartialEq, Eq, Structural)]
pub struct TimeInterval {
    start: TimeInstance,
    end: TimeInstance,
}

impl TimeInterval {
    pub closed spec fn spec_start(self) -> int {
        self.start.spec_inner()
    }

    pub closed spec fn spec_end(self) -> int {
        self.end.spec_inner()
    }

    /// Well-formedness: the interval is empty or runs forward.
    pub open spec fn wf(self) -> bool {
        self.spec_start() <= self.spec_end()
    }

    /// An instant `t` lies in the interval iff `start <= t < end`.
    pub open spec fn spec_contains(self, t: int) -> bool {
        self.spec_start() <= t < self.spec_end()
    }

    /// Two intervals intersect iff some instant lies in both.
    pub open spec fn spec_intersects(self, other: TimeInterval) -> bool {
        self.spec_start() < other.spec_end() && other.spec_start() < self.spec_end()
    }

    /// Builds the interval `[start, end)`; rejects `start > end`.
    pub fn new(start: TimeInstance, end: TimeInstance) -> (r: Result<TimeInterval, TimeError>)
        ensures
            r is Ok <==> start.spec_inner() <= end.spec_inner(),
            r matches Ok(iv) ==> iv.spec_start() == start.spec_inner()
                && iv.spec_end() == end.spec_inner() && iv.wf(),
    {
        if start.inner() <= end.inner() {
            Ok(TimeInterval { start, end })
        } else {
            Err(TimeError::EndBeforeStart)
        }
    }

    /// Builds the interval `[start, end)` from raw milliseconds.
    pub fn new_millis(start: i64, end: i64) -> (r: Result<TimeInterval, TimeError>)
        ensures
            r is Ok <==> start <= end,
            r matches Ok(iv) ==> iv.spec_start() == start && iv.spec_end() == end && iv.wf(),
    {
        TimeInterval::new(TimeInstance::from_millis(start), TimeInstance::from_millis(end))
    }

    /// The default interval spanning the whole representable range.
    pub fn default_interval() -> (r: TimeInterval)
        ensures
            r.spec_start() == i64::MIN,
            r.spec_end() == i64::MAX,
            r.wf(),
    {
        TimeInterval {
            start: TimeInstance::from_millis(i64::MIN),
            end: TimeInstance::from_millis(i64::MAX),
        }
    }

    pub fn start(self) -> (r: TimeInstance)
        ensures
            r.spec_inner() == self.spec_start(),
    {
        self.start
    }

    pub fn end(self) -> (r: TimeInstance)
        ensures
            r.spec_inner() == self.spec_end(),
    {
        self.end
    }

    /// Membership test for the half-open interval: `start <= t < end`.
    pub fn contains(self, t: TimeInstance) -> (r: bool)
        ensures
            r == self.spec_contains(t.spec_inner()),
    {
        self.start.inner() <= t.inner() && t.inner() < self.end.inner()
    }

    /// Whether two intervals share at least one instant.
    pub fn intersects(self, other: TimeInterval) -> (r: bool)
        ensures
            r == self.spec_intersects(other),
    {
        self.start.inner() < other.end.inner() && other.start.inner() < self.end.inner()
    }

    /// The interval's length in milliseconds.
    pub fn duration_ms(self) -> (r: i64)
        requires
            self.wf(),
            self.spec_end() - self.spec_start() <= i64::MAX,
        ensures
            r == self.spec_end() - self.spec_start(),
    {
        self.end.inner() - self.start.inner()
    }
}

/// The epoch milliseconds that the RFC 3339 parser reads from a timestamp
/// string, or nothing for a string it rejects.
pub uninterp spec fn rfc3339_millis(s: Seq<char>) -> Option<int>;

/// Relies on chrono::DateTime::parse_from_rfc3339 and timestamp_millis:
/// the parsed instant depends on the string alone.
#[verifier::external_body]
fn parse_rfc3339_millis(s: &str) -> (r: Option<i64>)
    ensures
        r is Some <==> rfc3339_millis(s@) is Some,
        r matches Some(m) ==> rfc3339_millis(s@) == Some(m as int),
{
    match chrono::DateTime::parse_from_rfc3339(s) {
        Ok(dt) => Some(dt.timestamp_millis()),
        Err(_) => None,
    }
}

impl TimeInstance {
    /// Parses an RFC 3339 timestamp string into an instant; fails exactly
    /// on the strings the parser rejects. The accepted grammar is RFC 3339
    /// proper — including variants such as a lower-case `z` or a space
    /// separator that stricter ISO parsers refuse.
    pub fn from_str(s: &str) -> (r: Result<TimeInstance, TimeError>)
        ensures
            r is Ok <==> rfc3339_millis(s@) is Some,
            r matches Ok(t) ==> rfc3339_millis(s@) == Some(t.spec_inner()),
            r is Err ==> r == Result::<TimeInstance, TimeError>::Err(TimeError::InvalidTimestamp),
    {
        match parse_rfc3339_millis(s) {
            Option::Some(m) => Ok(TimeInstance::from_millis(m)),
            Option::None => Err(TimeError::InvalidTimestamp),
        }
    }
}

/// The half-open invariant, stated once for every constructed interval:
/// `start <= end`, and an instant `t` belongs to `[s, e)` iff `s <= t < e`.
pub proof fn lemma_time_interval_half_open(iv: TimeInterval, t: int)
    requires
        iv.wf(),
    ensures
        iv.spec_start() <= iv.spec_end(),
        iv.spec_contains(t) <==> iv.spec_start() <= t < iv.spec_end(),
{
}

/// Errors of time handling.
#[derive(Clone, Copy, Debug, PartialEq, Eq, Structural)]
pub enum TimeError {
    /// An interval's end would lie before its start.
    EndBeforeStart,
    /// A timestamp string could not be parsed.
    InvalidTimestamp,
}

} // verus!
