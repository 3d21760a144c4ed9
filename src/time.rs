//! Instants in UTC, as whole seconds since the Unix epoch and a nanosecond
//! part, in the shape that chrono's `DateTime<Utc>` exposes them.
use vstd::prelude::*;

verus! {

/// Nanoseconds in one second.
pub const NANOS_PER_SEC: u32 = 1_000_000_000;

/// Nanoseconds in one millisecond.
pub const NANOS_PER_MILLI: u32 = 1_000_000;

/// An instant in UTC. `nanos` may reach past one second only to stand for a
/// leap second, as in chrono.
#[derive(Clone, Copy, Debug, PartialEq, Eq, Structural)]
pub struct Timestamp {
    pub secs: i64,
    pub nanos: u32,
}

impl Timestamp {
    /// The nanosecond part is in the range chrono allows.
    pub open spec fn wf(&self) -> bool {
        self.nanos < 2 * NANOS_PER_SEC
    }

    /// Nanoseconds since the Unix epoch.
    pub open spec fn total_nanos(&self) -> int {
        self.secs as int * NANOS_PER_SEC as int + self.nanos as int
    }

    /// `self` is at or before `other`, in chrono's order on instants: by
    /// seconds, then by the nanosecond part.
    pub open spec fn spec_le(&self, other: Timestamp) -> bool {
        self.secs < other.secs || (self.secs == other.secs && self.nanos <= other.nanos)
    }

    /// Whether `self` is at or before `other`.
    pub fn le(&self, other: &Timestamp) -> (r: bool)
        ensures
            r == self.spec_le(*other),
    {
        self.secs < other.secs || (self.secs == other.secs && self.nanos <= other.nanos)
    }

    /// The instant `secs` seconds and `nanos` nanoseconds after the epoch, or
    /// `None` where chrono has no such instant (a nanosecond part past one
    /// second outside a leap second, or a date out of its range).
    pub fn from_unix(secs: i64, nanos: u32) -> (r: Option<Timestamp>)
        ensures
            r is Some ==> r->0 == (Timestamp { secs, nanos }) && r->0.wf(),
            (r is Some) == (valid_unix_parts(secs as int, nanos as int) && secs_in_date_range(secs as int)),
    {
        chrono_from_timestamp(secs, nanos)
    }

    /// The current instant, read from the system clock.
    pub fn now() -> (r: Timestamp)
        ensures
            r.wf(),
    {
        chrono_now()
    }
}

/// A nanosecond part that chrono accepts beside `secs`: under one second, or
/// under two in the last second of a minute (a leap second).
pub open spec fn valid_unix_parts(secs: int, nanos: int) -> bool {
    nanos < NANOS_PER_SEC || (nanos < 2 * NANOS_PER_SEC && secs % 60 == 59)
}

/// Days from January 1 of year 1 to the Unix epoch.
pub const UNIX_EPOCH_DAY: i64 = 719_163;

/// The day that `secs` seconds after the epoch falls on, counted so that
/// January 1 of year 1 is day 1.
pub open spec fn day_from_ce(secs: int) -> int {
    secs / 86_400 + UNIX_EPOCH_DAY as int
}

/// `secs` falls on a date chrono represents: from January 1 of year
/// -262143 to December 31 of year 262142.
pub open spec fn secs_in_date_range(secs: int) -> bool {
    -95_746_129 <= day_from_ce(secs) <= 95_745_399
}

/// How long to wait, in whole milliseconds rounded up and at least one, for
/// an instant `to` that is not yet due at `from`.
pub open spec fn wait_millis(from: Timestamp, to: Timestamp) -> int {
    let d = to.total_nanos() - from.total_nanos();
    if d <= NANOS_PER_MILLI as int {
        1
    } else {
        (d + NANOS_PER_MILLI as int - 1) / NANOS_PER_MILLI as int
    }
}

/// The signed distance from `from` to `to` in whole milliseconds, rounded
/// toward zero.
pub open spec fn millis_between(from: Timestamp, to: Timestamp) -> int {
    let d = to.total_nanos() - from.total_nanos();
    if d >= 0 {
        d / NANOS_PER_MILLI as int
    } else {
        -((-d) / NANOS_PER_MILLI as int)
    }
}

/// The distance from `from` to `to` in whole milliseconds, rounded toward
/// zero.
pub fn millis_until(from: &Timestamp, to: &Timestamp) -> (r: i128)
    requires
        from.wf(),
        to.wf(),
    ensures
        r == millis_between(*from, *to),
{
    let ds: i128 = to.secs as i128 - from.secs as i128;
    let dn: i128 = to.nanos as i128 - from.nanos as i128;
    let d: i128 = ds * 1_000_000_000 + dn;
    assert(d == to.total_nanos() - from.total_nanos());
    if d >= 0 {
        d / 1_000_000
    } else {
        -((-d) / 1_000_000)
    }
}

/// The milliseconds to wait from `from` until `to`, rounded up, at least
/// one.
pub fn millis_to_wait(from: &Timestamp, to: &Timestamp) -> (r: i128)
    requires
        from.wf(),
        to.wf(),
    ensures
        r == wait_millis(*from, *to),
        r >= 1,
{
    let ds: i128 = to.secs as i128 - from.secs as i128;
    let dn: i128 = to.nanos as i128 - from.nanos as i128;
    let d: i128 = ds * 1_000_000_000 + dn;
    assert(d == to.total_nanos() - from.total_nanos());
    if d <= 1_000_000 {
        1
    } else {
        (d + 999_999) / 1_000_000
    }
}

/// Relies on chrono's `DateTime::<Utc>::from_timestamp`: `None` on a nanosecond
/// part it refuses (`NaiveTime::from_num_seconds_from_midnight_opt`) or a day
/// outside `NaiveDate`'s years -262143 to 262142; otherwise an instant whose
/// `timestamp()` and `timestamp_subsec_nanos()` give back the two arguments.
#[verifier::external_body]
fn chrono_from_timestamp(secs: i64, nanos: u32) -> (r: Option<Timestamp>)
    ensures
        r is Some ==> r->0 == (Timestamp { secs, nanos }) && r->0.wf(),
        (r is Some) == (valid_unix_parts(secs as int, nanos as int) && secs_in_date_range(secs as int)),
{
    chrono::DateTime::from_timestamp(secs, nanos).map(
        |d| Timestamp { secs: d.timestamp(), nanos: d.timestamp_subsec_nanos() },
    )
}

/// Relies on chrono's `Utc::now`: the current instant, whose nanosecond part
/// chrono keeps under two seconds.
#[verifier::external_body]
fn chrono_now() -> (r: Timestamp)
    ensures
        r.wf(),
{
    let d = chrono::Utc::now();
    Timestamp { secs: d.timestamp(), nanos: d.timestamp_subsec_nanos() }
}

} // verus!
