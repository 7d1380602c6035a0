//! Instants and durations as plain integers, and the calls into `chrono`
//! that produce them.
use vstd::prelude::*;

verus! {

/// A point in time: whole seconds since the Unix epoch and the nanoseconds
/// past that second.
#[derive(Clone, Copy, Debug, PartialEq, Eq, Structural)]
pub struct Timestamp {
    pub secs: i64,
    pub nanos: u32,
}

/// Nanoseconds since the Unix epoch.
pub open spec fn timestamp_nanos(t: Timestamp) -> int {
    t.secs * 1_000_000_000 + t.nanos
}

/// Nanoseconds from `earlier` to `later` (negative when `later` comes first).
pub open spec fn elapsed_nanos(later: Timestamp, earlier: Timestamp) -> int {
    timestamp_nanos(later) - timestamp_nanos(earlier)
}

/// Division that rounds toward zero, as Rust's `/` on integers does.
pub open spec fn div_toward_zero(a: int, b: int) -> int
    recommends
        b > 0,
{
    if a >= 0 {
        a / b
    } else {
        -((-a) / b)
    }
}

/// The largest number of whole seconds that `chrono` accepts as a duration.
pub open spec fn max_duration_secs() -> int {
    i64::MAX / 1000
}

/// An instant read from the clock. Only `utc_now` makes one.
pub struct ClockReading {
    time: Timestamp,
}

impl ClockReading {
    /// The instant that was read.
    pub closed spec fn time(&self) -> Timestamp {
        self.time
    }

    /// The instant that was read.
    pub fn instant(&self) -> (t: Timestamp)
        ensures
            t == self.time(),
    {
        self.time
    }
}

/// The instants read from the clock, in order.
pub struct ClockLog {
    readings: Ghost<Seq<Timestamp>>,
}

impl ClockLog {
    /// The instants read, in order.
    pub closed spec fn readings(&self) -> Seq<Timestamp> {
        self.readings@
    }

    /// No instant read yet.
    pub fn new() -> (log: ClockLog)
        ensures
            log.readings() == Seq::<Timestamp>::empty(),
    {
        ClockLog { readings: Ghost(Seq::empty()) }
    }

    /// Adds a reading to the log.
    pub fn record(&mut self, reading: &ClockReading)
        ensures
            final(self).readings() == old(self).readings().push(reading.time()),
    {
        self.readings = Ghost(self.readings@.push(reading.time));
    }
}

/// Reads the clock through `chrono::Utc::now`.
///
/// Claims of `Utc::now` what its source shows: the instant is taken from
/// `SystemTime` after the epoch, so the seconds are not negative and the
/// sub-second part is below one second. Which instant comes back is not
/// stated: it is the time of the call; the reading only records that it came
/// from the clock. `Utc::now` panics when the machine's clock reads before
/// 1970; that depends on the machine, not on any argument, so no `requires`
/// can leave it out.
#[verifier::external_body]
pub(crate) fn utc_now() -> (reading: ClockReading)
    ensures
        reading.time().secs >= 0,
        reading.time().nanos < 1_000_000_000,
{
    let now = chrono::Utc::now();
    ClockReading { time: Timestamp { secs: now.timestamp(), nanos: now.timestamp_subsec_nanos() } }
}

/// `chrono::TimeDelta::seconds`, read back as milliseconds with
/// `TimeDelta::num_milliseconds`.
///
/// Claims that a number of seconds within `chrono`'s bounds (at most
/// `i64::MAX / 1000` either way) becomes exactly that many thousand
/// milliseconds; `TimeDelta::seconds` panics outside those bounds, which the
/// `requires` leaves out.
///
/// Durations are built through `chrono` as the controller always built them,
/// so the call stands here rather than its few-line arithmetic.
#[verifier::external_body]
fn seconds_as_millis(seconds: i64) -> (ms: i64)
    requires
        -max_duration_secs() <= seconds <= max_duration_secs(),
    ensures
        ms == seconds * 1000,
{
    chrono::TimeDelta::seconds(seconds).num_milliseconds()
}

/// `chrono::TimeDelta::milliseconds`, read back with
/// `TimeDelta::num_milliseconds`.
///
/// Claims that every value but `i64::MIN` (on which `TimeDelta::milliseconds`
/// panics) comes back unchanged.
///
/// Durations are built through `chrono` as the controller always built them,
/// so the call stands here rather than its few-line arithmetic.
#[verifier::external_body]
fn milliseconds_as_millis(milliseconds: i64) -> (ms: i64)
    requires
        milliseconds != i64::MIN,
    ensures
        ms == milliseconds,
{
    chrono::TimeDelta::milliseconds(milliseconds).num_milliseconds()
}

/// `chrono::TimeDelta::num_seconds` of `TimeDelta::milliseconds(milliseconds)`.
///
/// Claims that the result is the number of whole seconds, rounded toward
/// zero (the source floors the seconds and adds one back for a negative
/// duration with a fractional part).
///
/// Durations are built through `chrono` as the controller always built them,
/// so the call stands here rather than its few-line arithmetic.
#[verifier::external_body]
fn millis_whole_seconds(milliseconds: i64) -> (secs: i64)
    requires
        milliseconds != i64::MIN,
    ensures
        secs == div_toward_zero(milliseconds as int, 1000),
{
    chrono::TimeDelta::milliseconds(milliseconds).num_seconds()
}

/// A cycle given in seconds, as milliseconds. `None` when `chrono` would
/// refuse the number of seconds.
pub fn duration_from_seconds(seconds: i64) -> (ms: Option<i64>)
    ensures
        ms == (if -max_duration_secs() <= seconds <= max_duration_secs() {
            Some((seconds * 1000) as i64)
        } else {
            None::<i64>
        }),
{
    if -(i64::MAX / 1000) <= seconds && seconds <= i64::MAX / 1000 {
        Some(seconds_as_millis(seconds))
    } else {
        None
    }
}

/// A duration given in milliseconds, as `chrono` keeps it. `None` for
/// `i64::MIN`, which `chrono` refuses.
pub fn duration_from_millis(milliseconds: i64) -> (ms: Option<i64>)
    ensures
        ms == (if milliseconds != i64::MIN { Some(milliseconds) } else { None::<i64> }),
{
    if milliseconds != i64::MIN {
        Some(milliseconds_as_millis(milliseconds))
    } else {
        None
    }
}

/// Whole seconds of a duration in milliseconds, rounded toward zero.
pub fn whole_seconds(milliseconds: i64) -> (secs: i64)
    requires
        milliseconds != i64::MIN,
    ensures
        secs == div_toward_zero(milliseconds as int, 1000),
{
    millis_whole_seconds(milliseconds)
}

/// Whether at least `cycle_ms` milliseconds have passed from `earlier` to
/// `later`.
pub fn has_elapsed(later: &Timestamp, earlier: &Timestamp, cycle_ms: i64) -> (b: bool)
    ensures
        b == ((later.secs - earlier.secs) * 1_000_000_000 + later.nanos - earlier.nanos >= cycle_ms
            * 1_000_000),
{
    let secs: i128 = later.secs as i128 - earlier.secs as i128;
    let nanos: i128 = later.nanos as i128 - earlier.nanos as i128;
    assert(-0x1_0000_0000_0000_0000 < secs < 0x1_0000_0000_0000_0000);
    assert(-0x1_0000_0000_0000_0000 * 1_000_000_000 <= secs * 1_000_000_000
        <= 0x1_0000_0000_0000_0000 * 1_000_000_000) by (nonlinear_arith)
        requires
            -0x1_0000_0000_0000_0000 < secs < 0x1_0000_0000_0000_0000,
    ;
    assert(i64::MIN * 1_000_000 <= cycle_ms * 1_000_000 <= i64::MAX * 1_000_000) by (nonlinear_arith)
        requires
            i64::MIN <= cycle_ms <= i64::MAX,
    ;
    let total: i128 = secs * 1_000_000_000 + nanos;
    let needed: i128 = cycle_ms as i128 * 1_000_000;
    total >= needed
}

} // verus!
