//! Where the engine gets the time from.
use vstd::prelude::*;
use std::time::{Duration, Instant};
use crate::timestamp::read_buf;
use crate::buf::le_value;

verus! {

/// Nanoseconds in a second.
pub const NANOS_PER_SEC: i64 = 1000000000;

/// Nanoseconds in a millisecond.
pub const NANOS_PER_MILLI: i64 = 1000000;

/// `a / b` as Rust divides integers: the quotient rounded toward zero.
pub open spec fn div_toward_zero(a: int, b: int) -> int {
    if a >= 0 {
        a / b
    } else {
        -((-a) / b)
    }
}

/// Whole seconds in a count of nanoseconds, rounded toward zero.
pub fn nanos_to_secs(nanos: i64) -> (r: i64)
    ensures
        r == div_toward_zero(nanos as int, NANOS_PER_SEC as int),
{
    if nanos >= 0 {
        nanos / NANOS_PER_SEC
    } else {
        let m: u64 = if nanos == i64::MIN {
            0x8000000000000000
        } else {
            (-nanos) as u64
        };
        let q: u64 = m / 1000000000;
        -(q as i64)
    }
}

/// Whole milliseconds in a count of nanoseconds, rounded toward zero.
pub fn nanos_to_millis(nanos: i64) -> (r: i64)
    ensures
        r == div_toward_zero(nanos as int, NANOS_PER_MILLI as int),
{
    if nanos >= 0 {
        nanos / NANOS_PER_MILLI
    } else {
        let m: u64 = if nanos == i64::MIN {
            0x8000000000000000
        } else {
            (-nanos) as u64
        };
        let q: u64 = m / 1000000;
        -(q as i64)
    }
}

/// A reading in whole seconds is its reading in whole milliseconds, in
/// whole seconds: rounding toward zero twice rounds as once.
pub proof fn law_secs_are_millis_in_secs(nanos: int)
    ensures
        div_toward_zero(nanos, NANOS_PER_SEC as int) == div_toward_zero(
            div_toward_zero(nanos, NANOS_PER_MILLI as int),
            1000,
        ),
{
    if nanos >= 0 {
        vstd::arithmetic::div_mod::lemma_div_denominator(nanos, 1000000, 1000);
        vstd::arithmetic::div_mod::lemma_div_pos_is_pos(nanos, 1000000);
    } else {
        vstd::arithmetic::div_mod::lemma_div_denominator(-nanos, 1000000, 1000);
        vstd::arithmetic::div_mod::lemma_div_pos_is_pos(-nanos, 1000000);
    }
}

/// A clock: the time since the Unix epoch, in nanoseconds. Seconds and
/// milliseconds are derived from it.
pub trait TimerProvider {
    /// `n` is a reading that this clock can give, in nanoseconds.
    spec fn reads(&self, n: i64) -> bool;

    /// Nanoseconds since the Unix epoch: one reading of the clock.
    fn now_timestamp_nanos(&self) -> (r: i64)
        ensures
            self.reads(r),
    ;

    /// Seconds since the Unix epoch: the nanoseconds of one reading,
    /// rounded toward zero.
    fn now_timestamp(&self) -> (r: i64)
        ensures
            exists|n: i64| #[trigger] self.reads(n) && r == div_toward_zero(n as int, NANOS_PER_SEC as int),
    {
        let n = self.now_timestamp_nanos();
        nanos_to_secs(n)
    }

    /// Milliseconds since the Unix epoch: the nanoseconds of one reading,
    /// rounded toward zero.
    fn now_timestamp_millis(&self) -> (r: i64)
        ensures
            exists|n: i64| #[trigger] self.reads(n) && r == div_toward_zero(n as int, NANOS_PER_MILLI as int),
    {
        let n = self.now_timestamp_nanos();
        nanos_to_millis(n)
    }
}

/// The instant that the test clock always reads, in nanoseconds.
pub const TEST_NOW_NANOS: i64 = 16454983112120000;

/// A clock stopped at `TEST_NOW_NANOS`, for tests.
pub struct TestTimerProvider {}

impl TimerProvider for TestTimerProvider {
    /// The test clock reads `TEST_NOW_NANOS` and nothing else.
    open spec fn reads(&self, n: i64) -> bool {
        n == TEST_NOW_NANOS
    }

    fn now_timestamp_nanos(&self) -> (r: i64)
        ensures
            r == TEST_NOW_NANOS,
    {
        TEST_NOW_NANOS
    }
}

/// The clock for tests.
pub fn init_test_timer_provider() -> (r: TestTimerProvider) {
    TestTimerProvider {}
}

/// The test clock's seconds and milliseconds are those of its one reading.
pub proof fn law_test_clock_readings(c: TestTimerProvider, secs: i64, millis: i64)
    requires
        exists|n: i64| #[trigger] c.reads(n) && secs == div_toward_zero(n as int, NANOS_PER_SEC as int),
        exists|n: i64| #[trigger] c.reads(n) && millis == div_toward_zero(n as int, NANOS_PER_MILLI as int),
    ensures
        secs == 16454983,
        millis == 16454983112,
{
}

#[verifier::external_type_specification]
#[verifier::external_body]
pub struct ExInstant(Instant);

/// `Instant::now`: the machine's monotonic clock, read now.
#[verifier::external_body]
fn instant_now() -> (r: Instant) {
    Instant::now()
}

/// `Instant::elapsed`: the time gone by since `begin`.
#[verifier::external_body]
fn instant_elapsed(begin: &Instant) -> (r: Duration) {
    begin.elapsed()
}

/// `Duration::as_nanos`: whole nanoseconds in `d`.
#[verifier::external_body]
fn duration_as_nanos(d: &Duration) -> (r: u128) {
    d.as_nanos()
}

/// The clock reading `elapsed` nanoseconds after the instant whose time was
/// `net_time`: the elapsed time is taken as an `i64` (its low 64 bits) and
/// added with wrap-around, as a release build does.
pub open spec fn reading_of(net_time: i64, elapsed: u128) -> i64 {
    net_time.wrapping_add(elapsed as i64)
}

/// Where no sum overflows, the clock reads the time it was set to plus
/// exactly the nanoseconds gone by since: it neither lags nor runs ahead.
pub proof fn law_reading_is_set_time_plus_elapsed(net_time: i64, elapsed: u128)
    requires
        elapsed <= i64::MAX,
        net_time + elapsed <= i64::MAX,
    ensures
        reading_of(net_time, elapsed) == net_time + elapsed,
{
    assert(elapsed as i64 == elapsed) by (bit_vector)
        requires
            elapsed <= 0x7fff_ffff_ffff_ffffu128,
    ;
}

/// The clock reading `elapsed` nanoseconds after the instant whose time was
/// `net_time`.
pub fn clock_reading(net_time: i64, elapsed: u128) -> (r: i64)
    ensures
        r == reading_of(net_time, elapsed),
{
    let e: i64 = #[verifier::truncate] (elapsed as i64);
    net_time.wrapping_add(e)
}

/// A clock set from a time server: the time it sent, and the instant at
/// which it was received.
pub struct MyTimeProvider {
    pub net_time: i64,
    pub net_begin: Instant,
}

impl MyTimeProvider {
    /// A clock that counts from zero at the instant it is made.
    pub fn new() -> (r: Self)
        ensures
            r.net_time == 0,
    {
        MyTimeProvider { net_begin: instant_now(), net_time: 0 }
    }

    /// A clock set from the eight bytes that a time server sent: the
    /// nanoseconds since the Unix epoch, least significant byte first.
    pub fn from_net_bytes(buf: &[u8]) -> (r: Self)
        requires
            buf@.len() >= 8,
        ensures
            r.net_time as u64 as nat == le_value(buf@.take(8)),
    {
        let net_time = read_buf(buf);
        MyTimeProvider { net_begin: instant_now(), net_time }
    }
}

impl TimerProvider for MyTimeProvider {
    /// The time sent by the server plus some time gone by since it came.
    open spec fn reads(&self, n: i64) -> bool {
        exists|e: u128| n == #[trigger] reading_of(self.net_time, e)
    }

    /// The time sent by the server plus the time gone by since it came.
    fn now_timestamp_nanos(&self) -> (r: i64)
        ensures
            exists|e: u128| r == #[trigger] reading_of(self.net_time, e),
    {
        let d = instant_elapsed(&self.net_begin);
        let e = duration_as_nanos(&d);
        clock_reading(self.net_time, e)
    }
}

} // verus!
