//! The executor's settings, and a future that yields once to it.
use vstd::prelude::*;
use vstd::string::StringSliceAdditionalSpecFns;
use crate::text::{parse_i32, parse_i32_bytes};

verus! {

/// A future that is pending on its first poll, after asking to be woken,
/// and ready on every later one.
pub struct YieldFuture(bool);

impl YieldFuture {
    /// Whether it has yielded already.
    pub closed spec fn yielded(&self) -> bool {
        self.0
    }

    /// A future that has not yielded yet.
    pub fn new() -> (r: Self)
        ensures
            !r.yielded(),
    {
        YieldFuture(false)
    }

    /// One poll: ready when it has yielded already; else it yields now, and
    /// the caller wakes the task and answers pending.
    pub fn poll_ready(&mut self) -> (r: bool)
        ensures
            r == old(self).yielded(),
            final(self).yielded(),
    {
        if self.0 {
            true
        } else {
            self.0 = true;
            false
        }
    }
}

/// The number of executor threads that the `SMOL_THREADS` setting asks
/// for: the number it spells, else one. No thread runs for a number below
/// one.
pub open spec fn executor_threads_of(setting: Option<Seq<u8>>) -> i32 {
    match setting {
        Some(b) => match parse_i32_bytes(b) {
            Some(n) => n,
            None => 1,
        },
        None => 1,
    }
}

/// The number of executor threads that the setting `setting` asks for.
pub fn executor_threads(setting: Option<&str>) -> (r: i32)
    ensures
        r == executor_threads_of(
            match setting {
                Some(s) => Some(s.spec_bytes()),
                None => None,
            },
        ),
{
    match setting {
        Some(s) => match parse_i32(s) {
            Some(n) => n,
            None => 1,
        },
        None => 1,
    }
}

/// The polls of the main future between the long pauses.
pub const POLLS_PER_LONG_PAUSE: usize = 8;

/// The pause after a poll of the main future that is still pending, and
/// the count of polls then: after every eighth poll a pause of 500 ms and
/// the count starts again, else 50 ms.
pub open spec fn poll_pause_of(count: nat) -> (nat, u64) {
    if count + 1 >= POLLS_PER_LONG_PAUSE {
        (0, 500)
    } else {
        (count + 1, 50)
    }
}

/// The pause in milliseconds after a pending poll of the main future, and
/// the count of polls after it, from the count before it.
pub fn poll_pause(count: usize) -> (r: (usize, u64))
    ensures
        (r.0 as nat, r.1) == poll_pause_of(count as nat),
{
    if count >= POLLS_PER_LONG_PAUSE - 1 {
        (0, 500)
    } else {
        (count + 1, 50)
    }
}

/// What a timer of `dur_nanos` does once `elapsed_nanos` have passed: it
/// is done (nothing left) when the time has come, else it waits for the
/// time that remains.
pub open spec fn timer_remaining_of(dur_nanos: u128, elapsed_nanos: u128) -> Option<u128> {
    if elapsed_nanos >= dur_nanos {
        None
    } else {
        Some((dur_nanos - elapsed_nanos) as u128)
    }
}

/// The nanoseconds that a timer of `dur_nanos` still waits after
/// `elapsed_nanos`, or nothing when it is done.
pub fn timer_remaining(dur_nanos: u128, elapsed_nanos: u128) -> (r: Option<u128>)
    ensures
        r == timer_remaining_of(dur_nanos, elapsed_nanos),
{
    if elapsed_nanos >= dur_nanos {
        None
    } else {
        Some(dur_nanos - elapsed_nanos)
    }
}

} // verus!
