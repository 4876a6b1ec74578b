//! Readings of the system clock and of the server's monotonic clock. A reading
//! can only come from the clock: its fields are private to this module, so no
//! other code can make one up.
use vstd::prelude::*;
use crate::execution_state::reading_millis;

verus! {

/// One reading of the system clock: whole seconds and nanoseconds since the
/// Unix epoch, or none when the clock stands before the epoch.
pub struct ClockReading {
    since_epoch: Option<(u64, u32)>,
}

impl ClockReading {
    /// The nanoseconds past the second are below one billion.
    pub closed spec fn valid(self) -> bool {
        self.since_epoch matches Some(p) ==> p.1 < 1_000_000_000
    }

    /// Whole milliseconds since the epoch (0 before the epoch).
    pub closed spec fn millis_since_epoch(self) -> nat {
        reading_millis(self.since_epoch)
    }

    /// Whole seconds since the epoch (0 before the epoch).
    pub closed spec fn secs_since_epoch(self) -> nat {
        match self.since_epoch {
            Some((secs, _)) => secs as nat,
            None => 0,
        }
    }

    /// The milliseconds of a reading are its seconds times 1000 plus the
    /// milliseconds within the second.
    pub proof fn lemma_millis_and_secs(self)
        requires
            self.valid(),
        ensures
            self.secs_since_epoch() * 1000 <= self.millis_since_epoch(),
            self.millis_since_epoch() < self.secs_since_epoch() * 1000 + 1000,
    {
    }

    /// Whole milliseconds since the epoch.
    pub fn millis(&self) -> (r: u128)
        ensures
            r == self.millis_since_epoch(),
    {
        match self.since_epoch {
            Some((secs, nanos)) => secs as u128 * 1000 + (nanos / 1_000_000) as u128,
            None => 0,
        }
    }

    /// Whole seconds since the epoch.
    pub fn secs(&self) -> (r: u64)
        ensures
            r == self.secs_since_epoch(),
    {
        match self.since_epoch {
            Some((secs, _)) => secs,
            None => 0,
        }
    }
}

/// `SystemTime::now().duration_since(UNIX_EPOCH)`: the system clock as whole
/// seconds and the nanoseconds past them, or none when the clock stands before
/// the epoch. Nothing is claimed about the values but the range of the
/// nanoseconds.
#[verifier::external_body]
pub fn unix_time() -> (c: ClockReading)
    ensures
        c.valid(),
{
    match std::time::SystemTime::now().duration_since(std::time::UNIX_EPOCH) {
        Ok(d) => ClockReading { since_epoch: Some((d.as_secs(), d.subsec_nanos())) },
        Err(_) => ClockReading { since_epoch: None },
    }
}

/// One reading of the server's monotonic clock: nanoseconds since its origin.
pub struct MonotonicReading {
    nanos: u128,
}

impl MonotonicReading {
    /// The nanoseconds since the clock's origin.
    pub closed spec fn elapsed_nanos(self) -> u128 {
        self.nanos
    }

    /// The nanoseconds since the clock's origin.
    pub fn nanos(&self) -> (r: u128)
        ensures
            r == self.elapsed_nanos(),
    {
        self.nanos
    }
}

/// `origin.elapsed().as_nanos()`: nanoseconds since `origin` by the monotonic
/// clock. Nothing is claimed about the value.
#[verifier::external_body]
pub fn nanos_since(origin: &std::time::Instant) -> MonotonicReading {
    MonotonicReading { nanos: origin.elapsed().as_nanos() }
}

} // verus!
