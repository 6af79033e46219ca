//! Readings of a monotonic clock, held as plain numbers.

use vstd::prelude::*;
use vstd::arithmetic::div_mod::lemma_fundamental_div_mod_converse;

verus! {

/// Nanoseconds in one second.
pub const NANOS_PER_SEC: u32 = 1_000_000_000;

/// One reading of a monotonic clock: whole seconds and the nanoseconds of the
/// second that has begun, counted from an origin that the process fixes once.
/// The difference of two readings is a span of time in the same form.
#[derive(Clone, Copy, Debug, PartialEq, Eq, Structural)]
pub struct Timestamp {
    pub secs: u64,
    pub nanos: u32,
}

impl Timestamp {
    /// A reading is well formed when its nanoseconds stay below one second.
    pub open spec fn wf(self) -> bool {
        self.nanos < NANOS_PER_SEC
    }

    /// The reading as a number of nanoseconds.
    pub open spec fn total_nanos(self) -> int {
        self.secs * 1_000_000_000 + self.nanos
    }

    /// The reading that amounts to `n` nanoseconds.
    pub open spec fn from_nanos(n: int) -> Timestamp {
        Timestamp { secs: (n / 1_000_000_000) as u64, nanos: (n % 1_000_000_000) as u32 }
    }

    /// Builds a reading, or nothing when `nanos` is a second or more.
    pub fn new(secs: u64, nanos: u32) -> (t: Option<Timestamp>)
        ensures
            t == (if nanos < NANOS_PER_SEC {
                Some(Timestamp { secs, nanos })
            } else {
                None
            }),
    {
        if nanos < NANOS_PER_SEC {
            Some(Timestamp { secs, nanos })
        } else {
            None
        }
    }
}

/// The time that passes from `start` to `now` as a number of nanoseconds:
/// zero when `now` is not later than `start`.
pub open spec fn elapsed_nanos(start: Timestamp, now: Timestamp) -> int {
    if now.total_nanos() >= start.total_nanos() {
        now.total_nanos() - start.total_nanos()
    } else {
        0
    }
}

/// The time that passes from `start` to `now`, zero when `now` is not later.
pub open spec fn elapsed_between(start: Timestamp, now: Timestamp) -> Timestamp {
    Timestamp::from_nanos(elapsed_nanos(start, now))
}

/// A well-formed reading is the one that its number of nanoseconds gives.
pub proof fn lemma_from_total_nanos(t: Timestamp)
    requires
        t.wf(),
    ensures
        Timestamp::from_nanos(t.total_nanos()) == t,
{
    lemma_fundamental_div_mod_converse(t.total_nanos(), 1_000_000_000, t.secs as int, t.nanos as int);
}

/// Time elapsed from `start` to `now`, saturating at zero.
pub fn elapsed(start: Timestamp, now: Timestamp) -> (d: Timestamp)
    requires
        start.wf(),
        now.wf(),
    ensures
        d.wf(),
        d == elapsed_between(start, now),
{
    let d = if now.secs < start.secs || (now.secs == start.secs && now.nanos <= start.nanos) {
        Timestamp { secs: 0, nanos: 0 }
    } else if now.nanos >= start.nanos {
        Timestamp { secs: now.secs - start.secs, nanos: now.nanos - start.nanos }
    } else {
        Timestamp {
            secs: now.secs - start.secs - 1,
            nanos: now.nanos + NANOS_PER_SEC - start.nanos,
        }
    };
    proof {
        assert(d.total_nanos() == elapsed_nanos(start, now));
        lemma_from_total_nanos(d);
    }
    d
}

} // verus!
