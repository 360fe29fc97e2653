//! Time as plain values, and the clock capability the generator reads.
use vstd::prelude::*;

verus! {

/// Nanoseconds in one second.
pub const NANOS_PER_SEC: u32 = 1_000_000_000;

/// A span of time: whole seconds plus the nanoseconds of the last partial second.
/// Used both for a point in time (the span since the Unix epoch) and for an amount
/// by which a clock moves.
#[derive(Clone, Copy, Debug, PartialEq, Eq, Structural)]
pub struct Elapsed {
    pub secs: u64,
    pub nanos: u32,
}

impl Elapsed {
    /// The sub-second part is below one second.
    pub open spec fn wf(self) -> bool {
        self.nanos < NANOS_PER_SEC
    }

    /// The whole span in nanoseconds.
    pub open spec fn total_nanos(self) -> int {
        self.secs * NANOS_PER_SEC + self.nanos
    }

    /// Whether `self + other` still has a second count that fits in a `u64`.
    pub open spec fn sum_fits(self, other: Elapsed) -> bool {
        self.secs + other.secs + (self.nanos + other.nanos) / (NANOS_PER_SEC as int) <= u64::MAX
    }

    /// The span that `from_secs` gives.
    pub open spec fn from_secs_spec(secs: u64) -> Elapsed {
        Elapsed { secs, nanos: 0 }
    }

    /// A span of whole seconds.
    pub fn from_secs(secs: u64) -> (r: Elapsed)
        ensures
            r == Elapsed::from_secs_spec(secs),
            r.wf(),
    {
        Elapsed { secs, nanos: 0 }
    }

    /// The number of whole seconds.
    pub fn as_secs(&self) -> (r: u64)
        ensures
            r == self.secs,
    {
        self.secs
    }

    /// The nanoseconds past the whole seconds.
    pub fn subsec_nanos(&self) -> (r: u32)
        ensures
            r == self.nanos,
    {
        self.nanos
    }

    /// The sum of two spans, or `None` where its second count overflows a `u64`.
    pub fn checked_add(&self, other: &Elapsed) -> (r: Option<Elapsed>)
        requires
            self.wf(),
            other.wf(),
        ensures
            r is Some <==> self.sum_fits(*other),
            r matches Some(e) ==> e.wf() && e.total_nanos() == self.total_nanos()
                + other.total_nanos(),
    {
        let nanos: u32 = self.nanos + other.nanos;
        let (carry, rest): (u64, u32) = if nanos >= NANOS_PER_SEC {
            (1, nanos - NANOS_PER_SEC)
        } else {
            (0, nanos)
        };
        if self.secs > u64::MAX - other.secs || self.secs + other.secs > u64::MAX - carry {
            None
        } else {
            Some(Elapsed { secs: self.secs + other.secs + carry, nanos: rest })
        }
    }
}

/// A source of the current time, as the span since the Unix epoch, or `None` where the
/// source cannot give a valid time. Nothing is assumed of successive readings: a clock
/// that goes back can make a generator repeat identifiers.
pub trait Clock {
    fn now(&self) -> Option<Elapsed>;
}

/// The clock of the machine.
pub struct SystemClock {}

impl SystemClock {
    pub fn new() -> (r: SystemClock) {
        SystemClock {  }
    }
}

/// Relies on `SystemTime::elapsed` called on `std::time::UNIX_EPOCH`: the span from the
/// epoch to the current system time, split by `Duration::as_secs` and
/// `Duration::subsec_nanos` (documented to be below one billion). `elapsed` returns an
/// error when the system clock reads before the epoch; that gives `None`.
#[verifier::external_body]
fn system_time_since_epoch() -> (r: Option<Elapsed>)
    ensures
        r matches Some(e) ==> e.wf(),
{
    match std::time::UNIX_EPOCH.elapsed() {
        Ok(d) => Some(Elapsed { secs: d.as_secs(), nanos: d.subsec_nanos() }),
        Err(_) => None,
    }
}

impl Clock for SystemClock {
    /// The system time since the Unix epoch; `None` when the system clock reads before
    /// the epoch, which the host treats as fatal.
    fn now(&self) -> (r: Option<Elapsed>)
        ensures
            r matches Some(e) ==> e.wf(),
    {
        system_time_since_epoch()
    }
}

/// A clock that shows a virtual time, set at construction and moved only by `advance`.
pub struct MockClock {
    current_time: Elapsed,
}

impl View for MockClock {
    type V = Elapsed;

    closed spec fn view(&self) -> Elapsed {
        self.current_time
    }
}

impl MockClock {
    pub fn new(initial_time: Elapsed) -> (r: MockClock)
        requires
            initial_time.wf(),
        ensures
            r@ == initial_time,
    {
        MockClock { current_time: initial_time }
    }

    /// Moves the virtual time forward by `duration`.
    pub fn advance(&mut self, duration: Elapsed)
        requires
            old(self)@.wf(),
            duration.wf(),
            old(self)@.sum_fits(duration),
        ensures
            final(self)@.wf(),
            final(self)@.total_nanos() == old(self)@.total_nanos() + duration.total_nanos(),
    {
        match self.current_time.checked_add(&duration) {
            Some(t) => {
                self.current_time = t;
            },
            None => {},
        }
    }
}

impl Clock for MockClock {
    /// The virtual time; never fails.
    fn now(&self) -> (r: Option<Elapsed>)
        ensures
            r == Some(self@),
    {
        Some(self.current_time)
    }
}

} // verus!
