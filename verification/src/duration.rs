//! A span of time with nanosecond resolution, modelled as a natural number of
//! nanoseconds.

use vstd::prelude::*;

verus! {

/// Nanoseconds in one second.
pub const NANOS_PER_SEC: u64 = 1_000_000_000;

/// The largest number of nanoseconds a `Duration` can hold: `u64::MAX` whole
/// seconds plus a fraction just short of one more second.
pub open spec fn max_nanos() -> nat {
    ((u64::MAX as nat) * (NANOS_PER_SEC as nat) + (NANOS_PER_SEC as nat) - 1) as nat
}

/// A span of time: whole seconds and the nanoseconds of the second under way.
#[derive(Clone, Copy, Debug, PartialEq, Eq)]
pub struct Duration {
    secs: u64,
    nanos: u32,
}

impl Duration {
    /// The fractional part is always less than one second.
    #[verifier::type_invariant]
    spec fn inv(self) -> bool {
        self.nanos < NANOS_PER_SEC
    }

    /// The whole span in nanoseconds.
    pub closed spec fn nanos_total(self) -> nat {
        (self.secs as nat) * (NANOS_PER_SEC as nat) + (self.nanos as nat)
    }

    /// The empty span.
    pub fn zero() -> (r: Duration)
        ensures
            r@ == 0,
    {
        Duration { secs: 0, nanos: 0 }
    }

    /// A span of whole seconds.
    pub fn from_secs(secs: u64) -> (r: Duration)
        ensures
            r@ == secs * NANOS_PER_SEC,
    {
        Duration { secs, nanos: 0 }
    }

    /// A span given in nanoseconds.
    pub fn from_nanos(nanos: u64) -> (r: Duration)
        ensures
            r@ == nanos,
    {
        let secs = nanos / NANOS_PER_SEC;
        let rest = nanos % NANOS_PER_SEC;
        Duration { secs, nanos: rest as u32 }
    }

    /// A span of `secs` seconds and `nanos` nanoseconds; nanoseconds beyond one
    /// second carry into the seconds.
    pub fn new(secs: u64, nanos: u32) -> (r: Duration)
        requires
            secs as nat + (nanos as nat) / (NANOS_PER_SEC as nat) <= u64::MAX,
        ensures
            r@ == secs * NANOS_PER_SEC + nanos,
    {
        let carry = (nanos as u64) / NANOS_PER_SEC;
        let rest = (nanos as u64) % NANOS_PER_SEC;
        Duration { secs: secs + carry, nanos: rest as u32 }
    }

    /// The number of whole seconds.
    pub fn as_secs(&self) -> (r: u64)
        ensures
            r == self@ / (NANOS_PER_SEC as nat),
    {
        proof {
            use_type_invariant(self);
        }
        self.secs
    }

    /// The nanoseconds of the second under way.
    pub fn subsec_nanos(&self) -> (r: u32)
        ensures
            r == self@ % (NANOS_PER_SEC as nat),
    {
        proof {
            use_type_invariant(self);
        }
        self.nanos
    }

    /// Whether the span is empty.
    pub fn is_zero(&self) -> (r: bool)
        ensures
            r == (self@ == 0),
    {
        self.secs == 0 && self.nanos == 0
    }

    /// The sum of two spans, or `None` where it exceeds `max_nanos`.
    pub fn checked_add(&self, other: &Duration) -> (r: Option<Duration>)
        ensures
            r is Some <==> self@ + other@ <= max_nanos(),
            r matches Some(s) ==> s@ == self@ + other@,
    {
        proof {
            use_type_invariant(self);
            use_type_invariant(other);
        }
        let mut nanos: u64 = self.nanos as u64 + other.nanos as u64;
        let mut carry: u64 = 0;
        if nanos >= NANOS_PER_SEC {
            nanos = nanos - NANOS_PER_SEC;
            carry = 1;
        }
        match self.secs.checked_add(other.secs) {
            None => None,
            Some(s) => match s.checked_add(carry) {
                None => None,
                Some(secs) => Some(Duration { secs, nanos: nanos as u32 }),
            },
        }
    }
}

impl View for Duration {
    type V = nat;

    closed spec fn view(&self) -> nat {
        self.nanos_total()
    }
}

} // verus!
