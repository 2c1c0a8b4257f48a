//! Lengths of time, in whole seconds and nanoseconds.

use vstd::prelude::*;

verus! {

/// A length of time. The nanoseconds stay below one second.
#[derive(Debug, Clone, Copy, PartialEq, Eq)]
pub struct Duration {
    pub(crate) secs: u64,
    pub(crate) nanos: u32,
}

impl Duration {
    #[verifier::type_invariant]
    pub(crate) open spec fn below_second(self) -> bool {
        self.nanos < 1_000_000_000
    }

    pub open(crate) spec fn whole_seconds(self) -> int {
        self.secs as int
    }

    pub open(crate) spec fn subsecond_nanos(self) -> int {
        self.nanos as int
    }

    /// Whole milliseconds, rounded down.
    pub open(crate) spec fn millis(self) -> int {
        self.secs * 1000 + self.nanos as int / 1_000_000
    }

    /// Whether this is shorter than another length.
    pub open(crate) spec fn before(self, other: Duration) -> bool {
        self.secs < other.secs || (self.secs == other.secs && self.nanos < other.nanos)
    }

    /// The length of `secs` seconds and `nanos` nanoseconds.
    pub fn new(secs: u64, nanos: u32) -> (r: Duration)
        requires
            nanos < 1_000_000_000,
        ensures
            r.whole_seconds() == secs,
            r.subsecond_nanos() == nanos,
            r.millis() == secs * 1000 + nanos as int / 1_000_000,
    {
        Duration { secs, nanos }
    }

    pub fn from_millis(millis: u64) -> (r: Duration)
        ensures
            r.millis() == millis,
            r.whole_seconds() == millis as int / 1000,
            r.subsecond_nanos() == (millis as int % 1000) * 1_000_000,
    {
        let rest: u32 = (millis % 1000) as u32;
        Duration { secs: millis / 1000, nanos: rest * 1_000_000 }
    }

    pub fn from_secs(secs: u64) -> (r: Duration)
        ensures
            r.millis() == secs * 1000,
            r.whole_seconds() == secs,
            r.subsecond_nanos() == 0,
    {
        Duration { secs, nanos: 0 }
    }

    /// Whether this is shorter than another length.
    pub fn is_before(&self, other: &Duration) -> (r: bool)
        ensures
            r == self.before(*other),
    {
        self.secs < other.secs || (self.secs == other.secs && self.nanos < other.nanos)
    }

    pub fn as_millis(&self) -> (r: u128)
        ensures
            r == self.millis(),
    {
        (self.secs as u128) * 1000 + (self.nanos as u128) / 1_000_000
    }

    /// The whole milliseconds, if they fit in 64 bits.
    pub fn millis_u64(&self) -> (r: Option<u64>)
        ensures
            r == if self.millis() <= u64::MAX {
                Some(self.millis() as u64)
            } else {
                None
            },
    {
        let millis: u128 = self.as_millis();
        if millis <= u64::MAX as u128 {
            Some(millis as u64)
        } else {
            None
        }
    }

    /// The whole milliseconds, or the greatest 64-bit number.
    pub fn millis_saturating(&self) -> (r: u64)
        ensures
            r == saturated(self.millis()),
    {
        let millis: u128 = self.as_millis();
        if millis <= u64::MAX as u128 {
            millis as u64
        } else {
            u64::MAX
        }
    }

    /// The text that `{:?}` gives for this length.
    pub fn debug_text(&self) -> (r: String)
        ensures
            r@ == duration_debug(self.whole_seconds() as u64, self.subsecond_nanos() as u32),
    {
        proof {
            use_type_invariant(self);
        }
        debug_duration(self.secs, self.nanos)
    }
}

/// `n`, or the greatest 64-bit number if `n` is greater.
pub open spec fn saturated(n: int) -> int {
    if n <= u64::MAX {
        n
    } else {
        u64::MAX as int
    }
}

/// The text that the `Debug` impl of `std::time::Duration` gives.
pub uninterp spec fn duration_debug(secs: u64, nanos: u32) -> Seq<char>;

/// `format!("{:?}")` of the `std::time::Duration` of these parts.
/// `Duration::new` does not overflow, as the nanoseconds carry nothing over.
#[verifier::external_body]
fn debug_duration(secs: u64, nanos: u32) -> (r: String)
    requires
        nanos < 1_000_000_000,
    ensures
        r@ == duration_debug(secs, nanos),
{
    format!("{:?}", std::time::Duration::new(secs, nanos))
}

} // verus!
