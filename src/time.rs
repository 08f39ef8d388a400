//! Points in time and the comparisons between them.
use vstd::prelude::*;

verus! {

/// A point in time: whole seconds since the Unix epoch and nanoseconds on top.
#[derive(Clone, Copy, Debug, PartialEq, Eq, Structural)]
pub struct Timestamp {
    pub seconds: i64,
    pub nanos: i32,
}

impl Timestamp {
    /// Strictly earlier, by (seconds, nanos).
    pub open spec fn spec_before(self, other: Timestamp) -> bool {
        self.seconds < other.seconds || (self.seconds == other.seconds && self.nanos < other.nanos)
    }

    /// Earlier or the same instant.
    pub open spec fn spec_not_after(self, other: Timestamp) -> bool {
        self.spec_before(other) || self == other
    }

    /// The instant `d` whole seconds later, when it is representable.
    pub fn plus_seconds(&self, d: i64) -> (r: Option<Timestamp>)
        ensures
            r == (if i64::MIN <= self.seconds + d <= i64::MAX {
                Some(Timestamp { seconds: (self.seconds + d) as i64, nanos: self.nanos })
            } else {
                None
            }),
    {
        match self.seconds.checked_add(d) {
            Some(s) => Some(Timestamp { seconds: s, nanos: self.nanos }),
            None => None,
        }
    }

    /// The instant `secs` seconds and `subsec_nanos` nanoseconds away from the epoch,
    /// before it when `before_epoch` holds. `None` when the seconds do not fit.
    pub fn from_epoch_offset(before_epoch: bool, secs: u64, subsec_nanos: u32) -> (r: Option<
        Timestamp,
    >)
        requires
            subsec_nanos < 1_000_000_000,
        ensures
            match r {
                Some(t) => {
                    &&& 0 <= t.nanos < 1_000_000_000
                    &&& t.seconds * 1_000_000_000 + t.nanos == (if before_epoch {
                        -(secs * 1_000_000_000 + subsec_nanos)
                    } else {
                        secs * 1_000_000_000 + subsec_nanos
                    })
                },
                None => secs > i64::MAX,
            },
    {
        if secs > i64::MAX as u64 {
            return None;
        }
        let s = secs as i64;
        if !before_epoch {
            Some(Timestamp { seconds: s, nanos: subsec_nanos as i32 })
        } else if subsec_nanos == 0 {
            Some(Timestamp { seconds: -s, nanos: 0 })
        } else {
            Some(Timestamp { seconds: -s - 1, nanos: (1_000_000_000 - subsec_nanos) as i32 })
        }
    }
}

/// Strict and non-strict order between two values.
pub trait Cmp<T> {
    spec fn spec_less(&self, other: &T) -> bool;

    spec fn spec_same(&self, other: &T) -> bool;

    /// Strictly less.
    fn _le(&self, other: &T) -> (r: bool)
        ensures
            r == self.spec_less(other),
    ;

    /// Less or equal.
    fn _leq(&self, other: &T) -> (r: bool)
        ensures
            r == (self.spec_less(other) || self.spec_same(other)),
    ;

    /// Strictly greater.
    fn _ge(&self, other: &T) -> (r: bool)
        ensures
            r == (!self.spec_less(other) && !self.spec_same(other)),
    ;

    /// Greater or equal.
    fn _geq(&self, other: &T) -> (r: bool)
        ensures
            r == !self.spec_less(other),
    ;
}

impl Cmp<Timestamp> for Timestamp {
    open spec fn spec_less(&self, other: &Timestamp) -> bool {
        self.spec_before(*other)
    }

    open spec fn spec_same(&self, other: &Timestamp) -> bool {
        *self == *other
    }

    fn _le(&self, other: &Timestamp) -> (r: bool) {
        self.seconds < other.seconds || (self.seconds == other.seconds && self.nanos < other.nanos)
    }

    fn _leq(&self, other: &Timestamp) -> (r: bool) {
        self.seconds < other.seconds || (self.seconds == other.seconds && self.nanos <= other.nanos)
    }

    fn _ge(&self, other: &Timestamp) -> (r: bool) {
        self.seconds > other.seconds || (self.seconds == other.seconds && self.nanos > other.nanos)
    }

    fn _geq(&self, other: &Timestamp) -> (r: bool) {
        self.seconds > other.seconds || (self.seconds == other.seconds && self.nanos >= other.nanos)
    }
}

} // verus!
