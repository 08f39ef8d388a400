//! The interface shared by the market-data caches.
use vstd::prelude::*;

verus! {

/// Why an event could not be recorded.
#[derive(Clone, Copy, Debug, PartialEq, Eq, Structural)]
pub enum StoreError {
    /// A candle whose granularity is neither one nor five minutes.
    UnknownGranularity,
}

/// A cache that is fed one event at a time.
pub trait State<Event>: Sized {
    /// The cache's internal invariant.
    spec fn inv(&self) -> bool;

    /// An empty cache.
    fn new() -> (r: Self)
        ensures
            r.inv(),
    ;

    /// Records one event.
    fn update(&mut self, event: &Event) -> (r: Result<(), StoreError>)
        requires
            old(self).inv(),
        ensures
            final(self).inv(),
    ;
}

} // verus!
