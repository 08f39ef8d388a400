//! The last observed price of each instrument.
use vstd::prelude::*;
use crate::quantity::Quantity;
use crate::state::{State, StoreError};
use crate::time::Timestamp;

verus! {

/// One price observation of one instrument.
pub struct PricePoint {
    pub instrument_uid: String,
    pub price: Quantity,
    pub time: Timestamp,
}

/// The price recorded last for `id` among `s`, looking from the newest entry back.
pub open spec fn latest_price(s: Seq<PricePoint>, id: Seq<char>) -> Option<Quantity>
    decreases s.len(),
{
    if s.len() == 0 {
        None
    } else if s.last().instrument_uid@ == id {
        Some(s.last().price)
    } else {
        latest_price(s.drop_last(), id)
    }
}

/// No instrument appears twice.
pub open spec fn unique_ids(s: Seq<PricePoint>) -> bool {
    forall|i: int, j: int|
        0 <= i < s.len() && 0 <= j < s.len() && i != j ==> #[trigger] s[i].instrument_uid@
            != #[trigger] s[j].instrument_uid@
}

proof fn lemma_latest_at(s: Seq<PricePoint>, id: Seq<char>, k: int)
    requires
        unique_ids(s),
        0 <= k < s.len(),
        s[k].instrument_uid@ == id,
    ensures
        latest_price(s, id) == Some(s[k].price),
    decreases s.len(),
{
    if k < s.len() - 1 {
        assert(s.last().instrument_uid@ != id) by {
            assert(s[s.len() - 1].instrument_uid@ != s[k].instrument_uid@);
        }
        let t = s.drop_last();
        assert(unique_ids(t)) by {
            assert forall|i: int, j: int|
                0 <= i < t.len() && 0 <= j < t.len() && i != j implies #[trigger] t[i].instrument_uid@
                != #[trigger] t[j].instrument_uid@ by {
                assert(t[i] == s[i] && t[j] == s[j]);
            }
        }
        lemma_latest_at(t, id, k);
    }
}

proof fn lemma_latest_absent(s: Seq<PricePoint>, id: Seq<char>)
    requires
        forall|k: int| 0 <= k < s.len() ==> #[trigger] s[k].instrument_uid@ != id,
    ensures
        latest_price(s, id) is None,
    decreases s.len(),
{
    if s.len() > 0 {
        let t = s.drop_last();
        assert forall|k: int| 0 <= k < t.len() implies #[trigger] t[k].instrument_uid@ != id by {
            assert(t[k] == s[k]);
        }
        lemma_latest_absent(t, id);
    }
}

/// The last observed price of each instrument, one entry per instrument.
pub struct LastPriceState {
    entries: Vec<PricePoint>,
}

impl LastPriceState {
    pub closed spec fn wf(self) -> bool {
        unique_ids(self.entries@)
    }

    /// The last price recorded for each instrument id.
    pub closed spec fn price_of(self, id: Seq<char>) -> Option<Quantity> {
        latest_price(self.entries@, id)
    }

    /// A cache with no prices.
    pub fn empty() -> (r: Self)
        ensures
            r.wf(),
            forall|id: Seq<char>| r.price_of(id) is None,
    {
        LastPriceState { entries: Vec::new() }
    }

    /// Records `price` as the last price of `instrument_uid`, replacing any earlier one.
    pub fn record_price(&mut self, instrument_uid: &String, price: Quantity, time: Timestamp)
        requires
            old(self).wf(),
        ensures
            final(self).wf(),
            final(self).price_of(instrument_uid@) == Some(price),
            forall|id: Seq<char>|
                id != instrument_uid@ ==> final(self).price_of(id) == old(self).price_of(id),
    {
        let n = self.entries.len();
        let mut i: usize = 0;
        while i < n
            invariant
                n == self.entries.len(),
                self.entries@ == old(self).entries@,
                unique_ids(self.entries@),
                0 <= i <= n,
                forall|k: int| 0 <= k < i ==> #[trigger] self.entries@[k].instrument_uid@ != instrument_uid@,
            decreases n - i,
        {
            if self.entries[i].instrument_uid == *instrument_uid {
                let ghost before = self.entries@;
                let point = PricePoint { instrument_uid: instrument_uid.clone(), price, time };
                self.entries.set(i, point);
                proof {
                    let s = self.entries@;
                    assert(unique_ids(s)) by {
                        assert forall|a: int, b: int|
                            0 <= a < s.len() && 0 <= b < s.len() && a != b implies #[trigger] s[a].instrument_uid@
                            != #[trigger] s[b].instrument_uid@ by {
                            assert(before[i as int].instrument_uid@ == instrument_uid@);
                            if a != i && b != i {
                                assert(s[a] == before[a] && s[b] == before[b]);
                            } else if a == i {
                                assert(s[b] == before[b]);
                                assert(before[b].instrument_uid@ != before[a].instrument_uid@);
                            } else {
                                assert(s[a] == before[a]);
                                assert(before[a].instrument_uid@ != before[b].instrument_uid@);
                            }
                        }
                    }
                    lemma_latest_at(s, instrument_uid@, i as int);
                    assert forall|id: Seq<char>| id != instrument_uid@ implies latest_price(s, id)
                        == latest_price(before, id) by {
                        if exists|k: int| 0 <= k < s.len() && #[trigger] s[k].instrument_uid@ == id {
                            let k = choose|k: int| 0 <= k < s.len() && #[trigger] s[k].instrument_uid@ == id;
                            assert(k != i);
                            assert(s[k] == before[k]);
                            lemma_latest_at(s, id, k);
                            lemma_latest_at(before, id, k);
                        } else {
                            assert forall|k: int| 0 <= k < before.len() implies #[trigger] before[k].instrument_uid@ != id by {
                                if k != i {
                                    assert(s[k] == before[k]);
                                }
                            }
                            lemma_latest_absent(s, id);
                            lemma_latest_absent(before, id);
                        }
                    }
                }
                return;
            }
            i = i + 1;
        }
        let ghost before = self.entries@;
        let point = PricePoint { instrument_uid: instrument_uid.clone(), price, time };
        self.entries.push(point);
        proof {
            let s = self.entries@;
            assert(s.drop_last() =~= before);
            assert(unique_ids(s)) by {
                assert forall|a: int, b: int|
                    0 <= a < s.len() && 0 <= b < s.len() && a != b implies #[trigger] s[a].instrument_uid@
                    != #[trigger] s[b].instrument_uid@ by {
                    if a < n && b < n {
                        assert(s[a] == before[a] && s[b] == before[b]);
                    } else if a < n {
                        assert(s[a] == before[a]);
                    } else {
                        assert(s[b] == before[b]);
                    }
                }
            }
        }
    }

    /// The last price recorded for `instrument_uid`, if any.
    pub fn get_last_price(&self, instrument_uid: &String) -> (r: Option<Quantity>)
        requires
            self.wf(),
        ensures
            r == self.price_of(instrument_uid@),
    {
        let n = self.entries.len();
        let mut i: usize = 0;
        while i < n
            invariant
                n == self.entries.len(),
                unique_ids(self.entries@),
                0 <= i <= n,
                forall|k: int| 0 <= k < i ==> #[trigger] self.entries@[k].instrument_uid@ != instrument_uid@,
            decreases n - i,
        {
            if self.entries[i].instrument_uid == *instrument_uid {
                proof {
                    lemma_latest_at(self.entries@, instrument_uid@, i as int);
                }
                return Some(self.entries[i].price);
            }
            i = i + 1;
        }
        proof {
            lemma_latest_absent(self.entries@, instrument_uid@);
        }
        None
    }
}

impl State<PricePoint> for LastPriceState {
    open spec fn inv(&self) -> bool {
        self.wf()
    }

    fn new() -> (r: Self) {
        LastPriceState::empty()
    }

    /// Never fails.
    fn update(&mut self, event: &PricePoint) -> (r: Result<(), StoreError>)
        ensures
            r is Ok,
            final(self).price_of(event.instrument_uid@) == Some(event.price),
            forall|id: Seq<char>|
                id != event.instrument_uid@ ==> final(self).price_of(id) == old(self).price_of(id),
    {
        self.record_price(&event.instrument_uid, event.price, event.time);
        Ok(())
    }
}

} // verus!
