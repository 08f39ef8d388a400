//! A price-threshold strategy over several instruments: open when the last price
//! clears a fixed floor and nothing is open anywhere, close when the price rises
//! above the opening price. The orders themselves are placed by the caller, which
//! reports each fill back.
use vstd::prelude::*;
use crate::last_price_state::LastPriceState;
use crate::quantity::Quantity;
use crate::strategy::{
    first_index_of, map_position_to_pattern, position_view, remove_pattern_of, views,
    OpenedPattern, PatternView, PortfolioPosition, Share,
};

verus! {

/// Whole units the last price must reach before a position is opened.
pub const MIN_TARGET_UNITS: i64 = 300;

/// Fraction the last price must exceed before a position is opened.
pub const MIN_TARGET_FRACTION: i32 = 100;

/// The price clears the opening floor.
pub open spec fn clears_floor(price: Quantity) -> bool {
    price.units >= MIN_TARGET_UNITS && price.fraction > MIN_TARGET_FRACTION
}

/// The intent to open one lot of `s`.
pub open spec fn open_intent(s: Share) -> PatternView {
    PatternView { figi: s.figi@, quantity: 1, price_open: None, price_close: None, instrument_id: s.uid@ }
}

/// The position is to be closed: its current price is above its opening price.
pub open spec fn above_open(stat: LastPriceState, p: PatternView) -> bool {
    match (stat.price_of(p.instrument_id), p.price_open) {
        (Some(c), Some(o)) => o.spec_lt(c),
        _ => false,
    }
}

/// The positions a warm-up records: for each portfolio position, one per watched
/// instrument with its id, in order.
pub open spec fn warm_patterns(positions: Seq<PortfolioPosition>, uids: Seq<Seq<char>>) -> Seq<PatternView>
    decreases positions.len(),
{
    if positions.len() == 0 {
        Seq::empty()
    } else {
        warm_patterns(positions.drop_last(), uids) + matching(uids, positions.last())
    }
}

/// One copy of the position for each id in `uids` equal to its instrument's.
pub open spec fn matching(uids: Seq<Seq<char>>, p: PortfolioPosition) -> Seq<PatternView> {
    uids.filter(|u: Seq<char>| u == p.instrument_uid@).map_values(|u: Seq<char>| position_view(p))
}

/// The strategy over a set of instruments, with the positions it holds open.
pub struct FirstStrategy {
    instruments: Vec<Share>,
    opened_patterns: Vec<OpenedPattern>,
}

impl FirstStrategy {
    pub closed spec fn opened(self) -> Seq<PatternView> {
        views(self.opened_patterns@)
    }

    pub closed spec fn watched(self) -> Seq<Share> {
        self.instruments@
    }

    /// The ids of the watched instruments.
    pub open spec fn uids(self) -> Seq<Seq<char>> {
        self.watched().map_values(|s: Share| s.uid@)
    }

    /// The intent to open `s`, if any: nothing open anywhere and a last price that clears the floor.
    pub open spec fn spec_check(self, s: Share, stat: LastPriceState) -> Option<PatternView> {
        match stat.price_of(s.uid@) {
            Some(c) => if self.opened().len() == 0 && clears_floor(c) {
                Some(open_intent(s))
            } else {
                None
            },
            None => None,
        }
    }

    /// The intents to open, one per watched instrument for which one is signalled, in order.
    pub open spec fn spec_buys(self, upto: int, stat: LastPriceState) -> Seq<PatternView>
        decreases upto,
    {
        if upto <= 0 {
            Seq::empty()
        } else {
            let rest = self.spec_buys(upto - 1, stat);
            match self.spec_check(self.watched()[upto - 1], stat) {
                Some(p) => rest.push(p),
                None => rest,
            }
        }
    }

    /// A strategy over `instruments` with no open position.
    pub fn new(instruments: Vec<Share>) -> (r: Self)
        ensures
            r.opened() == Seq::<PatternView>::empty(),
            r.watched() == instruments@,
    {
        let r = FirstStrategy { instruments, opened_patterns: Vec::new() };
        proof {
            assert(r.opened() =~= Seq::<PatternView>::empty());
        }
        r
    }

    /// The open positions.
    pub fn opened_patterns(&self) -> (r: &Vec<OpenedPattern>)
        ensures
            views(r@) == self.opened(),
    {
        &self.opened_patterns
    }

    /// Records the positions of the portfolio that belong to watched instruments.
    pub fn warm_up(&mut self, positions: &Vec<PortfolioPosition>)
        ensures
            final(self).watched() == old(self).watched(),
            final(self).opened() == old(self).opened() + warm_patterns(positions@, old(self).uids()),
    {
        let ghost uids = self.uids();
        let ghost base = self.opened();
        let n = positions.len();
        let m = self.instruments.len();
        let mut i: usize = 0;
        proof {
            assert(positions@.take(0) =~= Seq::<PortfolioPosition>::empty());
            assert(base + warm_patterns(positions@.take(0), uids) =~= base);
        }
        while i < n
            invariant
                n == positions.len(),
                m == self.instruments.len(),
                0 <= i <= n,
                self.watched() == old(self).watched(),
                uids == self.uids(),
                base == old(self).opened(),
                self.opened() == base + warm_patterns(positions@.take(i as int), uids),
            decreases n - i,
        {
            let position = &positions[i];
            let ghost mid = self.opened();
            let ghost p = positions@[i as int];
            let mut j: usize = 0;
            proof {
                assert(uids.take(0).filter(|u: Seq<char>| u == p.instrument_uid@) =~= Seq::<Seq<char>>::empty());
                assert(mid + uids.take(0).filter(|u: Seq<char>| u == p.instrument_uid@).map_values(
                    |u: Seq<char>| position_view(p),
                ) =~= mid);
            }
            while j < m
                invariant
                    m == self.instruments.len(),
                    0 <= j <= m,
                    *position == p,
                    self.watched() == old(self).watched(),
                    uids == self.uids(),
                    uids.len() == m,
                    self.opened() == mid + uids.take(j as int).filter(
                        |u: Seq<char>| u == p.instrument_uid@,
                    ).map_values(|u: Seq<char>| position_view(p)),
                decreases m - j,
            {
                let ghost pred = |u: Seq<char>| u == p.instrument_uid@;
                let ghost f = |u: Seq<char>| position_view(p);
                proof {
                    assert(uids[j as int] == self.instruments@[j as int].uid@);
                    assert(uids.take(j + 1) =~= uids.take(j as int).push(uids[j as int]));
                    uids.take(j as int).lemma_filter_push(uids[j as int], pred);
                }
                if self.instruments[j].uid == position.instrument_uid {
                    let ghost before = self.opened();
                    let pattern = map_position_to_pattern(position);
                    self.opened_patterns.push(pattern);
                    proof {
                        assert(self.opened() =~= before.push(position_view(p)));
                        let fl = uids.take(j as int).filter(pred);
                        assert(fl.push(uids[j as int]).map_values(f) =~= fl.map_values(f).push(
                            position_view(p),
                        ));
                    }
                }
                j = j + 1;
            }
            proof {
                assert(uids.take(m as int) =~= uids);
                let t = positions@.take(i + 1);
                assert(t.drop_last() =~= positions@.take(i as int));
                assert(t.last() == p);
                assert(warm_patterns(t, uids) == warm_patterns(positions@.take(i as int), uids)
                    + matching(uids, p));
            }
            i = i + 1;
        }
        proof {
            assert(positions@.take(n as int) =~= positions@);
        }
    }

    /// The intent to open `instrument`, if one is signalled.
    pub fn check_pattern(&self, instrument: &Share, stat: &LastPriceState) -> (r: Option<OpenedPattern>)
        requires
            stat.wf(),
        ensures
            match self.spec_check(*instrument, *stat) {
                Some(p) => r is Some && r->0@ == p,
                None => r is None,
            },
    {
        let min_target = Quantity { units: MIN_TARGET_UNITS, fraction: MIN_TARGET_FRACTION };
        match stat.get_last_price(&instrument.uid) {
            Some(curr_price) => {
                if self.opened_patterns.len() == 0 && curr_price.units >= min_target.units
                    && curr_price.fraction > min_target.fraction {
                    Some(
                        OpenedPattern {
                            figi: instrument.figi.clone(),
                            quantity: 1,
                            price_open: None,
                            price_close: None,
                            instrument_id: instrument.uid.clone(),
                        },
                    )
                } else {
                    None
                }
            },
            None => None,
        }
    }

    /// The intents to open, in the order of the watched instruments.
    pub fn signal_buy(&self, stat: &LastPriceState) -> (r: Vec<OpenedPattern>)
        requires
            stat.wf(),
        ensures
            views(r@) == self.spec_buys(self.watched().len() as int, *stat),
    {
        let mut request_to_open: Vec<OpenedPattern> = Vec::new();
        let n = self.instruments.len();
        let mut i: usize = 0;
        proof {
            assert(views(request_to_open@) =~= Seq::<PatternView>::empty());
        }
        while i < n
            invariant
                n == self.instruments.len(),
                0 <= i <= n,
                stat.wf(),
                views(request_to_open@) == self.spec_buys(i as int, *stat),
            decreases n - i,
        {
            match self.check_pattern(&self.instruments[i], stat) {
                Some(order) => {
                    let ghost before = request_to_open@;
                    request_to_open.push(order);
                    proof {
                        assert(views(request_to_open@) =~= views(before).push(order@));
                    }
                },
                None => {},
            }
            i = i + 1;
        }
        request_to_open
    }

    /// The open positions whose last price is above their opening price.
    pub fn signal_sell(&self, stat: &LastPriceState) -> (r: Vec<OpenedPattern>)
        requires
            stat.wf(),
        ensures
            views(r@) == self.opened().filter(|p: PatternView| above_open(*stat, p)),
    {
        let ghost pred = |p: PatternView| above_open(*stat, p);
        let mut close_request: Vec<OpenedPattern> = Vec::new();
        let n = self.opened_patterns.len();
        let mut i: usize = 0;
        proof {
            assert(views(close_request@) =~= views(self.opened_patterns@).take(0).filter(pred));
        }
        while i < n
            invariant
                n == self.opened_patterns.len(),
                0 <= i <= n,
                stat.wf(),
                pred == (|p: PatternView| above_open(*stat, p)),
                views(close_request@) == views(self.opened_patterns@).take(i as int).filter(pred),
            decreases n - i,
        {
            let order = &self.opened_patterns[i];
            let curr_price = stat.get_last_price(&order.instrument_id);
            let keep = match (curr_price, order.price_open) {
                (Some(c), Some(o)) => o.lt(&c),
                _ => false,
            };
            proof {
                let all = views(self.opened_patterns@);
                assert(all.take(i + 1) =~= all.take(i as int).push(order@));
                all.take(i as int).lemma_filter_push(order@, pred);
            }
            if keep {
                let ghost before = close_request@;
                close_request.push(order.duplicate());
                proof {
                    assert(views(close_request@) =~= views(before).push(order@));
                }
            }
            i = i + 1;
        }
        proof {
            assert(views(self.opened_patterns@).take(n as int) =~= views(self.opened_patterns@));
        }
        close_request
    }

    /// Records a filled buy as an open position.
    pub fn record_opened(&mut self, pattern: OpenedPattern)
        ensures
            final(self).watched() == old(self).watched(),
            final(self).opened() == old(self).opened().push(pattern@),
    {
        self.opened_patterns.push(pattern);
        proof {
            assert(self.opened() =~= old(self).opened().push(pattern@));
        }
    }

    /// Records a filled sale: the first open position of `instrument_id` is removed.
    pub fn record_closed(&mut self, instrument_id: &String) -> (r: bool)
        ensures
            final(self).watched() == old(self).watched(),
            match first_index_of(old(self).opened(), instrument_id@) {
                Some(k) => r && final(self).opened() == old(self).opened().remove(k),
                None => !r && final(self).opened() == old(self).opened(),
            },
    {
        remove_pattern_of(&mut self.opened_patterns, instrument_id)
    }
}

} // verus!
