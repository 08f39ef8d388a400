//! The hammer strategy: buy a bullish hammer that ends a bearish trend, sell once the
//! price passes a target projected from the hammer's range.
use vstd::prelude::*;
use crate::candle::{is_hammer_bullish, spec_hammer_bullish, Candle, CandleExtension, Granularity};
use crate::candle_state::{in_window, CandleState, SizedRange};
use crate::order::{ExecutionError, OrderServiceHistBoxImpl, OrderType};
use crate::quantity::{checked_from, from_nanos, Quantity};
use crate::strategy::{first_index_of, remove_pattern_of, views, OpenedPattern, PatternView, Share};
use crate::time::Timestamp;
use crate::trading_cfg::HammerStrategySettings;
use crate::trend::{trend_holds, TrendKind};

verus! {

/// The start of the look-back window that ends at `now`, when it is representable.
pub open spec fn window_start(now: Timestamp, window_size_min: u64) -> Option<Timestamp> {
    let s = now.seconds - window_size_min * 60;
    if i64::MIN <= s {
        Some(Timestamp { seconds: s as i64, nanos: now.nanos })
    } else {
        None
    }
}

/// The close target of a position opened on candle `c`: its high plus twice its range.
pub open spec fn close_target(c: Candle) -> Option<Quantity> {
    checked_from(c.high.value() + 2 * (c.high.value() - c.low.value()))
}

/// The price a position is checked against: the close of a bullish candle, else its open.
pub open spec fn observed_price(c: Candle) -> Quantity {
    if c.spec_bullish() {
        c.close
    } else {
        c.open
    }
}

/// The position is to be closed at `price`: its target is set and `price` is above it.
pub open spec fn passes_target(p: PatternView, price: Quantity) -> bool {
    match p.price_close {
        Some(t) => t.spec_lt(price),
        None => false,
    }
}

/// The strategy for one instrument, with the positions it holds open.
pub struct HammerStrategy {
    instrument: Share,
    opened_patterns: Vec<OpenedPattern>,
    settings: HammerStrategySettings,
}

impl HammerStrategy {
    pub closed spec fn opened(self) -> Seq<PatternView> {
        views(self.opened_patterns@)
    }

    pub closed spec fn uid(self) -> Seq<char> {
        self.instrument.uid@
    }

    pub closed spec fn figi(self) -> Seq<char> {
        self.instrument.figi@
    }

    pub closed spec fn spec_settings(self) -> HammerStrategySettings {
        self.settings
    }

    /// At most one position is open.
    pub open spec fn wf(self) -> bool {
        self.opened().len() <= 1
    }

    /// The intent to open one lot with close target `t`.
    pub open spec fn intent(self, t: Quantity) -> PatternView {
        PatternView {
            figi: self.figi(),
            quantity: 1,
            price_open: None,
            price_close: Some(t),
            instrument_id: self.uid(),
        }
    }

    /// The one-minute candles of the instrument.
    pub open spec fn minute_series(self, stat: CandleState) -> Seq<Candle> {
        stat.series(Granularity::OneMinute, self.uid())
    }

    /// The close target of the position to open at `now`, if a buy is signalled: no
    /// position open, a bearish trend over the window, and a bullish hammer last.
    pub open spec fn spec_buy_target(self, stat: CandleState, now: Timestamp) -> Option<Quantity> {
        let s = self.minute_series(stat);
        if self.opened().len() > 0 || s.len() == 0 {
            None
        } else {
            match window_start(now, self.spec_settings().window_size_min) {
                None => None,
                Some(start) => if trend_holds(
                    TrendKind::Bearish,
                    s.filter(in_window(start, now)),
                    self.spec_settings().trend_cfg.max_candle_skip as int,
                ) && spec_hammer_bullish(self.spec_settings().hammer_cfg, s.last()) {
                    close_target(s.last())
                } else {
                    None
                },
            }
        }
    }

    /// The open positions whose target the latest candle has passed.
    pub open spec fn spec_to_sell(self, stat: CandleState) -> Seq<PatternView> {
        let s = self.minute_series(stat);
        if s.len() == 0 {
            Seq::empty()
        } else {
            self.opened().filter(|p: PatternView| passes_target(p, observed_price(s.last())))
        }
    }

    /// What one update cycle at `now` gives: its result, the open positions after it,
    /// and the executor's balance after it.
    pub open spec fn spec_update(
        self,
        stat: CandleState,
        orders: OrderServiceHistBoxImpl,
        now: Timestamp,
    ) -> (Result<(), ExecutionError>, Seq<PatternView>, Quantity) {
        match self.spec_buy_target(stat, now) {
            Some(t) => match orders.spec_buy(1, None, OrderType::Market) {
                Ok((_, b)) => (Ok(()), seq![self.intent(t)], b),
                Err(e) => (
                    if e.spec_is_fatal() {
                        Err(e)
                    } else {
                        Ok(())
                    },
                    self.opened(),
                    orders.spec_balance(),
                ),
            },
            None => {
                let sells = self.spec_to_sell(stat);
                if sells.len() == 0 {
                    (Ok(()), self.opened(), orders.spec_balance())
                } else {
                    match orders.spec_sell(sells[0].quantity, None, OrderType::Market) {
                        Ok((_, b)) => (Ok(()), Seq::empty(), b),
                        Err(e) => (
                            if e.spec_is_fatal() {
                                Err(e)
                            } else {
                                Ok(())
                            },
                            self.opened(),
                            orders.spec_balance(),
                        ),
                    }
                }
            },
        }
    }

    /// One decision cycle at time `now`: computes the buy and sell intents, then submits
    /// the buys, recording each fill as an open position, then the sells, removing the
    /// position of each fill. A recoverable failure drops its intent; a fatal one stops
    /// the cycle and is returned.
    pub fn update(&mut self, stat: &CandleState, orders: &mut OrderServiceHistBoxImpl, now: Timestamp) -> (r: Result<(), ExecutionError>)
        requires
            old(self).wf(),
            old(orders).wf(),
        ensures
            final(self).wf(),
            final(orders).wf(),
            final(self).uid() == old(self).uid(),
            final(self).figi() == old(self).figi(),
            final(self).spec_settings() == old(self).spec_settings(),
            final(orders).spec_current_price() == old(orders).spec_current_price(),
            final(orders).spec_commission() == old(orders).spec_commission(),
            final(orders).spec_threshold() == old(orders).spec_threshold(),
            (r, final(self).opened(), final(orders).spec_balance()) == old(self).spec_update(
                *stat,
                *old(orders),
                now,
            ),
    {
        let to_buy = self.signal_buy(stat, now);
        let to_sell = self.signal_sell(stat);
        proof {
            let s = self.minute_series(*stat);
            if s.len() > 0 {
                let pred = |p: PatternView| passes_target(p, observed_price(s.last()));
                self.opened().lemma_filter_len(pred);
                if self.opened().len() == 1 && to_sell.len() == 1 {
                    assert(self.opened().filter(pred).contains(to_sell@[0]@)) by {
                        assert(views(to_sell@)[0] == to_sell@[0]@);
                    }
                    self.opened().lemma_filter_contains_rev(pred, to_sell@[0]@);
                }
            }
        }
        let ghost old_opened = self.opened();
        proof {
            assert(old_opened.len() == self.opened_patterns@.len());
            if to_buy.len() > 0 {
                assert(views(to_buy@).len() == to_buy@.len());
                assert(old_opened.len() == 0);
                assert(to_sell@.len() == views(to_sell@).len());
                assert(to_sell@.len() == 0);
            }
        }
        if to_buy.len() > 0 {
            let order = to_buy[0].duplicate();
            proof {
                assert(views(to_buy@)[0] == to_buy@[0]@);
            }
            match orders.order_buy(order.quantity, None, OrderType::Market) {
                Ok(_) => {
                    let ghost before = self.opened_patterns@;
                    self.opened_patterns.push(order);
                    proof {
                        assert(before.len() == 0);
                        assert(views(self.opened_patterns@) =~= seq![order@]);
                    }
                },
                Err(e) => {
                    if e.is_fatal() {
                        return Err(e);
                    }
                },
            }
        }
        if to_sell.len() > 0 {
            let order = &to_sell[0];
            proof {
                assert(views(to_sell@)[0] == to_sell@[0]@);
            }
            match orders.order_sell(order.quantity, None, OrderType::Market) {
                Ok(_) => {
                    let ghost before = views(self.opened_patterns@);
                    remove_pattern_of(&mut self.opened_patterns, &order.instrument_id);
                    proof {
                        assert(before.len() == 1);
                        assert(before[0] == order@);
                        assert(first_index_of(before, order.instrument_id@) == Some(0int));
                        assert(views(self.opened_patterns@) =~= Seq::<PatternView>::empty());
                    }
                },
                Err(e) => {
                    if e.is_fatal() {
                        return Err(e);
                    }
                },
            }
        }
        Ok(())
    }

    /// A strategy for `instrument` with no open position.
    pub fn new(instrument: Share, settings: HammerStrategySettings) -> (r: Self)
        ensures
            r.wf(),
            r.opened() == Seq::<PatternView>::empty(),
            r.uid() == instrument.uid@,
            r.figi() == instrument.figi@,
            r.spec_settings() == settings,
    {
        let r = HammerStrategy { instrument, opened_patterns: Vec::new(), settings };
        proof {
            assert(r.opened() =~= Seq::<PatternView>::empty());
        }
        r
    }

    /// The open positions.
    pub fn opened_patterns(&self) -> (r: &Vec<OpenedPattern>)
        ensures
            views(r@) == self.opened(),
    {
        &self.opened_patterns
    }

    /// The intents to open a position at time `now`: at most one.
    pub fn signal_buy(&self, stat: &CandleState, now: Timestamp) -> (r: Vec<OpenedPattern>)
        ensures
            views(r@) == match self.spec_buy_target(*stat, now) {
                Some(t) => seq![self.intent(t)],
                None => Seq::<PatternView>::empty(),
            },
    {
        let mut to_buy: Vec<OpenedPattern> = Vec::new();
        proof {
            assert(views(to_buy@) =~= Seq::<PatternView>::empty());
        }
        if self.opened_patterns.len() > 0 {
            return to_buy;
        }
        let last = match stat.get_last_candle(&self.instrument.uid, Granularity::OneMinute) {
            Some(c) => c,
            None => return to_buy,
        };
        let span: u128 = self.settings.window_size_min as u128 * 60;
        let start_seconds: i128 = now.seconds as i128 - span as i128;
        if start_seconds < i64::MIN as i128 {
            return to_buy;
        }
        let start = Timestamp { seconds: start_seconds as i64, nanos: now.nanos };
        let range = match SizedRange::new_1m(start, now) {
            Some(r) => r,
            None => return to_buy,
        };
        let is_trend_bearish = stat.is_trend_bearish(&self.settings.trend_cfg, &self.instrument.uid, &range);
        let hammer = is_hammer_bullish(&self.settings.hammer_cfg, &last);
        if is_trend_bearish && hammer {
            let high = last.high.to_nanos();
            let low = last.low.to_nanos();
            let target = match from_nanos(high + 2 * (high - low)) {
                Some(t) => t,
                None => return to_buy,
            };
            to_buy.push(
                OpenedPattern {
                    figi: self.instrument.figi.clone(),
                    quantity: 1,
                    price_open: None,
                    price_close: Some(target),
                    instrument_id: self.instrument.uid.clone(),
                },
            );
            proof {
                assert(views(to_buy@) =~= seq![self.intent(target)]);
            }
        }
        to_buy
    }

    /// The open positions to close: those whose target the latest candle's price has passed.
    pub fn signal_sell(&self, stat: &CandleState) -> (r: Vec<OpenedPattern>)
        ensures
            views(r@) == self.spec_to_sell(*stat),
    {
        let mut close_request: Vec<OpenedPattern> = Vec::new();
        let last = match stat.get_last_candle(&self.instrument.uid, Granularity::OneMinute) {
            Some(c) => c,
            None => {
                proof {
                    assert(views(close_request@) =~= Seq::<PatternView>::empty());
                }
                return close_request;
            },
        };
        let last_price = if last.is_bullish() {
            last.close
        } else {
            last.open
        };
        let ghost pred = |p: PatternView| passes_target(p, observed_price(last));
        let n = self.opened_patterns.len();
        let mut i: usize = 0;
        proof {
            assert(views(close_request@) =~= views(self.opened_patterns@).take(0).filter(pred));
        }
        while i < n
            invariant
                n == self.opened_patterns.len(),
                0 <= i <= n,
                last_price == observed_price(last),
                pred == (|p: PatternView| passes_target(p, observed_price(last))),
                views(close_request@) == views(self.opened_patterns@).take(i as int).filter(pred),
            decreases n - i,
        {
            let order = &self.opened_patterns[i];
            let keep = match order.price_close {
                Some(t) => t.lt(&last_price),
                None => false,
            };
            proof {
                let all = views(self.opened_patterns@);
                assert(all.take(i + 1) =~= all.take(i as int).push(order@));
                all.take(i as int).lemma_filter_push(order@, pred);
            }
            if keep {
                let ghost before = close_request@;
                close_request.push(order.duplicate());
                proof {
                    assert(views(close_request@) =~= views(before).push(order@));
                }
            }
            i = i + 1;
        }
        proof {
            assert(views(self.opened_patterns@).take(n as int) =~= views(self.opened_patterns@));
        }
        close_request
    }
}

} // verus!
