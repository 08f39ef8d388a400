use trading_core::candle::{Candle, Granularity};
use trading_core::candle_state::CandleState;
use trading_core::first_strategy::FirstStrategy;
use trading_core::hammer_strategy::HammerStrategy;
use trading_core::last_price_state::LastPriceState;
use trading_core::order::{ExecutionError, OrderDirection, OrderServiceHistBoxImpl, OrderType};
use trading_core::quantity::Quantity;
use trading_core::strategy::{map_position_to_pattern, OpenedPattern, PortfolioPosition, Share};
use trading_core::time::Timestamp;
use trading_core::trading_cfg::{HammerCfg, HammerStrategySettings, TrendCfg};

fn q(units: i64) -> Quantity {
    Quantity { units, fraction: 0 }
}

#[test]
fn balance_after_a_round_trip() {
    let mut orders = OrderServiceHistBoxImpl::new(q(1000), 30, 100);
    orders.set_current_price(q(100));
    let fill = orders.order_buy(1, None, OrderType::Market).unwrap();
    assert_eq!(fill.direction, OrderDirection::Buy);
    assert_eq!(fill.price, q(100));
    assert_eq!(fill.commission, q(30));
    assert_eq!(orders.get_balance(), q(870));
    orders.set_current_price(q(120));
    let fill = orders.order_sell(1, None, OrderType::Market).unwrap();
    assert_eq!(fill.commission, q(36));
    assert_eq!(orders.get_balance(), q(954));
    assert!(orders.get_balance() < q(1020));
}

#[test]
fn buy_under_threshold_fails() {
    let mut orders = OrderServiceHistBoxImpl::new(q(99), 30, 100);
    orders.set_current_price(q(1));
    let err = orders.order_buy(1, None, OrderType::Market).unwrap_err();
    assert_eq!(err, ExecutionError::InsufficientFunds { balance_units: 99, threshold: 100 });
    assert!(err.is_fatal());
    assert_eq!(orders.get_balance(), q(99));
}

#[test]
fn other_order_errors() {
    let mut orders = OrderServiceHistBoxImpl::new(q(1000), 0, 0);
    orders.set_current_price(q(10));
    assert_eq!(orders.order_buy(1, Some(q(10)), OrderType::Market), Err(ExecutionError::UnsupportedOrder));
    assert_eq!(orders.order_buy(1, None, OrderType::Limit), Err(ExecutionError::UnsupportedOrder));
    assert_eq!(orders.order_sell(1, None, OrderType::Limit), Err(ExecutionError::UnsupportedOrder));
    assert_eq!(orders.order_buy(0, None, OrderType::Market), Err(ExecutionError::Cancelled));
    assert_eq!(orders.order_sell(-1, None, OrderType::Market), Err(ExecutionError::Cancelled));
    assert_eq!(orders.order_buy(101, None, OrderType::Market), Err(ExecutionError::NotEnoughMoney));
    orders.set_current_price(Quantity { units: i64::MAX, fraction: 0 });
    assert_eq!(orders.order_sell(2, None, OrderType::Market), Err(ExecutionError::Overflow));
    assert!(!ExecutionError::Cancelled.is_fatal());
    assert!(!ExecutionError::Rejected.is_fatal());
    assert!(ExecutionError::UnsupportedOrder.is_fatal());
    assert_eq!(orders.get_balance(), q(1000));
    let mut empty = OrderServiceHistBoxImpl::new(q(0), 0, 0);
    assert_eq!(empty.order_buy(1, None, OrderType::Market), Err(ExecutionError::Cancelled));
}

fn minute(open: i64, high: i64, low: i64, close: i64, minute: i64) -> Candle {
    Candle {
        interval: Granularity::OneMinute,
        open: q(open),
        high: q(high),
        low: q(low),
        close: q(close),
        volume: 1,
        time: Timestamp { seconds: 60 * minute, nanos: 0 },
    }
}

#[test]
fn hammer_strategy_opens_and_closes() {
    let settings = HammerStrategySettings {
        hammer_cfg: HammerCfg { bottom_start: 10, bottom_end: 30, up_start: 70, up_end: 90 },
        trend_cfg: TrendCfg { max_candle_skip: 1 },
        window_size_min: 5,
    };
    let share = Share { uid: "uid".to_string(), figi: "figi".to_string() };
    let mut strategy = HammerStrategy::new(share, settings);
    let mut state = CandleState::empty();
    let mut orders = OrderServiceHistBoxImpl::new(q(1000), 0, 100);
    let id = "uid".to_string();

    state.record_candle(&id, minute(110, 112, 100, 108, 0)).unwrap();
    state.record_candle(&id, minute(100, 102, 90, 95, 1)).unwrap();
    // A bullish hammer at a new low: opens at 20%, closes at 80% of [80, 90].
    state.record_candle(&id, minute(82, 90, 80, 88, 2)).unwrap();
    let now = Timestamp { seconds: 120, nanos: 0 };
    let intents = strategy.signal_buy(&state, now);
    assert_eq!(intents.len(), 1);
    assert_eq!(intents[0].price_close, Some(q(110)));

    orders.set_current_price(q(88));
    strategy.update(&state, &mut orders, now).unwrap();
    assert_eq!(strategy.opened_patterns().len(), 1);
    assert_eq!(orders.get_balance(), q(912));
    // An open position blocks another buy.
    assert_eq!(strategy.signal_buy(&state, now).len(), 0);

    state.record_candle(&id, minute(100, 115, 99, 111, 3)).unwrap();
    assert_eq!(strategy.signal_sell(&state).len(), 1);
    orders.set_current_price(q(111));
    strategy.update(&state, &mut orders, Timestamp { seconds: 180, nanos: 0 }).unwrap();
    assert_eq!(strategy.opened_patterns().len(), 0);
    assert_eq!(orders.get_balance(), q(1023));
}

#[test]
fn hammer_strategy_stops_on_fatal_error() {
    let settings = HammerStrategySettings {
        hammer_cfg: HammerCfg { bottom_start: 10, bottom_end: 30, up_start: 70, up_end: 90 },
        trend_cfg: TrendCfg { max_candle_skip: 1 },
        window_size_min: 5,
    };
    let share = Share { uid: "uid".to_string(), figi: "figi".to_string() };
    let mut strategy = HammerStrategy::new(share, settings);
    let mut state = CandleState::empty();
    let id = "uid".to_string();
    state.record_candle(&id, minute(82, 90, 80, 88, 0)).unwrap();
    let mut orders = OrderServiceHistBoxImpl::new(q(50), 0, 100);
    let r = strategy.update(&state, &mut orders, Timestamp { seconds: 0, nanos: 0 });
    assert_eq!(r, Err(ExecutionError::InsufficientFunds { balance_units: 50, threshold: 100 }));
    assert_eq!(strategy.opened_patterns().len(), 0);
}

fn share(uid: &str) -> Share {
    Share { uid: uid.to_string(), figi: format!("F-{}", uid) }
}

#[test]
fn first_strategy_signals() {
    let mut strategy = FirstStrategy::new(vec![share("A"), share("B")]);
    let mut prices = LastPriceState::empty();
    let t = Timestamp { seconds: 0, nanos: 0 };
    prices.record_price(&"A".to_string(), Quantity { units: 300, fraction: 101 }, t);
    prices.record_price(&"B".to_string(), Quantity { units: 300, fraction: 100 }, t);
    let buys = strategy.signal_buy(&prices);
    assert_eq!(buys.len(), 1);
    assert_eq!(buys[0].instrument_id, "A");
    assert_eq!(buys[0].figi, "F-A");
    assert_eq!(buys[0].quantity, 1);

    strategy.record_opened(OpenedPattern {
        figi: "F-B".to_string(),
        quantity: 2,
        price_open: Some(q(250)),
        price_close: None,
        instrument_id: "B".to_string(),
    });
    assert_eq!(strategy.signal_buy(&prices).len(), 0);
    let sells = strategy.signal_sell(&prices);
    assert_eq!(sells.len(), 1);
    assert_eq!(sells[0].quantity, 2);
    assert!(strategy.record_closed(&"B".to_string()));
    assert!(!strategy.record_closed(&"B".to_string()));
    assert_eq!(strategy.opened_patterns().len(), 0);
}

#[test]
fn warm_up_keeps_watched_positions() {
    let mut strategy = FirstStrategy::new(vec![share("A"), share("B")]);
    let positions = vec![
        PortfolioPosition { figi: "F-A".to_string(), instrument_uid: "A".to_string(), quantity: q(3), average_position_price: q(10) },
        PortfolioPosition { figi: "F-C".to_string(), instrument_uid: "C".to_string(), quantity: q(1), average_position_price: q(5) },
    ];
    strategy.warm_up(&positions);
    let opened = strategy.opened_patterns();
    assert_eq!(opened.len(), 1);
    assert_eq!(opened[0].instrument_id, "A");
    assert_eq!(opened[0].quantity, 3);
    assert_eq!(opened[0].price_open, Some(q(10)));
    let p = map_position_to_pattern(&positions[1]);
    assert_eq!(p.instrument_id, "C");
    assert_eq!(p.price_close, None);
}
