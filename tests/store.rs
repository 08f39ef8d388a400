use trading_core::candle::{Candle, Granularity};
use trading_core::candle_state::{CandleEvent, CandleState, SizedRange};
use trading_core::last_price_state::{LastPriceState, PricePoint};
use trading_core::quantity::Quantity;
use trading_core::state::{State, StoreError};
use trading_core::time::{Cmp, Timestamp};

fn q(units: i64) -> Quantity {
    Quantity { units, fraction: 0 }
}

fn ts(seconds: i64) -> Timestamp {
    Timestamp { seconds, nanos: 0 }
}

fn candle(interval: Granularity, low: i64, high: i64, time: i64) -> Candle {
    Candle { interval, open: q(low), high: q(high), low: q(low), close: q(high), volume: 10, time: ts(time) }
}

#[test]
fn requery_returns_candles_in_append_order() {
    let mut state = CandleState::empty();
    let id = "SBER".to_string();
    let cs: Vec<Candle> = (0..4).map(|i| candle(Granularity::OneMinute, 10 + i, 20 + i, 60 * i)).collect();
    for c in cs.iter() {
        assert_eq!(state.record_candle(&id, *c), Ok(()));
    }
    let range = SizedRange::new_1m(ts(0), ts(180)).unwrap();
    assert_eq!(state.get_candles(&id, &range), cs);
    assert_eq!(state.get_last_candle(&id, Granularity::OneMinute), Some(cs[3]));
    assert_eq!(state.get_last_candle(&id, Granularity::FiveMinutes), None);
    assert_eq!(state.get_last_candle(&"TCSG".to_string(), Granularity::OneMinute), None);
}

#[test]
fn range_includes_both_ends() {
    let mut state = CandleState::empty();
    let id = "SBER".to_string();
    for t in [59, 60, 120, 180, 181].iter() {
        state.record_candle(&id, candle(Granularity::OneMinute, 1, 2, *t)).unwrap();
    }
    let range = SizedRange::new_1m(ts(60), ts(180)).unwrap();
    let got: Vec<i64> = state.get_candles(&id, &range).iter().map(|c| c.time.seconds).collect();
    assert_eq!(got, vec![60, 120, 180]);
}

#[test]
fn series_are_kept_apart() {
    let mut state = <CandleState as State<CandleEvent>>::new();
    let a = "A".to_string();
    let b = "B".to_string();
    state.update(&CandleEvent { instrument_uid: a.clone(), candle: candle(Granularity::OneMinute, 1, 2, 0) }).unwrap();
    state.update(&CandleEvent { instrument_uid: a.clone(), candle: candle(Granularity::FiveMinutes, 3, 4, 0) }).unwrap();
    state.update(&CandleEvent { instrument_uid: b.clone(), candle: candle(Granularity::OneMinute, 5, 6, 0) }).unwrap();
    let r1 = SizedRange::new_1m(ts(0), ts(0)).unwrap();
    let r5 = SizedRange::new_5m(ts(0), ts(0)).unwrap();
    assert_eq!(state.get_candles(&a, &r1).len(), 1);
    assert_eq!(state.get_candles(&a, &r5)[0].low, q(3));
    assert_eq!(state.get_candles(&b, &r1)[0].low, q(5));
    assert_eq!(state.get_candles(&b, &r5), vec![]);
}

#[test]
fn unknown_granularity_is_refused() {
    let mut state = CandleState::empty();
    let id = "SBER".to_string();
    assert_eq!(
        state.record_candle(&id, candle(Granularity::Unspecified, 1, 2, 0)),
        Err(StoreError::UnknownGranularity)
    );
    assert_eq!(state.get_last_candle(&id, Granularity::OneMinute), None);
}

#[test]
fn malformed_range_is_refused() {
    assert!(SizedRange::new_1m(ts(10), ts(9)).is_none());
    assert!(SizedRange::new_5m(ts(10), ts(10)).is_some());
    assert!(SizedRange::new_1m(Timestamp { seconds: 10, nanos: 5 }, Timestamp { seconds: 10, nanos: 4 }).is_none());
}

#[test]
fn last_price_is_overwritten() {
    let mut state = <LastPriceState as State<PricePoint>>::new();
    let a = "A".to_string();
    assert_eq!(state.get_last_price(&a), None);
    state.update(&PricePoint { instrument_uid: a.clone(), price: q(5), time: ts(1) }).unwrap();
    state.update(&PricePoint { instrument_uid: "B".to_string(), price: q(7), time: ts(1) }).unwrap();
    state.update(&PricePoint { instrument_uid: a.clone(), price: q(6), time: ts(2) }).unwrap();
    assert_eq!(state.get_last_price(&a), Some(q(6)));
    assert_eq!(state.get_last_price(&"B".to_string()), Some(q(7)));
}

#[test]
fn timestamp_order_and_epoch_offsets() {
    let a = Timestamp { seconds: 5, nanos: 1 };
    let b = Timestamp { seconds: 5, nanos: 2 };
    assert!(a._le(&b) && a._leq(&b) && !a._ge(&b) && !a._geq(&b));
    assert!(a._leq(&a) && a._geq(&a) && !a._le(&a) && !a._ge(&a));
    assert_eq!(Timestamp::from_epoch_offset(false, 10, 5), Some(Timestamp { seconds: 10, nanos: 5 }));
    assert_eq!(Timestamp::from_epoch_offset(true, 10, 0), Some(Timestamp { seconds: -10, nanos: 0 }));
    assert_eq!(Timestamp::from_epoch_offset(true, 10, 250), Some(Timestamp { seconds: -11, nanos: 999_999_750 }));
    assert_eq!(Timestamp::from_epoch_offset(false, u64::MAX, 0), None);
    assert_eq!(a.plus_seconds(60), Some(Timestamp { seconds: 65, nanos: 1 }));
    assert_eq!(Timestamp { seconds: i64::MAX, nanos: 0 }.plus_seconds(1), None);
}
