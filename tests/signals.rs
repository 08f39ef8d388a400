use trading_core::candle::{is_hammer_bearish, is_hammer_bullish, Candle, CandleExtension, Granularity};
use trading_core::candle_state::{CandleState, SizedRange};
use trading_core::quantity::Quantity;
use trading_core::time::Timestamp;
use trading_core::trading_cfg::{HammerCfg, TrendCfg};
use trading_core::trend::{is_trend, TrendKind};

fn q(units: i64) -> Quantity {
    Quantity { units, fraction: 0 }
}

fn ohlc(open: i64, high: i64, low: i64, close: i64) -> Candle {
    Candle {
        interval: Granularity::OneMinute,
        open: q(open),
        high: q(high),
        low: q(low),
        close: q(close),
        volume: 1,
        time: Timestamp { seconds: 0, nanos: 0 },
    }
}

fn lows(values: &[i64]) -> Vec<Candle> {
    values.iter().map(|l| ohlc(*l + 1, *l + 2, *l, *l + 1)).collect()
}

fn highs(values: &[i64]) -> Vec<Candle> {
    values.iter().map(|h| ohlc(h - 1, *h, h - 2, h - 1)).collect()
}

#[test]
fn hammer_cfg_checks_its_bands() {
    assert_eq!(
        HammerCfg::new(80, 95, 60, 75),
        Some(HammerCfg { bottom_start: 80, bottom_end: 95, up_start: 60, up_end: 75 })
    );
    assert_eq!(HammerCfg::new(95, 80, 60, 75), None);
    assert_eq!(HammerCfg::new(80, 101, 60, 75), None);
    assert_eq!(HammerCfg::new(80, 95, 75, 75), None);
}

#[test]
fn percentages_round_to_nearest() {
    let c = ohlc(85, 100, 0, 65);
    assert_eq!(c.percentage_open(), Some(85));
    assert_eq!(c.percentage_close(), Some(65));
    assert_eq!(ohlc(1, 3, 0, 2).percentage_open(), Some(33));
    assert_eq!(ohlc(1, 3, 0, 2).percentage_close(), Some(67));
    assert_eq!(ohlc(1, 8, 0, 1).percentage_open(), Some(13));
    assert_eq!(ohlc(5, 5, 5, 5).percentage_open(), None);
    assert_eq!(ohlc(5, 5, 5, 5).percentage_close(), None);
}

#[test]
fn bullish_and_bearish() {
    assert!(ohlc(1, 3, 0, 2).is_bullish());
    assert!(!ohlc(1, 3, 0, 2).is_bearish());
    assert!(ohlc(2, 3, 0, 1).is_bearish());
    assert!(!ohlc(2, 3, 0, 2).is_bullish() && !ohlc(2, 3, 0, 2).is_bearish());
}

#[test]
fn hammer_with_reference_bands() {
    let cfg = HammerCfg { bottom_start: 80, bottom_end: 95, up_start: 60, up_end: 75 };
    // Open at 85% and close at 65% of the range: the close is below the open, so the
    // candle is bearish and cannot be a bullish hammer.
    assert!(!is_hammer_bullish(&cfg, &ohlc(85, 100, 0, 65)));
    assert!(!is_hammer_bullish(&cfg, &ohlc(85, 100, 0, 50)));
    // Read as a bearish hammer the bands are the other way round.
    assert!(!is_hammer_bearish(&cfg, &ohlc(85, 100, 0, 65)));
    assert!(is_hammer_bearish(&cfg, &ohlc(65, 100, 0, 85)) == false);
}

#[test]
fn hammer_detection() {
    let cfg = HammerCfg { bottom_start: 10, bottom_end: 30, up_start: 70, up_end: 90 };
    assert!(is_hammer_bullish(&cfg, &ohlc(20, 100, 0, 80)));
    assert!(!is_hammer_bullish(&cfg, &ohlc(20, 100, 0, 50)));
    assert!(!is_hammer_bullish(&cfg, &ohlc(5, 5, 5, 5)));
    assert!(is_hammer_bearish(&cfg, &ohlc(80, 100, 0, 20)));
    assert!(!is_hammer_bearish(&cfg, &ohlc(80, 100, 0, 50)));
}

#[test]
fn bearish_trend_tolerates_one_skip() {
    let cfg = TrendCfg { max_candle_skip: 1 };
    assert!(is_trend(TrendKind::Bearish, &cfg, &lows(&[10, 9, 12, 8])));
    assert!(!is_trend(TrendKind::Bearish, &cfg, &lows(&[10, 9, 12])));
    assert!(!is_trend(TrendKind::Bearish, &cfg, &lows(&[10, 9, 12, 13, 8])));
    assert!(is_trend(TrendKind::Bearish, &TrendCfg { max_candle_skip: 2 }, &lows(&[10, 9, 12, 13, 8])));
    assert!(!is_trend(TrendKind::Bearish, &TrendCfg { max_candle_skip: 0 }, &lows(&[10, 9, 12, 8])));
    assert!(is_trend(TrendKind::Bearish, &cfg, &lows(&[10, 10, 9])));
    assert!(!is_trend(TrendKind::Bearish, &cfg, &vec![]));
}

#[test]
fn bullish_and_flat_trends() {
    let cfg = TrendCfg { max_candle_skip: 1 };
    assert!(is_trend(TrendKind::Bullish, &cfg, &highs(&[10, 11, 9, 12])));
    assert!(!is_trend(TrendKind::Bullish, &cfg, &highs(&[10, 11, 9])));
    assert!(!is_trend(TrendKind::Bullish, &cfg, &vec![]));
    let flat = vec![ohlc(5, 10, 0, 6), ohlc(4, 9, 1, 5), ohlc(4, 11, 1, 5), ohlc(3, 8, 2, 4)];
    assert!(is_trend(TrendKind::Flat, &cfg, &flat));
    assert!(!is_trend(TrendKind::Flat, &TrendCfg { max_candle_skip: 0 }, &flat));
    assert!(!is_trend(TrendKind::Flat, &cfg, &flat[..3].to_vec()));
    assert!(!is_trend(TrendKind::Flat, &cfg, &vec![]));
}

#[test]
fn trends_over_the_store() {
    let mut state = CandleState::empty();
    let id = "SBER".to_string();
    for (i, l) in [10, 9, 12, 8].iter().enumerate() {
        let mut c = lows(&[*l])[0];
        c.time = Timestamp { seconds: 60 * i as i64, nanos: 0 };
        state.record_candle(&id, c).unwrap();
    }
    let cfg = TrendCfg { max_candle_skip: 1 };
    let all = SizedRange::new_1m(Timestamp { seconds: 0, nanos: 0 }, Timestamp { seconds: 180, nanos: 0 }).unwrap();
    let head = SizedRange::new_1m(Timestamp { seconds: 0, nanos: 0 }, Timestamp { seconds: 120, nanos: 0 }).unwrap();
    assert!(state.is_trend_bearish(&cfg, &id, &all));
    assert!(!state.is_trend_bearish(&cfg, &id, &head));
    assert!(!state.is_trend_bullish(&cfg, &id, &all));
    assert!(!state.is_trend_flat(&cfg, &"none".to_string(), &all));
}
