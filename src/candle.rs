//! Candles and the shape predicates evaluated on them.
use vstd::prelude::*;
use crate::quantity::Quantity;
use crate::time::Timestamp;
use crate::trading_cfg::HammerCfg;

verus! {

/// The time bucket that one candle summarizes.
#[derive(Clone, Copy, Debug, PartialEq, Eq, Structural)]
pub enum Granularity {
    Unspecified,
    OneMinute,
    FiveMinutes,
}

/// Open, high, low and close prices and the volume traded over one bucket.
#[derive(Clone, Copy, Debug, PartialEq, Eq, Structural)]
pub struct Candle {
    pub interval: Granularity,
    pub open: Quantity,
    pub high: Quantity,
    pub low: Quantity,
    pub close: Quantity,
    pub volume: u64,
    pub time: Timestamp,
}

/// `n / d` rounded to the nearest integer, halves away from zero.
pub open spec fn round_ratio(n: int, d: int) -> int {
    let an = if n < 0 { -n } else { n };
    let ad = if d < 0 { -d } else { d };
    let r = (2 * an + ad) / (2 * ad);
    if (n < 0) != (d < 0) {
        -r
    } else {
        r
    }
}

/// `x` brought into `[0, 255]`.
pub open spec fn saturate_u8(x: int) -> int {
    if x < 0 {
        0
    } else if x > 255 {
        255
    } else {
        x
    }
}

/// Where `x` lies within `[low, high]`, in whole percent rounded to nearest;
/// `None` when the range is empty (`high == low`).
pub open spec fn percent_position(x: Quantity, low: Quantity, high: Quantity) -> Option<int> {
    if high.value() == low.value() {
        None
    } else {
        Some(saturate_u8(round_ratio(100 * (x.value() - low.value()), high.value() - low.value())))
    }
}

/// Whether `p` lies within `[lo, hi]`.
pub open spec fn within(p: Option<int>, lo: u8, hi: u8) -> bool {
    match p {
        Some(v) => lo <= v <= hi,
        None => false,
    }
}

impl Candle {
    pub open spec fn spec_bullish(self) -> bool {
        self.open.spec_lt(self.close)
    }

    pub open spec fn spec_bearish(self) -> bool {
        self.close.spec_lt(self.open)
    }

    pub open spec fn spec_percentage_open(self) -> Option<int> {
        percent_position(self.open, self.low, self.high)
    }

    pub open spec fn spec_percentage_close(self) -> Option<int> {
        percent_position(self.close, self.low, self.high)
    }
}

/// Bullish hammer: a rising candle that opens in the bottom band and closes in the upper one.
pub open spec fn spec_hammer_bullish(cfg: HammerCfg, c: Candle) -> bool {
    &&& c.spec_bullish()
    &&& within(c.spec_percentage_open(), cfg.bottom_start, cfg.bottom_end)
    &&& within(c.spec_percentage_close(), cfg.up_start, cfg.up_end)
}

/// Bearish hammer: a falling candle that closes in the bottom band and opens in the upper one.
pub open spec fn spec_hammer_bearish(cfg: HammerCfg, c: Candle) -> bool {
    &&& c.spec_bearish()
    &&& within(c.spec_percentage_close(), cfg.bottom_start, cfg.bottom_end)
    &&& within(c.spec_percentage_open(), cfg.up_start, cfg.up_end)
}

/// Where `x` lies within `[low, high]`, in percent (see `percent_position`).
fn position_percent(x: &Quantity, low: &Quantity, high: &Quantity) -> (r: Option<u8>)
    ensures
        match percent_position(*x, *low, *high) {
            Some(p) => r == Some(p as u8),
            None => r is None,
        },
{
    let h = high.to_nanos();
    let l = low.to_nanos();
    let v = x.to_nanos();
    if h == l {
        return None;
    }
    let n: i128 = 100 * (v - l);
    let d: i128 = h - l;
    let an: i128 = if n < 0 { -n } else { n };
    let ad: i128 = if d < 0 { -d } else { d };
    let q: i128 = (2 * an + ad) / (2 * ad);
    let rounded: i128 = if (n < 0) != (d < 0) { -q } else { q };
    let p: u8 = if rounded < 0 {
        0
    } else if rounded > 255 {
        255
    } else {
        rounded as u8
    };
    Some(p)
}

/// The shape of a single candle.
pub trait CandleExtension {
    spec fn spec_is_bullish(&self) -> bool;

    spec fn spec_is_bearish(&self) -> bool;

    spec fn spec_open_percent(&self) -> Option<int>;

    spec fn spec_close_percent(&self) -> Option<int>;

    /// The close is above the open.
    fn is_bullish(&self) -> (r: bool)
        ensures
            r == self.spec_is_bullish(),
    ;

    /// The open is above the close.
    fn is_bearish(&self) -> (r: bool)
        ensures
            r == self.spec_is_bearish(),
    ;

    /// Where the open lies within `[low, high]`, in percent; `None` when `high == low`.
    fn percentage_open(&self) -> (r: Option<u8>)
        ensures
            match self.spec_open_percent() {
                Some(p) => r == Some(p as u8),
                None => r is None,
            },
    ;

    /// Where the close lies within `[low, high]`, in percent; `None` when `high == low`.
    fn percentage_close(&self) -> (r: Option<u8>)
        ensures
            match self.spec_close_percent() {
                Some(p) => r == Some(p as u8),
                None => r is None,
            },
    ;
}

impl CandleExtension for Candle {
    open spec fn spec_is_bullish(&self) -> bool {
        self.spec_bullish()
    }

    open spec fn spec_is_bearish(&self) -> bool {
        self.spec_bearish()
    }

    open spec fn spec_open_percent(&self) -> Option<int> {
        self.spec_percentage_open()
    }

    open spec fn spec_close_percent(&self) -> Option<int> {
        self.spec_percentage_close()
    }

    fn is_bullish(&self) -> (r: bool) {
        self.open.lt(&self.close)
    }

    fn is_bearish(&self) -> (r: bool) {
        self.close.lt(&self.open)
    }

    fn percentage_open(&self) -> (r: Option<u8>) {
        position_percent(&self.open, &self.low, &self.high)
    }

    fn percentage_close(&self) -> (r: Option<u8>) {
        position_percent(&self.close, &self.low, &self.high)
    }
}

/// Whether `p` lies within `[lo, hi]`.
fn in_band(p: Option<u8>, lo: u8, hi: u8) -> (r: bool)
    ensures
        r == match p {
            Some(v) => lo <= v <= hi,
            None => false,
        },
{
    match p {
        Some(v) => lo <= v && v <= hi,
        None => false,
    }
}

/// Bullish hammer test on one candle; a candle with `high == low` is none.
pub fn is_hammer_bullish(cfg: &HammerCfg, candle: &Candle) -> (r: bool)
    ensures
        r == spec_hammer_bullish(*cfg, *candle),
{
    if candle.is_bullish() {
        let open_prc = candle.percentage_open();
        let close_prc = candle.percentage_close();
        in_band(open_prc, cfg.bottom_start, cfg.bottom_end) && in_band(
            close_prc,
            cfg.up_start,
            cfg.up_end,
        )
    } else {
        false
    }
}

/// Bearish hammer test on one candle; a candle with `high == low` is none.
pub fn is_hammer_bearish(cfg: &HammerCfg, candle: &Candle) -> (r: bool)
    ensures
        r == spec_hammer_bearish(*cfg, *candle),
{
    if candle.is_bearish() {
        let open_prc = candle.percentage_open();
        let close_prc = candle.percentage_close();
        in_band(close_prc, cfg.bottom_start, cfg.bottom_end) && in_band(
            open_prc,
            cfg.up_start,
            cfg.up_end,
        )
    } else {
        false
    }
}

} // verus!
