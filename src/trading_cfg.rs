//! Tuning values of the hammer strategy.
use vstd::prelude::*;

verus! {

/// Percentage bands of a hammer candle: where its body may start and end within
/// `[low, high]`.
#[derive(Clone, Copy, Debug, PartialEq, Eq, Structural)]
pub struct HammerCfg {
    pub bottom_start: u8,
    pub bottom_end: u8,
    pub up_start: u8,
    pub up_end: u8,
}

/// How many consecutive candles may break a trend before it counts as broken.
#[derive(Clone, Copy, Debug, PartialEq, Eq, Structural)]
pub struct TrendCfg {
    pub max_candle_skip: i8,
}

/// All settings of the hammer strategy.
#[derive(Clone, Copy, Debug, PartialEq, Eq, Structural)]
pub struct HammerStrategySettings {
    pub hammer_cfg: HammerCfg,
    pub trend_cfg: TrendCfg,
    /// How far back, in minutes, the trend is looked for.
    pub window_size_min: u64,
}

impl HammerCfg {
    /// The bands are valid: each bound in `[0, 100]`, each start below its end.
    pub open spec fn wf(self) -> bool {
        &&& self.bottom_start <= 100
        &&& self.bottom_end <= 100
        &&& self.up_start <= 100
        &&& self.up_end <= 100
        &&& self.bottom_start < self.bottom_end
        &&& self.up_start < self.up_end
    }

    /// A configuration from its four bounds; `None` when they are not valid.
    pub fn new(bottom_start: u8, bottom_end: u8, up_start: u8, up_end: u8) -> (r: Option<Self>)
        ensures
            ({
                let c = HammerCfg { bottom_start, bottom_end, up_start, up_end };
                r == (if c.wf() { Some(c) } else { None })
            }),
    {
        if bottom_start <= 100 && bottom_end <= 100 && up_start <= 100 && up_end <= 100
            && bottom_start < bottom_end && up_start < up_end {
            Some(Self { bottom_start, bottom_end, up_start, up_end })
        } else {
            None
        }
    }
}

} // verus!
