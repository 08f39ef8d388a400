//! Trend predicates over a window of candles, oldest first.
use vstd::prelude::*;
use crate::candle::Candle;
use crate::quantity::Quantity;
use crate::trading_cfg::TrendCfg;

verus! {

/// The three shapes a window of candles can be tested for.
#[derive(Clone, Copy, Debug, PartialEq, Eq, Structural)]
pub enum TrendKind {
    /// Each candle's low reaches the lowest low so far.
    Bearish,
    /// Each candle's high reaches the highest high so far.
    Bullish,
    /// Each candle stays within the first candle's `[low, high]`.
    Flat,
}

/// The running minimum of the lows of the first `i` candles (`i >= 1`): a low takes
/// over when it is at or below the minimum so far.
pub open spec fn min_low(s: Seq<Candle>, i: int) -> Quantity
    decreases i,
{
    if i <= 1 {
        s[0].low
    } else {
        let m = min_low(s, i - 1);
        if s[i - 1].low.spec_le(m) {
            s[i - 1].low
        } else {
            m
        }
    }
}

/// The running maximum of the highs of the first `i` candles (`i >= 1`).
pub open spec fn max_high(s: Seq<Candle>, i: int) -> Quantity
    decreases i,
{
    if i <= 1 {
        s[0].high
    } else {
        let m = max_high(s, i - 1);
        if m.spec_le(s[i - 1].high) {
            s[i - 1].high
        } else {
            m
        }
    }
}

/// Candle `i` fails to extend the trend.
pub open spec fn violates(kind: TrendKind, s: Seq<Candle>, i: int) -> bool {
    match kind {
        TrendKind::Bearish => i > 0 && min_low(s, i).spec_lt(s[i].low),
        TrendKind::Bullish => i > 0 && s[i].high.spec_lt(max_high(s, i)),
        TrendKind::Flat => !(s[0].low.spec_le(s[i].low) && s[i].high.spec_le(s[0].high)),
    }
}

/// How many candles in a row, ending with candle `i`, fail to extend the trend.
pub open spec fn violation_run(kind: TrendKind, s: Seq<Candle>, i: int) -> int
    decreases i + 1,
{
    if i < 0 {
        0
    } else if violates(kind, s, i) {
        1 + violation_run(kind, s, i - 1)
    } else {
        0
    }
}

proof fn lemma_run_nonneg(kind: TrendKind, s: Seq<Candle>, i: int)
    ensures
        violation_run(kind, s, i) >= 0,
    decreases i + 1,
{
    if i >= 0 {
        lemma_run_nonneg(kind, s, i - 1);
    }
}

/// The window holds the trend: it is not empty, no run of failing candles is longer
/// than `max_skip` (none at all when it is negative), and the last candle extends the trend.
pub open spec fn trend_holds(kind: TrendKind, s: Seq<Candle>, max_skip: int) -> bool {
    &&& s.len() > 0
    &&& !violates(kind, s, s.len() - 1)
    &&& forall|i: int|
        0 <= i < s.len() && violates(kind, s, i) ==> #[trigger] violation_run(kind, s, i) <= max_skip
}

/// With a tolerance of one candle, failing candles that never come two in a row leave
/// the trend standing as long as the window ends on a candle that extends it; a window
/// that ends on a failing candle holds no trend, whatever the tolerance.
pub proof fn lemma_skip_tolerance(kind: TrendKind, s: Seq<Candle>, max_skip: int)
    requires
        s.len() > 0,
    ensures
        max_skip >= 1 && !violates(kind, s, s.len() - 1) && (forall|i: int|
            0 < i < s.len() && #[trigger] violates(kind, s, i) ==> !violates(kind, s, i - 1))
            ==> trend_holds(kind, s, max_skip),
        violates(kind, s, s.len() - 1) ==> !trend_holds(kind, s, max_skip),
{
    if max_skip >= 1 && !violates(kind, s, s.len() - 1) && (forall|i: int|
        0 < i < s.len() && #[trigger] violates(kind, s, i) ==> !violates(kind, s, i - 1)) {
        assert forall|i: int| 0 <= i < s.len() && violates(kind, s, i) implies #[trigger] violation_run(kind, s, i)
            <= max_skip by {
            if i > 0 {
                assert(!violates(kind, s, i - 1));
                assert(violation_run(kind, s, i - 1) == 0);
            } else {
                assert(violation_run(kind, s, i - 1) == 0);
            }
        }
    }
}

/// Whether the candles, oldest first, hold the trend of the given kind with the
/// tolerance of `cfg`. An empty window holds no trend.
pub fn is_trend(kind: TrendKind, cfg: &TrendCfg, candles: &Vec<Candle>) -> (r: bool)
    ensures
        r == trend_holds(kind, candles@, cfg.max_candle_skip as int),
{
    let n = candles.len();
    if n == 0 {
        return false;
    }
    let s = Ghost(candles@);
    let max: i16 = cfg.max_candle_skip as i16;
    let first = candles[0];
    let mut low = first.low;
    let mut high = first.high;
    let mut skip: i16 = max;
    let mut i: usize = 0;
    while i < n
        invariant
            n == candles.len(),
            s@ == candles@,
            first == s@[0],
            max == cfg.max_candle_skip,
            0 <= i <= n,
            i == 0 ==> low == s@[0].low && high == s@[0].high,
            i > 0 ==> low == min_low(s@, i as int) && high == max_high(s@, i as int),
            skip == max - violation_run(kind, s@, i - 1),
            forall|j: int|
                0 <= j < i && violates(kind, s@, j) ==> #[trigger] violation_run(kind, s@, j)
                    <= max,
        decreases n - i,
    {
        let c = candles[i];
        let extends = match kind {
            TrendKind::Bearish => !low.lt(&c.low),
            TrendKind::Bullish => !c.high.lt(&high),
            TrendKind::Flat => !c.low.lt(&first.low) && !high_above(&c.high, &first.high),
        };
        assert(extends == !violates(kind, s@, i as int));
        proof {
            lemma_run_nonneg(kind, s@, i - 1);
            assert(violation_run(kind, s@, i as int) == if extends {
                0
            } else {
                1 + violation_run(kind, s@, i - 1)
            });
        }
        if !c.high.lt(&high) {
            high = c.high;
        }
        if !low.lt(&c.low) {
            low = c.low;
        }
        if extends {
            skip = max;
        } else {
            if skip - 1 < 0 {
                assert(violation_run(kind, s@, i as int) > max);
                assert(!trend_holds(kind, s@, max as int));
                return false;
            }
            skip = skip - 1;
        }
        i = i + 1;
    }
    proof {
        lemma_run_nonneg(kind, s@, n - 2);
    }
    skip == max
}

/// `a > b` by (units, fraction).
fn high_above(a: &Quantity, b: &Quantity) -> (r: bool)
    ensures
        r == b.spec_lt(*a),
{
    b.lt(a)
}

} // verus!
