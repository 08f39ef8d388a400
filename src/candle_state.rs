//! Candles of each instrument, one append-only series per granularity.
use vstd::prelude::*;
use multimap::MultiMap;
use crate::candle::{Candle, Granularity};
use crate::state::{State, StoreError};
use crate::time::{Cmp, Timestamp};
use crate::trading_cfg::TrendCfg;
use crate::trend::{is_trend, trend_holds, TrendKind};

verus! {

#[verifier::external_type_specification]
#[verifier::external_body]
#[verifier::reject_recursive_types(K)]
#[verifier::reject_recursive_types(V)]
#[verifier::reject_recursive_types(S)]
pub struct ExMultiMap<K, V, S>(MultiMap<K, V, S>);

/// Candles keyed by instrument id.
pub type CandleMultiMap = MultiMap<String, Candle>;

/// The series that a multimap of candles holds under each instrument id.
pub uninterp spec fn candle_series(m: CandleMultiMap) -> Map<Seq<char>, Seq<Candle>>;

/// The series held under `id`; empty when the id has none.
pub open spec fn series_of(m: Map<Seq<char>, Seq<Candle>>, id: Seq<char>) -> Seq<Candle> {
    if m.contains_key(id) {
        m[id]
    } else {
        Seq::empty()
    }
}

/// No instrument has a series.
pub open spec fn no_series() -> Map<Seq<char>, Seq<Candle>> {
    Map::empty()
}

/// Relies on `MultiMap::new`: the multimap starts with no keys.
#[verifier::external_body]
fn multimap_new() -> (r: CandleMultiMap)
    ensures
        candle_series(r) == no_series(),
{
    MultiMap::new()
}

/// Relies on `MultiMap::insert`: the value is pushed at the end of the key's vector,
/// which is created when the key is new; other keys keep theirs.
#[verifier::external_body]
fn multimap_insert(m: &mut CandleMultiMap, k: String, v: Candle)
    ensures
        candle_series(*final(m)) == candle_series(*old(m)).insert(
            k@,
            series_of(candle_series(*old(m)), k@).push(v),
        ),
{
    m.insert(k, v)
}

/// Relies on `MultiMap::get_vec`: the key's vector, or `None` when it has none.
#[verifier::external_body]
fn multimap_get_vec<'a>(m: &'a CandleMultiMap, k: &String) -> (r: Option<&'a Vec<Candle>>)
    ensures
        match r {
            Some(v) => candle_series(*m).contains_key(k@) && v@ == candle_series(*m)[k@],
            None => !candle_series(*m).contains_key(k@),
        },
{
    m.get_vec(k)
}

/// A window of one candle series: a granularity and the inclusive bounds `start <= end`.
#[derive(Clone, Copy, Debug)]
pub struct SizedRange {
    interval: Granularity,
    start: Timestamp,
    end: Timestamp,
}

/// `c` lies within `[start, end]`, both ends included.
pub open spec fn in_window(start: Timestamp, end: Timestamp) -> spec_fn(Candle) -> bool {
    |c: Candle| start.spec_not_after(c.time) && c.time.spec_not_after(end)
}

/// A window that covers every candle of a series keeps the whole series, in order.
pub proof fn lemma_covering_window(s: Seq<Candle>, start: Timestamp, end: Timestamp)
    requires
        forall|i: int| 0 <= i < s.len() ==> #[trigger] in_window(start, end)(s[i]),
    ensures
        s.filter(in_window(start, end)) == s,
    decreases s.len(),
{
    if s.len() > 0 {
        let t = s.drop_last();
        assert forall|i: int| 0 <= i < t.len() implies #[trigger] in_window(start, end)(t[i]) by {
            assert(t[i] == s[i]);
        }
        lemma_covering_window(t, start, end);
        assert(s =~= t.push(s.last()));
        t.lemma_filter_push(s.last(), in_window(start, end));
    }
}

/// Both ends of a window are included: a candle at the end is in it, one a second
/// later is not.
pub proof fn lemma_window_inclusive_end(start: Timestamp, end: Timestamp, c: Candle)
    requires
        start.spec_not_after(end),
    ensures
        c.time == end ==> in_window(start, end)(c),
        c.time.seconds == end.seconds + 1 && c.time.nanos == end.nanos ==> !in_window(start, end)(c),
{
}

impl SizedRange {
    pub closed spec fn spec_interval(self) -> Granularity {
        self.interval
    }

    pub closed spec fn spec_start(self) -> Timestamp {
        self.start
    }

    pub closed spec fn spec_end(self) -> Timestamp {
        self.end
    }

    /// Only the two known granularities, and `start` not after `end`.
    pub closed spec fn wf(self) -> bool {
        &&& self.interval != Granularity::Unspecified
        &&& self.start.spec_not_after(self.end)
    }

    fn new(interval: Granularity, start: Timestamp, end: Timestamp) -> (r: Option<Self>)
        requires
            interval != Granularity::Unspecified,
        ensures
            match r {
                Some(w) => w.wf() && w.spec_interval() == interval && w.spec_start() == start
                    && w.spec_end() == end,
                None => end.spec_before(start),
            },
    {
        if start._leq(&end) {
            Some(SizedRange { interval, start, end })
        } else {
            None
        }
    }

    /// A window over one-minute candles; `None` when `start` is after `end`.
    pub fn new_1m(start: Timestamp, end: Timestamp) -> (r: Option<Self>)
        ensures
            match r {
                Some(w) => w.wf() && w.spec_interval() == Granularity::OneMinute && w.spec_start()
                    == start && w.spec_end() == end,
                None => end.spec_before(start),
            },
    {
        Self::new(Granularity::OneMinute, start, end)
    }

    /// A window over five-minute candles; `None` when `start` is after `end`.
    pub fn new_5m(start: Timestamp, end: Timestamp) -> (r: Option<Self>)
        ensures
            match r {
                Some(w) => w.wf() && w.spec_interval() == Granularity::FiveMinutes && w.spec_start()
                    == start && w.spec_end() == end,
                None => end.spec_before(start),
            },
    {
        Self::new(Granularity::FiveMinutes, start, end)
    }
}

/// A candle together with the instrument it belongs to.
pub struct CandleEvent {
    pub instrument_uid: String,
    pub candle: Candle,
}

/// Candles of each instrument in arrival order, one series per granularity.
pub struct CandleState {
    candles_1_by_instrument_uid: CandleMultiMap,
    candles_5_by_instrument_uid: CandleMultiMap,
}

impl CandleState {
    /// The series of `id` at granularity `g`, oldest first; empty for an unknown granularity.
    pub closed spec fn series(self, g: Granularity, id: Seq<char>) -> Seq<Candle> {
        match g {
            Granularity::OneMinute => series_of(candle_series(self.candles_1_by_instrument_uid), id),
            Granularity::FiveMinutes => series_of(candle_series(self.candles_5_by_instrument_uid), id),
            Granularity::Unspecified => Seq::empty(),
        }
    }

    /// A cache with no candles.
    pub fn empty() -> (r: Self)
        ensures
            forall|g: Granularity, id: Seq<char>| r.series(g, id) == Seq::<Candle>::empty(),
    {
        CandleState {
            candles_1_by_instrument_uid: multimap_new(),
            candles_5_by_instrument_uid: multimap_new(),
        }
    }

    /// Appends `candle` to the series of `instrument_uid` at the candle's granularity.
    /// Fails, changing nothing, when the granularity is unknown.
    pub fn record_candle(&mut self, instrument_uid: &String, candle: Candle) -> (r: Result<(), StoreError>)
        ensures
            candle.interval == Granularity::Unspecified ==> r == Err::<(), StoreError>(StoreError::UnknownGranularity)
                && *final(self) == *old(self),
            candle.interval != Granularity::Unspecified ==> {
                &&& r is Ok
                &&& final(self).series(candle.interval, instrument_uid@) == old(self).series(
                    candle.interval,
                    instrument_uid@,
                ).push(candle)
                &&& forall|g: Granularity, id: Seq<char>|
                    (g != candle.interval || id != instrument_uid@) ==> #[trigger] final(self).series(g, id)
                        == old(self).series(g, id)
            },
    {
        match candle.interval {
            Granularity::OneMinute => {
                multimap_insert(&mut self.candles_1_by_instrument_uid, instrument_uid.clone(), candle);
                Ok(())
            },
            Granularity::FiveMinutes => {
                multimap_insert(&mut self.candles_5_by_instrument_uid, instrument_uid.clone(), candle);
                Ok(())
            },
            Granularity::Unspecified => Err(StoreError::UnknownGranularity),
        }
    }

    /// The whole series of `instrument_uid` at granularity `g`, oldest first.
    fn series_vec<'a>(&'a self, instrument_uid: &String, g: Granularity) -> (r: Option<&'a Vec<Candle>>)
        ensures
            match r {
                Some(v) => v@ == self.series(g, instrument_uid@),
                None => self.series(g, instrument_uid@) == Seq::<Candle>::empty(),
            },
    {
        match g {
            Granularity::OneMinute => multimap_get_vec(&self.candles_1_by_instrument_uid, instrument_uid),
            Granularity::FiveMinutes => multimap_get_vec(&self.candles_5_by_instrument_uid, instrument_uid),
            Granularity::Unspecified => None,
        }
    }

    /// The candle appended last to the series of `instrument_uid` at granularity `interval`.
    pub fn get_last_candle(&self, instrument_uid: &String, interval: Granularity) -> (r: Option<Candle>)
        ensures
            ({
                let s = self.series(interval, instrument_uid@);
                r == (if s.len() == 0 { None } else { Some(s.last()) })
            }),
    {
        match self.series_vec(instrument_uid, interval) {
            Some(v) => {
                if v.len() == 0 {
                    None
                } else {
                    Some(v[v.len() - 1])
                }
            },
            None => None,
        }
    }

    /// The candles of `instrument_uid` whose time lies within `range`, both ends
    /// included, oldest first.
    pub fn get_candles(&self, instrument_uid: &String, range: &SizedRange) -> (r: Vec<Candle>)
        ensures
            r@ == self.series(range.spec_interval(), instrument_uid@).filter(
                in_window(range.spec_start(), range.spec_end()),
            ),
    {
        let ghost pred = in_window(range.spec_start(), range.spec_end());
        let mut answer: Vec<Candle> = Vec::new();
        match self.series_vec(instrument_uid, range.interval) {
            Some(v) => {
                let n = v.len();
                let mut i: usize = 0;
                while i < n
                    invariant
                        n == v.len(),
                        0 <= i <= n,
                        pred == in_window(range.spec_start(), range.spec_end()),
                        answer@ == v@.take(i as int).filter(pred),
                    decreases n - i,
                {
                    let c = v[i];
                    let keep = range.start._leq(&c.time) && c.time._leq(&range.end);
                    proof {
                        let t = v@.take(i + 1);
                        assert(t =~= v@.take(i as int).push(c));
                        v@.take(i as int).lemma_filter_push(c, pred);
                        assert(keep == pred(c));
                        assert(t.filter(pred) == if pred(c) {
                            v@.take(i as int).filter(pred).push(c)
                        } else {
                            v@.take(i as int).filter(pred)
                        });
                    }
                    if keep {
                        answer.push(c);
                    }
                    i = i + 1;
                }
                proof {
                    assert(v@.take(n as int) =~= v@);
                }
            },
            None => {},
        }
        answer
    }

    /// Whether the one-minute candles of `instrument_uid` within `range` hold a trend of `kind`.
    pub fn is_trend(&self, kind: TrendKind, trend_cfg: &TrendCfg, instrument_uid: &String, range: &SizedRange) -> (r: bool)
        ensures
            r == trend_holds(
                kind,
                self.series(range.spec_interval(), instrument_uid@).filter(
                    in_window(range.spec_start(), range.spec_end()),
                ),
                trend_cfg.max_candle_skip as int,
            ),
    {
        let candles = self.get_candles(instrument_uid, range);
        is_trend(kind, trend_cfg, &candles)
    }

    /// Candles in `range` all stay within the first one's `[low, high]` (see `TrendKind::Flat`).
    pub fn is_trend_flat(&self, trend_cfg: &TrendCfg, instrument_uid: &String, range: &SizedRange) -> (r: bool)
        ensures
            r == trend_holds(
                TrendKind::Flat,
                self.series(range.spec_interval(), instrument_uid@).filter(
                    in_window(range.spec_start(), range.spec_end()),
                ),
                trend_cfg.max_candle_skip as int,
            ),
    {
        self.is_trend(TrendKind::Flat, trend_cfg, instrument_uid, range)
    }

    /// Candles in `range` keep reaching new lows (see `TrendKind::Bearish`).
    pub fn is_trend_bearish(&self, trend_cfg: &TrendCfg, instrument_uid: &String, range: &SizedRange) -> (r: bool)
        ensures
            r == trend_holds(
                TrendKind::Bearish,
                self.series(range.spec_interval(), instrument_uid@).filter(
                    in_window(range.spec_start(), range.spec_end()),
                ),
                trend_cfg.max_candle_skip as int,
            ),
    {
        self.is_trend(TrendKind::Bearish, trend_cfg, instrument_uid, range)
    }

    /// Candles in `range` keep reaching new highs (see `TrendKind::Bullish`).
    pub fn is_trend_bullish(&self, trend_cfg: &TrendCfg, instrument_uid: &String, range: &SizedRange) -> (r: bool)
        ensures
            r == trend_holds(
                TrendKind::Bullish,
                self.series(range.spec_interval(), instrument_uid@).filter(
                    in_window(range.spec_start(), range.spec_end()),
                ),
                trend_cfg.max_candle_skip as int,
            ),
    {
        self.is_trend(TrendKind::Bullish, trend_cfg, instrument_uid, range)
    }
}

impl State<CandleEvent> for CandleState {
    open spec fn inv(&self) -> bool {
        true
    }

    fn new() -> (r: Self) {
        CandleState::empty()
    }

    /// Fails with `UnknownGranularity` on a candle of unknown granularity.
    fn update(&mut self, event: &CandleEvent) -> (r: Result<(), StoreError>)
        ensures
            r is Err <==> event.candle.interval == Granularity::Unspecified,
            r is Ok ==> final(self).series(event.candle.interval, event.instrument_uid@)
                == old(self).series(event.candle.interval, event.instrument_uid@).push(event.candle),
    {
        self.record_candle(&event.instrument_uid, event.candle)
    }
}

} // verus!
