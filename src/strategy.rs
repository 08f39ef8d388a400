//! Open positions and the pieces shared by the strategies.
use vstd::prelude::*;
use crate::quantity::Quantity;

verus! {

/// A tradable instrument: its stable id and its exchange code.
pub struct Share {
    pub uid: String,
    pub figi: String,
}

/// An open position, or an intent to open or close one.
pub struct OpenedPattern {
    pub figi: String,
    /// Lots held.
    pub quantity: i64,
    pub price_open: Option<Quantity>,
    /// The price above which the position is closed.
    pub price_close: Option<Quantity>,
    pub instrument_id: String,
}

/// What an `OpenedPattern` holds, with its strings as character sequences.
pub struct PatternView {
    pub figi: Seq<char>,
    pub quantity: i64,
    pub price_open: Option<Quantity>,
    pub price_close: Option<Quantity>,
    pub instrument_id: Seq<char>,
}

impl View for OpenedPattern {
    type V = PatternView;

    open spec fn view(&self) -> PatternView {
        PatternView {
            figi: self.figi@,
            quantity: self.quantity,
            price_open: self.price_open,
            price_close: self.price_close,
            instrument_id: self.instrument_id@,
        }
    }
}

/// The views of a sequence of patterns.
pub open spec fn views(s: Seq<OpenedPattern>) -> Seq<PatternView> {
    s.map_values(|p: OpenedPattern| p@)
}

impl OpenedPattern {
    /// A copy with the same contents.
    pub fn duplicate(&self) -> (r: OpenedPattern)
        ensures
            r@ == self@,
    {
        OpenedPattern {
            figi: self.figi.clone(),
            quantity: self.quantity,
            price_open: self.price_open,
            price_close: self.price_close,
            instrument_id: self.instrument_id.clone(),
        }
    }
}

/// A position held on the account, as the portfolio reports it.
pub struct PortfolioPosition {
    pub figi: String,
    pub instrument_uid: String,
    pub quantity: Quantity,
    pub average_position_price: Quantity,
}

/// The open position that a portfolio position stands for.
pub open spec fn position_view(p: PortfolioPosition) -> PatternView {
    PatternView {
        figi: p.figi@,
        quantity: p.quantity.units,
        price_open: Some(p.average_position_price),
        price_close: None,
        instrument_id: p.instrument_uid@,
    }
}

/// An open position for a position of the portfolio: its whole lots, opened at the
/// average price, with no target.
pub fn map_position_to_pattern(position: &PortfolioPosition) -> (r: OpenedPattern)
    ensures
        r@ == position_view(*position),
{
    OpenedPattern {
        figi: position.figi.clone(),
        quantity: position.quantity.units,
        price_open: Some(position.average_position_price),
        price_close: None,
        instrument_id: position.instrument_uid.clone(),
    }
}

/// Removes the first pattern of `instrument_id`, if there is one.
pub fn remove_pattern_of(patterns: &mut Vec<OpenedPattern>, instrument_id: &String) -> (r: bool)
    ensures
        ({
            let s = old(patterns)@;
            match first_index_of(views(s), instrument_id@) {
                Some(k) => r && views(final(patterns)@) == views(s).remove(k),
                None => !r && final(patterns)@ == s,
            }
        }),
{
    let n = patterns.len();
    let mut i: usize = 0;
    while i < n
        invariant
            n == patterns.len(),
            patterns@ == old(patterns)@,
            0 <= i <= n,
            forall|k: int| 0 <= k < i ==> #[trigger] patterns@[k].instrument_id@ != instrument_id@,
        decreases n - i,
    {
        if patterns[i].instrument_id == *instrument_id {
            proof {
                lemma_first_index_at(views(patterns@), instrument_id@, i as int);
            }
            let ghost before = patterns@;
            patterns.remove(i);
            proof {
                assert(views(patterns@) =~= views(before).remove(i as int));
            }
            return true;
        }
        i = i + 1;
    }
    proof {
        lemma_first_index_none(views(patterns@), instrument_id@);
    }
    false
}

/// The index of the first pattern of `id` in `s`.
pub open spec fn first_index_of(s: Seq<PatternView>, id: Seq<char>) -> Option<int>
    decreases s.len(),
{
    if s.len() == 0 {
        None
    } else if s[0].instrument_id == id {
        Some(0)
    } else {
        match first_index_of(s.drop_first(), id) {
            Some(k) => Some(k + 1),
            None => None,
        }
    }
}

proof fn lemma_first_index_at(s: Seq<PatternView>, id: Seq<char>, i: int)
    requires
        0 <= i < s.len(),
        s[i].instrument_id == id,
        forall|k: int| 0 <= k < i ==> #[trigger] s[k].instrument_id != id,
    ensures
        first_index_of(s, id) == Some(i),
    decreases i,
{
    if i > 0 {
        let t = s.drop_first();
        assert forall|k: int| 0 <= k < i - 1 implies #[trigger] t[k].instrument_id != id by {
            assert(t[k] == s[k + 1]);
        }
        lemma_first_index_at(t, id, i - 1);
    }
}

proof fn lemma_first_index_none(s: Seq<PatternView>, id: Seq<char>)
    requires
        forall|k: int| 0 <= k < s.len() ==> #[trigger] s[k].instrument_id != id,
    ensures
        first_index_of(s, id) is None,
    decreases s.len(),
{
    if s.len() > 0 {
        let t = s.drop_first();
        assert forall|k: int| 0 <= k < t.len() implies #[trigger] t[k].instrument_id != id by {
            assert(t[k] == s[k + 1]);
        }
        lemma_first_index_none(t, id);
    }
}

} // verus!
