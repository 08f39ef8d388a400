//! Reading decimal text such as `-114.25` into an exact `Quantity`.
use vstd::prelude::*;
use vstd::string::StringSliceAdditionalSpecFns;
use crate::quantity::{checked_from, from_nanos, Quantity};

verus! {

/// An ASCII digit.
pub open spec fn is_digit(c: u8) -> bool {
    48 <= c <= 57
}

/// Every byte is an ASCII digit.
pub open spec fn all_digits(s: Seq<u8>) -> bool {
    forall|i: int| 0 <= i < s.len() ==> is_digit(#[trigger] s[i])
}

/// The number that a run of digits spells, most significant first.
pub open spec fn digits_value(s: Seq<u8>) -> int
    decreases s.len(),
{
    if s.len() == 0 {
        0
    } else {
        digits_value(s.drop_last()) * 10 + (s.last() - 48)
    }
}

pub open spec fn pow10(n: nat) -> int
    decreases n,
{
    if n == 0 {
        1
    } else {
        10 * pow10((n - 1) as nat)
    }
}

/// The digits after the point, in billionths: digits past the ninth are dropped.
pub open spec fn fraction_nanos(f: Seq<u8>) -> int {
    if f.len() >= 9 {
        digits_value(f.subrange(0, 9))
    } else {
        digits_value(f) * pow10((9 - f.len()) as nat)
    }
}

/// `b` is digits, a point at `p`, and digits, with at least one digit on each side.
pub open spec fn is_point_at(b: Seq<u8>, p: int) -> bool {
    &&& 0 < p < b.len() - 1
    &&& b[p] == 46
    &&& all_digits(b.subrange(0, p))
    &&& all_digits(b.subrange(p + 1, b.len() as int))
}

/// The amount, in billionths, of unsigned decimal text: digits, optionally followed by a
/// point and more digits.
pub open spec fn unsigned_nanos(b: Seq<u8>) -> Option<int> {
    if b.len() > 0 && all_digits(b) {
        Some(digits_value(b) * 1_000_000_000)
    } else if exists|p: int| is_point_at(b, p) {
        let p = choose|p: int| is_point_at(b, p);
        Some(digits_value(b.subrange(0, p)) * 1_000_000_000 + fraction_nanos(
            b.subrange(p + 1, b.len() as int),
        ))
    } else {
        None
    }
}

/// The amount, in billionths, of decimal text: an optional minus sign before unsigned
/// decimal text. `None` when the text is not of that form.
pub open spec fn decimal_nanos(s: Seq<u8>) -> Option<int> {
    if s.len() > 0 && s[0] == 45 {
        match unsigned_nanos(s.drop_first()) {
            Some(m) => Some(-m),
            None => None,
        }
    } else {
        unsigned_nanos(s)
    }
}

/// The quantity that decimal text stands for: `None` when the text is not decimal or
/// the amount is out of range.
pub open spec fn spec_parse(s: Seq<u8>) -> Option<Quantity> {
    match decimal_nanos(s) {
        Some(v) => checked_from(v),
        None => None,
    }
}

/// Past this, a whole part can no longer be held by a `Quantity` of either sign.
const WHOLE_LIMIT: i128 = 10_000_000_000_000_000_000;

proof fn lemma_digits_push(s: Seq<u8>, d: u8)
    ensures
        digits_value(s.push(d)) == digits_value(s) * 10 + (d - 48),
{
    assert(s.push(d).drop_last() =~= s);
}

proof fn lemma_digits_nonneg(s: Seq<u8>)
    requires
        all_digits(s),
    ensures
        digits_value(s) >= 0,
    decreases s.len(),
{
    if s.len() > 0 {
        let t = s.drop_last();
        assert forall|i: int| 0 <= i < t.len() implies is_digit(#[trigger] t[i]) by {
            assert(t[i] == s[i]);
        }
        lemma_digits_nonneg(t);
    }
}

proof fn lemma_digits_bound(s: Seq<u8>)
    requires
        all_digits(s),
    ensures
        digits_value(s) < pow10(s.len()),
    decreases s.len(),
{
    if s.len() > 0 {
        let t = s.drop_last();
        assert forall|i: int| 0 <= i < t.len() implies is_digit(#[trigger] t[i]) by {
            assert(t[i] == s[i]);
        }
        lemma_digits_bound(t);
    }
}

/// The first index at or after `from` that does not hold a digit, or the length.
fn scan_digits(b: &[u8], from: usize) -> (end: usize)
    requires
        from <= b@.len(),
    ensures
        from <= end <= b@.len(),
        all_digits(b@.subrange(from as int, end as int)),
        end == b@.len() || !is_digit(b@[end as int]),
{
    let mut i = from;
    while i < b.len() && b[i] >= 48 && b[i] <= 57
        invariant
            from <= i <= b@.len(),
            all_digits(b@.subrange(from as int, i as int)),
        decreases b@.len() - i,
    {
        proof {
            let t = b@.subrange(from as int, i + 1);
            assert forall|k: int| 0 <= k < t.len() implies is_digit(#[trigger] t[k]) by {
                assert(t[k] == b@[from + k]);
                if k < i - from {
                    assert(b@.subrange(from as int, i as int)[k] == b@[from + k]);
                }
            }
        }
        i = i + 1;
    }
    i
}

/// The number spelled by the digits in `[from, end)`, or `None` when it exceeds `WHOLE_LIMIT`.
fn digits_to_int(b: &[u8], from: usize, end: usize) -> (r: Option<i128>)
    requires
        from <= end <= b@.len(),
        all_digits(b@.subrange(from as int, end as int)),
    ensures
        match r {
            Some(v) => v == digits_value(b@.subrange(from as int, end as int)) && 0 <= v <= WHOLE_LIMIT,
            None => digits_value(b@.subrange(from as int, end as int)) > WHOLE_LIMIT,
        },
{
    let mut acc: i128 = 0;
    let mut i = from;
    proof {
        assert(b@.subrange(from as int, from as int) =~= Seq::<u8>::empty());
    }
    while i < end
        invariant
            from <= i <= end <= b@.len(),
            all_digits(b@.subrange(from as int, end as int)),
            acc == digits_value(b@.subrange(from as int, i as int)),
            0 <= acc <= WHOLE_LIMIT,
        decreases end - i,
    {
        let d = b[i];
        proof {
            assert(b@.subrange(from as int, end as int)[i - from] == d);
            assert(b@.subrange(from as int, i + 1) =~= b@.subrange(from as int, i as int).push(d));
            lemma_digits_push(b@.subrange(from as int, i as int), d);
        }
        acc = acc * 10 + (d - 48) as i128;
        i = i + 1;
        if acc > WHOLE_LIMIT {
            proof {
                lemma_digits_grow(b@, from as int, i as int, end as int);
            }
            return None;
        }
    }
    Some(acc)
}

/// Adding digits at the end never makes the number smaller.
proof fn lemma_digits_grow(b: Seq<u8>, from: int, mid: int, end: int)
    requires
        0 <= from <= mid <= end <= b.len(),
        all_digits(b.subrange(from, end)),
    ensures
        digits_value(b.subrange(from, mid)) <= digits_value(b.subrange(from, end)),
    decreases end - mid,
{
    if mid < end {
        lemma_digits_grow(b, from, mid + 1, end);
        assert(b.subrange(from, mid + 1) =~= b.subrange(from, mid).push(b[mid]));
        lemma_digits_push(b.subrange(from, mid), b[mid]);
        assert(b.subrange(from, end)[mid - from] == b[mid]);
        assert forall|i: int| 0 <= i < b.subrange(from, mid).len() implies is_digit(
            #[trigger] b.subrange(from, mid)[i],
        ) by {
            assert(b.subrange(from, mid)[i] == b.subrange(from, end)[i]);
        }
        lemma_digits_nonneg(b.subrange(from, mid));
    }
}

/// The digits after the point, in `[from, end)`, as billionths.
fn fraction_value(b: &[u8], from: usize, end: usize) -> (r: i128)
    requires
        from <= end <= b@.len(),
        all_digits(b@.subrange(from as int, end as int)),
    ensures
        r == fraction_nanos(b@.subrange(from as int, end as int)),
        0 <= r < 1_000_000_000,
{
    let ghost f = b@.subrange(from as int, end as int);
    let count = end - from;
    let kept_end = if count >= 9 { from + 9 } else { end };
    let ghost g = b@.subrange(from as int, kept_end as int);
    proof {
        assert(g =~= if count >= 9 { f.subrange(0, 9) } else { f });
        assert forall|i: int| 0 <= i < g.len() implies is_digit(#[trigger] g[i]) by {
            assert(g[i] == f[i]);
        }
        lemma_digits_bound(g);
        lemma_digits_nonneg(g);
        reveal_with_fuel(pow10, 10);
        assert(pow10(9) == 1_000_000_000);
        lemma_pow10_mono(g.len(), 9);
    }
    let mut frac: i128 = match digits_to_int(b, from, kept_end) {
        Some(v) => v,
        None => 0,
    };
    let k: usize = kept_end - from;
    let mut c: usize = k;
    proof {
        assert(pow10(0) == 1);
    }
    while c < 9
        invariant
            k <= c <= 9,
            k == g.len(),
            frac == digits_value(g) * pow10((c - k) as nat),
            0 <= frac < pow10(c as nat),
            pow10(9) == 1_000_000_000,
        decreases 9 - c,
    {
        proof {
            lemma_pow10_mono((c + 1) as nat, 9);
            assert(pow10((c + 1) as nat) == 10 * pow10(c as nat));
            assert(pow10((c + 1 - k) as nat) == 10 * pow10((c - k) as nat));
            assert(digits_value(g) * (10 * pow10((c - k) as nat)) == 10 * (digits_value(g) * pow10(
                (c - k) as nat,
            ))) by (nonlinear_arith);
        }
        frac = frac * 10;
        c = c + 1;
    }
    proof {
        if count >= 9 {
            assert(c == 9 && k == 9);
        }
    }
    frac
}

proof fn lemma_pow10_mono(a: nat, b: nat)
    requires
        a <= b,
    ensures
        0 < pow10(a) <= pow10(b),
    decreases b,
{
    if a < b {
        lemma_pow10_mono(a, (b - 1) as nat);
    } else {
        lemma_pow10_pos(a);
    }
}

/// In digits followed by a non-digit at `q`, a point can only be at `q`.
proof fn lemma_point_only_at(u: Seq<u8>, q: int, p: int)
    requires
        0 <= q < u.len(),
        all_digits(u.subrange(0, q)),
        !is_digit(u[q]),
        is_point_at(u, p),
    ensures
        p == q,
{
    if p < q {
        assert(u.subrange(0, q)[p] == u[p]);
    } else if p > q {
        assert(u.subrange(0, p)[q] == u[q]);
    }
}

impl Quantity {
    /// Reads decimal text: an optional `-`, one or more digits, and optionally a `.`
    /// followed by one or more digits. Digits past the ninth after the point are
    /// dropped, so the amount is cut toward zero to a whole billionth. `None` when the
    /// text is not of that form or the amount is out of range.
    pub fn parse(s: &str) -> (r: Option<Quantity>)
        ensures
            r == spec_parse(s.spec_bytes()),
    {
        parse_bytes(s.as_bytes())
    }
}

/// `parse` on the bytes of the text.
pub fn parse_bytes(b: &[u8]) -> (r: Option<Quantity>)
    ensures
        r == spec_parse(b@),
{
    let n = b.len();
    let neg = n > 0 && b[0] == 45;
    let start: usize = if neg { 1 } else { 0 };
    let ghost u = b@.subrange(start as int, n as int);
    proof {
        if neg {
            assert(u =~= b@.drop_first());
        } else {
            assert(u =~= b@);
        }
    }
    let int_end = scan_digits(b, start);
    let ghost q = int_end - start;
    proof {
        assert(u.subrange(0, q) =~= b@.subrange(start as int, int_end as int));
        if int_end < n {
            assert(u[q] == b@[int_end as int]);
        }
    }
    if int_end == start {
        proof {
            assert(!(u.len() > 0 && all_digits(u))) by {
                if u.len() > 0 {
                    assert(u[0] == b@[start as int]);
                }
            }
            assert forall|p: int| !is_point_at(u, p) by {
                if is_point_at(u, p) {
                    assert(u.subrange(0, p)[0] == u[0]);
                    assert(u[0] == b@[start as int]);
                }
            }
        }
        return None;
    }
    let whole = match digits_to_int(b, start, int_end) {
        Some(w) => w,
        None => {
            proof {
                lemma_not_fits_when_large(b@, start as int, int_end as int, u, neg);
            }
            return None;
        },
    };
    if int_end == n {
        proof {
            assert(u =~= b@.subrange(start as int, int_end as int));
        }
        let v: i128 = if neg { -(whole * 1_000_000_000) } else { whole * 1_000_000_000 };
        return from_nanos(v);
    }
    proof {
        assert(!all_digits(u));
    }
    if b[int_end] != 46 {
        proof {
            assert forall|p: int| !is_point_at(u, p) by {
                if is_point_at(u, p) {
                    lemma_point_only_at(u, q, p);
                }
            }
        }
        return None;
    }
    let frac_start = int_end + 1;
    let frac_end = scan_digits(b, frac_start);
    if frac_end == frac_start || frac_end < n {
        proof {
            assert forall|p: int| !is_point_at(u, p) by {
                if is_point_at(u, p) {
                    lemma_point_only_at(u, q, p);
                    if frac_end == frac_start {
                        assert(u.subrange(p + 1, u.len() as int)[0] == u[p + 1]);
                        assert(u[p + 1] == b@[frac_start as int]);
                    } else {
                        let k = frac_end - frac_start;
                        assert(u.subrange(p + 1, u.len() as int)[k] == u[p + 1 + k]);
                        assert(u[p + 1 + k] == b@[frac_end as int]);
                    }
                }
            }
        }
        return None;
    }
    let frac = fraction_value(b, frac_start, frac_end);
    proof {
        assert(u.subrange(q + 1, u.len() as int) =~= b@.subrange(frac_start as int, frac_end as int));
        assert(is_point_at(u, q));
        let p = choose|p: int| is_point_at(u, p);
        lemma_point_only_at(u, q, p);
    }
    let mag: i128 = whole * 1_000_000_000 + frac;
    let v: i128 = if neg { -mag } else { mag };
    from_nanos(v)
}

/// A whole part past `WHOLE_LIMIT` fits no `Quantity`, whatever follows it.
proof fn lemma_not_fits_when_large(b: Seq<u8>, start: int, int_end: int, u: Seq<u8>, neg: bool)
    requires
        0 <= start < int_end <= b.len(),
        u == b.subrange(start, b.len() as int),
        all_digits(b.subrange(start, int_end)),
        int_end == b.len() || !is_digit(b[int_end]),
        digits_value(b.subrange(start, int_end)) > WHOLE_LIMIT,
        neg ==> b.len() > 0 && b[0] == 45 && start == 1,
        !neg ==> start == 0 && !(b.len() > 0 && b[0] == 45),
    ensures
        spec_parse(b) is None,
{
    let q = int_end - start;
    assert(u.subrange(0, q) =~= b.subrange(start, int_end));
    if neg {
        assert(u =~= b.drop_first());
    } else {
        assert(u =~= b);
    }
    match unsigned_nanos(u) {
        Some(m) => {
            if u.len() > 0 && all_digits(u) {
                assert(q == u.len()) by {
                    if q < u.len() {
                        assert(u[q] == b[int_end]);
                    }
                }
                assert(u.subrange(0, q) =~= u);
            } else {
                let p = choose|p: int| is_point_at(u, p);
                assert(p == q) by {
                    if p < q {
                        assert(u.subrange(0, q)[p] == u[p]);
                    } else if p > q {
                        assert(u.subrange(0, p)[q] == u[q]);
                        assert(u[q] == b[int_end]);
                    }
                }
                let f = u.subrange(p + 1, u.len() as int);
                if f.len() >= 9 {
                    let g = f.subrange(0, 9);
                    assert forall|i: int| 0 <= i < g.len() implies is_digit(#[trigger] g[i]) by {
                        assert(g[i] == f[i]);
                    }
                    lemma_digits_nonneg(g);
                } else {
                    lemma_digits_nonneg(f);
                    lemma_pow10_pos((9 - f.len()) as nat);
                    assert(digits_value(f) * pow10((9 - f.len()) as nat) >= 0) by (nonlinear_arith)
                        requires
                            digits_value(f) >= 0,
                            pow10((9 - f.len()) as nat) > 0,
                    ;
                }
            }
        },
        None => {},
    }
}

proof fn lemma_pow10_pos(n: nat)
    ensures
        pow10(n) > 0,
    decreases n,
{
    if n > 0 {
        lemma_pow10_pos((n - 1) as nat);
    }
}

} // verus!
