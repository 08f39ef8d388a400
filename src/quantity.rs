//! Exact fixed-point amounts: whole units plus a fraction counted in billionths.
use vstd::prelude::*;

verus! {

/// Number of fraction steps in one whole unit.
pub const NANOS_PER_UNIT: i32 = 1_000_000_000;

/// An exact decimal amount worth `units + fraction / 10^9`.
///
/// Sign convention: `fraction` is always a non-negative magnitude in `[0, 10^9)`
/// added on top of the signed `units`. So -0.25 is `{ units: -1, fraction: 750_000_000 }`
/// and -200.2 is `{ units: -201, fraction: 800_000_000 }`.
#[derive(Clone, Copy, Debug, PartialEq, Eq, Structural)]
pub struct Quantity {
    pub units: i64,
    pub fraction: i32,
}

/// The amount, in billionths, that a pair (units, fraction) stands for.
pub open spec fn nanos_of(units: int, fraction: int) -> int {
    units * 1_000_000_000 + fraction
}

/// Whether an amount in billionths can be held by a normalized `Quantity`.
pub open spec fn fits(v: int) -> bool {
    i64::MIN * 1_000_000_000 <= v < (i64::MAX + 1) * 1_000_000_000
}

/// The normalized quantity worth `v` billionths, when it is representable.
pub open spec fn checked_from(v: int) -> Option<Quantity> {
    if fits(v) {
        Some(Quantity { units: (v / 1_000_000_000) as i64, fraction: (v % 1_000_000_000) as i32 })
    } else {
        None
    }
}

impl Quantity {
    /// The fraction lies in `[0, 10^9)`.
    pub open spec fn wf(self) -> bool {
        0 <= self.fraction < NANOS_PER_UNIT
    }

    /// The exact amount in billionths.
    pub open spec fn value(self) -> int {
        nanos_of(self.units as int, self.fraction as int)
    }

    /// Lexicographic order on (units, fraction).
    pub open spec fn spec_lt(self, other: Quantity) -> bool {
        self.units < other.units || (self.units == other.units && self.fraction < other.fraction)
    }

    pub open spec fn spec_le(self, other: Quantity) -> bool {
        self.spec_lt(other) || self == other
    }

    pub open spec fn spec_add(self, other: Quantity) -> Option<Quantity> {
        checked_from(self.value() + other.value())
    }

    pub open spec fn spec_sub(self, other: Quantity) -> Option<Quantity> {
        checked_from(self.value() - other.value())
    }

    pub open spec fn spec_scale(self, k: int) -> Option<Quantity> {
        checked_from(self.value() * k)
    }
}

/// `x / d` rounded toward zero.
pub open spec fn trunc_div(x: int, d: int) -> int {
    if x >= 0 {
        x / d
    } else {
        -((-x) / d)
    }
}

/// `checked_from` gives a normalized quantity worth exactly the amount asked for.
pub proof fn lemma_checked_from(v: int)
    ensures
        match checked_from(v) {
            Some(q) => q.wf() && q.value() == v,
            None => !fits(v),
        },
{
}

/// A normalized quantity is what `checked_from` gives for its amount.
pub proof fn lemma_checked_from_value(q: Quantity)
    requires
        q.wf(),
    ensures
        checked_from(q.value()) == Some(q),
{
    lemma_checked_from(q.value());
    lemma_value_unique(checked_from(q.value())->0, q);
}

/// Subtracting `b` from the sum `a + b` gives back `a`.
pub proof fn lemma_add_then_sub(a: Quantity, b: Quantity)
    requires
        a.wf(),
        b.wf(),
    ensures
        match a.spec_add(b) {
            Some(s) => s.spec_sub(b) == Some(a),
            None => !fits(a.value() + b.value()),
        },
{
    lemma_checked_from(a.value() + b.value());
    if let Some(s) = a.spec_add(b) {
        lemma_checked_from_value(a);
        assert(s.value() - b.value() == a.value());
    }
}

/// Two normalized quantities with the same amount are the same quantity.
pub proof fn lemma_value_unique(a: Quantity, b: Quantity)
    requires
        a.wf(),
        b.wf(),
        a.value() == b.value(),
    ensures
        a == b,
{
}

/// On normalized quantities the lexicographic order is the order of the amounts.
pub proof fn lemma_lt_is_value_lt(a: Quantity, b: Quantity)
    requires
        a.wf(),
        b.wf(),
    ensures
        a.spec_lt(b) <==> a.value() < b.value(),
{
}

/// Splits an amount in billionths into whole units and a fraction in `[0, 10^9)`.
fn split_nanos(v: i128) -> (r: (i128, i128))
    requires
        v > i128::MIN,
    ensures
        v == r.0 * 1_000_000_000 + r.1,
        0 <= r.1 < 1_000_000_000,
{
    if v >= 0 {
        let q = v / 1_000_000_000;
        let m = v % 1_000_000_000;
        (q, m)
    } else {
        let w = -v;
        let q = w / 1_000_000_000;
        let m = w % 1_000_000_000;
        if m == 0 {
            (-q, 0)
        } else {
            (-q - 1, 1_000_000_000 - m)
        }
    }
}

/// Builds the normalized quantity of units `u` (wide) and fraction `f`, or `None` when
/// the units do not fit in `i64`.
fn from_parts(u: i128, f: i128) -> (r: Option<Quantity>)
    requires
        0 <= f < 1_000_000_000,
    ensures
        r == checked_from(nanos_of(u as int, f as int)),
{
    proof {
        lemma_checked_from(nanos_of(u as int, f as int));
    }
    if u < i64::MIN as i128 || u > i64::MAX as i128 {
        None
    } else {
        Some(Quantity { units: u as i64, fraction: f as i32 })
    }
}

/// The normalized quantity worth `v` billionths, or `None` when it is out of range.
pub fn from_nanos(v: i128) -> (r: Option<Quantity>)
    requires
        v > i128::MIN,
    ensures
        r == checked_from(v as int),
{
    let (u, f) = split_nanos(v);
    from_parts(u, f)
}

impl Quantity {
    /// A quantity from its parts, or `None` when the fraction is outside `[0, 10^9)`.
    pub fn new(units: i64, fraction: i32) -> (r: Option<Quantity>)
        ensures
            r == (if 0 <= fraction < NANOS_PER_UNIT {
                Some(Quantity { units, fraction })
            } else {
                None
            }),
    {
        if 0 <= fraction && fraction < NANOS_PER_UNIT {
            Some(Quantity { units, fraction })
        } else {
            None
        }
    }

    /// A quantity from the wire form `units + nano / 10^9`, where `nano` carries the
    /// sign of the amount (-200.2 is units -200, nano -200_000_000). `None` when the
    /// amount is out of range.
    pub fn from_wire(units: i64, nano: i32) -> (r: Option<Quantity>)
        ensures
            r == checked_from(nanos_of(units as int, nano as int)),
    {
        from_nanos(units as i128 * 1_000_000_000 + nano as i128)
    }

    /// The wire form of the amount: whole units rounded toward zero and the rest in
    /// billionths, both of the amount's sign.
    pub fn to_wire(&self) -> (r: (i64, i32))
        requires
            self.wf(),
        ensures
            nanos_of(r.0 as int, r.1 as int) == self.value(),
            -1_000_000_000 < r.1 < 1_000_000_000,
            self.value() >= 0 ==> r.0 >= 0 && r.1 >= 0,
            self.value() < 0 ==> r.0 <= 0 && r.1 <= 0,
    {
        if self.units < 0 && self.fraction > 0 {
            (self.units + 1, self.fraction - NANOS_PER_UNIT)
        } else {
            (self.units, self.fraction)
        }
    }

    /// The amount in billionths, as a wide integer.
    pub fn to_nanos(&self) -> (r: i128)
        ensures
            r == self.value(),
    {
        self.units as i128 * 1_000_000_000 + self.fraction as i128
    }

    /// Sum with carry: fractions are added and a whole unit is carried when they
    /// reach `10^9`. `None` when the sum is out of range.
    pub fn add(&self, other: &Quantity) -> (r: Option<Quantity>)
        requires
            self.wf(),
            other.wf(),
        ensures
            r == self.spec_add(*other),
    {
        let s: i128 = self.fraction as i128 + other.fraction as i128;
        let (f, carry) = if s >= 1_000_000_000 {
            (s - 1_000_000_000, 1i128)
        } else {
            (s, 0i128)
        };
        let u: i128 = self.units as i128 + other.units as i128 + carry;
        from_parts(u, f)
    }

    /// Difference with borrow: when the fraction of `self` is the smaller one, a
    /// whole unit is borrowed. `None` when the difference is out of range.
    pub fn sub(&self, other: &Quantity) -> (r: Option<Quantity>)
        requires
            self.wf(),
            other.wf(),
        ensures
            r == self.spec_sub(*other),
    {
        let d: i128 = self.fraction as i128 - other.fraction as i128;
        let (f, borrow) = if d < 0 {
            (d + 1_000_000_000, 1i128)
        } else {
            (d, 0i128)
        };
        let u: i128 = self.units as i128 - other.units as i128 - borrow;
        from_parts(u, f)
    }

    /// The amount times an integer factor. `None` when the product is out of range.
    pub fn scale(&self, k: i64) -> (r: Option<Quantity>)
        requires
            self.wf(),
        ensures
            r == self.spec_scale(k as int),
    {
        proof {
            let a = self.units as int;
            let b = self.fraction as int;
            let kk = k as int;
            assert(-0x8000_0000_0000_0000 <= a < 0x8000_0000_0000_0000);
            assert(-0x8000_0000_0000_0000 <= kk < 0x8000_0000_0000_0000);
            assert(-0x4000_0000_0000_0000_0000_0000_0000_0000 <= a * kk
                <= 0x4000_0000_0000_0000_0000_0000_0000_0000) by (nonlinear_arith)
                requires
                    -0x8000_0000_0000_0000 <= a < 0x8000_0000_0000_0000,
                    -0x8000_0000_0000_0000 <= kk < 0x8000_0000_0000_0000,
            ;
            assert(-0x8000_0000_0000_0000_0000_0000 <= b * kk
                <= 0x8000_0000_0000_0000_0000_0000) by (nonlinear_arith)
                requires
                    0 <= b < 0x8000_0000,
                    -0x8000_0000_0000_0000 <= kk < 0x8000_0000_0000_0000,
            ;
        }
        let uk: i128 = self.units as i128 * k as i128;
        let fk: i128 = self.fraction as i128 * k as i128;
        let (q, f) = split_nanos(fk);
        let u: i128 = uk + q;
        proof {
            let a = self.units as int;
            let b = self.fraction as int;
            let kk = k as int;
            assert((a * 1_000_000_000 + b) * kk == (a * kk) * 1_000_000_000 + b * kk)
                by (nonlinear_arith);
        }
        from_parts(u, f)
    }

    /// `percent` hundredths of the amount, rounded toward zero to a whole billionth.
    pub fn percent_of(&self, percent: u8) -> (r: Option<Quantity>)
        ensures
            r == checked_from(trunc_div(self.value() * percent, 100)),
    {
        let v = self.to_nanos();
        proof {
            let x = self.value();
            let p = percent as int;
            assert(-0x8000_0000_0000_0000_0000_0000_0000 <= x * p
                <= 0x8000_0000_0000_0000_0000_0000_0000) by (nonlinear_arith)
                requires
                    -0x8000_0000_0000_0000_0000_0000 <= x <= 0x8000_0000_0000_0000_0000_0000,
                    0 <= p < 256,
            ;
        }
        let m: i128 = v * percent as i128;
        let t: i128 = if m >= 0 {
            m / 100
        } else {
            -((-m) / 100)
        };
        from_nanos(t)
    }

    /// Three-way comparison by (units, fraction).
    pub fn compare(&self, other: &Quantity) -> (r: core::cmp::Ordering)
        ensures
            (r == core::cmp::Ordering::Less) == self.spec_lt(*other),
            (r == core::cmp::Ordering::Equal) == (*self == *other),
            (r == core::cmp::Ordering::Greater) == other.spec_lt(*self),
    {
        if self.units < other.units || (self.units == other.units && self.fraction < other.fraction) {
            core::cmp::Ordering::Less
        } else if self.units == other.units && self.fraction == other.fraction {
            core::cmp::Ordering::Equal
        } else {
            core::cmp::Ordering::Greater
        }
    }

    /// `self < other` by (units, fraction).
    pub fn lt(&self, other: &Quantity) -> (r: bool)
        ensures
            r == self.spec_lt(*other),
    {
        self.units < other.units || (self.units == other.units && self.fraction < other.fraction)
    }
}

/// The order of `compare`, for `<`, `<=`, `>` and `>=`.
impl PartialOrd for Quantity {
    fn partial_cmp(&self, other: &Quantity) -> (r: Option<core::cmp::Ordering>) {
        Some(self.compare(other))
    }
}

impl vstd::std_specs::cmp::PartialOrdSpecImpl for Quantity {
    open spec fn obeys_partial_cmp_spec() -> bool {
        true
    }

    open spec fn partial_cmp_spec(&self, other: &Quantity) -> Option<core::cmp::Ordering> {
        Some(
            if self.spec_lt(*other) {
                core::cmp::Ordering::Less
            } else if *self == *other {
                core::cmp::Ordering::Equal
            } else {
                core::cmp::Ordering::Greater
            },
        )
    }
}

} // verus!
