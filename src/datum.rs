use vstd::prelude::*;

verus! {

/// A tagged scalar value: the leaves of a world state.
#[derive(Clone, Copy, Debug, PartialEq, Eq, Structural, Hash)]
pub enum Datum {
    Bool(bool),
    I64(i64),
    Enum(usize),
}

/// The two values carry the same variant.
pub open spec fn same_variant(a: Datum, b: Datum) -> bool {
    match (a, b) {
        (Datum::Bool(_), Datum::Bool(_)) => true,
        (Datum::I64(_), Datum::I64(_)) => true,
        (Datum::Enum(_), Datum::Enum(_)) => true,
        _ => false,
    }
}

/// Rank of a variant in the declared order, used to order values of different variants.
pub open spec fn variant_rank(a: Datum) -> int {
    match a {
        Datum::Bool(_) => 0,
        Datum::I64(_) => 1,
        Datum::Enum(_) => 2,
    }
}

/// `a <= b`: variants in declaration order, then the payloads.
pub open spec fn datum_le(a: Datum, b: Datum) -> bool {
    match (a, b) {
        (Datum::Bool(x), Datum::Bool(y)) => !x || y,
        (Datum::I64(x), Datum::I64(y)) => x <= y,
        (Datum::Enum(x), Datum::Enum(y)) => x <= y,
        _ => variant_rank(a) < variant_rank(b),
    }
}

/// Distance between two values of one variant: the absolute difference of
/// integers, and 0 or 1 for booleans and enumeration ordinals.
pub open spec fn datum_distance(a: Datum, b: Datum) -> nat {
    match (a, b) {
        (Datum::I64(x), Datum::I64(y)) => if x >= y { (x - y) as nat } else { (y - x) as nat },
        _ => if a == b { 0 } else { 1 },
    }
}

/// Both values are integers and their sum fits in an `i64`.
pub open spec fn can_add(a: Datum, b: Datum) -> bool {
    match (a, b) {
        (Datum::I64(x), Datum::I64(y)) => i64::MIN <= x + y <= i64::MAX,
        _ => false,
    }
}

/// Both values are integers and their difference fits in an `i64`.
pub open spec fn can_sub(a: Datum, b: Datum) -> bool {
    match (a, b) {
        (Datum::I64(x), Datum::I64(y)) => i64::MIN <= x - y <= i64::MAX,
        _ => false,
    }
}

pub open spec fn datum_int(a: Datum) -> int {
    match a {
        Datum::I64(x) => x as int,
        _ => 0,
    }
}

impl Datum {
    /// Distance to `other`; both must carry the same variant.
    pub fn distance(&self, other: &Datum) -> (r: u64)
        requires
            same_variant(*self, *other),
        ensures
            r == datum_distance(*self, *other),
    {
        match (self, other) {
            (Datum::I64(a), Datum::I64(b)) => {
                if *a >= *b {
                    (*a as i128 - *b as i128) as u64
                } else {
                    (*b as i128 - *a as i128) as u64
                }
            },
            (Datum::Bool(a), Datum::Bool(b)) => if *a == *b { 0 } else { 1 },
            (Datum::Enum(a), Datum::Enum(b)) => if *a == *b { 0 } else { 1 },
            _ => 0,
        }
    }

    /// Whether the two values carry the same variant.
    pub fn same_variant_as(&self, other: &Datum) -> (r: bool)
        ensures
            r == same_variant(*self, *other),
    {
        match (self, other) {
            (Datum::Bool(_), Datum::Bool(_)) => true,
            (Datum::I64(_), Datum::I64(_)) => true,
            (Datum::Enum(_), Datum::Enum(_)) => true,
            _ => false,
        }
    }

    /// `self <= other` in the order of `datum_le`.
    pub fn le(&self, other: &Datum) -> (r: bool)
        ensures
            r == datum_le(*self, *other),
    {
        match (self, other) {
            (Datum::Bool(x), Datum::Bool(y)) => !*x || *y,
            (Datum::I64(x), Datum::I64(y)) => *x <= *y,
            (Datum::Enum(x), Datum::Enum(y)) => *x <= *y,
            (Datum::Bool(_), _) => true,
            (Datum::I64(_), Datum::Enum(_)) => true,
            _ => false,
        }
    }

    /// `self >= other` in the order of `datum_le`.
    pub fn ge(&self, other: &Datum) -> (r: bool)
        ensures
            r == datum_le(*other, *self),
    {
        other.le(self)
    }

    /// Value equality: equal variants with equal payloads.
    pub fn equals(&self, other: &Datum) -> (r: bool)
        ensures
            r == (*self == *other),
    {
        match (self, other) {
            (Datum::Bool(x), Datum::Bool(y)) => *x == *y,
            (Datum::I64(x), Datum::I64(y)) => *x == *y,
            (Datum::Enum(x), Datum::Enum(y)) => *x == *y,
            _ => false,
        }
    }

    /// Integer sum. Only defined on two integers whose sum fits.
    pub fn add(&self, other: &Datum) -> (r: Datum)
        requires
            can_add(*self, *other),
        ensures
            r == Datum::I64((datum_int(*self) + datum_int(*other)) as i64),
    {
        match (self, other) {
            (Datum::I64(a), Datum::I64(b)) => Datum::I64(*a + *b),
            _ => *self,
        }
    }

    /// Integer difference. Only defined on two integers whose difference fits.
    pub fn sub(&self, other: &Datum) -> (r: Datum)
        requires
            can_sub(*self, *other),
        ensures
            r == Datum::I64((datum_int(*self) - datum_int(*other)) as i64),
    {
        match (self, other) {
            (Datum::I64(a), Datum::I64(b)) => Datum::I64(*a - *b),
            _ => *self,
        }
    }

    /// In-place integer sum.
    pub fn add_assign(&mut self, rhs: Datum)
        requires
            can_add(*old(self), rhs),
        ensures
            *final(self) == Datum::I64((datum_int(*old(self)) + datum_int(rhs)) as i64),
    {
        *self = self.add(&rhs);
    }

    /// In-place integer difference.
    pub fn sub_assign(&mut self, rhs: Datum)
        requires
            can_sub(*old(self), rhs),
        ensures
            *final(self) == Datum::I64((datum_int(*old(self)) - datum_int(rhs)) as i64),
    {
        *self = self.sub(&rhs);
    }
}

/// The ordering of `a` against `b` under `datum_le`.
pub open spec fn datum_ordering(a: Datum, b: Datum) -> core::cmp::Ordering {
    if a == b {
        core::cmp::Ordering::Equal
    } else if datum_le(a, b) {
        core::cmp::Ordering::Less
    } else {
        core::cmp::Ordering::Greater
    }
}

impl PartialOrd for Datum {
    fn partial_cmp(&self, other: &Datum) -> (r: Option<core::cmp::Ordering>)
        ensures
            r == Some(datum_ordering(*self, *other)),
    {
        if self.equals(other) {
            Some(core::cmp::Ordering::Equal)
        } else if self.le(other) {
            Some(core::cmp::Ordering::Less)
        } else {
            Some(core::cmp::Ordering::Greater)
        }
    }
}

impl vstd::std_specs::cmp::PartialOrdSpecImpl for Datum {
    open spec fn obeys_partial_cmp_spec() -> bool {
        true
    }

    open spec fn partial_cmp_spec(&self, other: &Datum) -> Option<core::cmp::Ordering> {
        Some(datum_ordering(*self, *other))
    }
}

impl From<bool> for Datum {
    fn from(v: bool) -> Datum {
        Datum::Bool(v)
    }
}

impl vstd::std_specs::convert::FromSpecImpl<bool> for Datum {
    open spec fn obeys_from_spec() -> bool {
        true
    }

    open spec fn from_spec(v: bool) -> Datum {
        Datum::Bool(v)
    }
}

impl From<i64> for Datum {
    fn from(v: i64) -> Datum {
        Datum::I64(v)
    }
}

impl vstd::std_specs::convert::FromSpecImpl<i64> for Datum {
    open spec fn obeys_from_spec() -> bool {
        true
    }

    open spec fn from_spec(v: i64) -> Datum {
        Datum::I64(v)
    }
}

/// Distance is zero exactly on equal values of one variant.
pub proof fn lemma_distance_zero_iff_equal(a: Datum, b: Datum)
    requires
        same_variant(a, b),
    ensures
        (datum_distance(a, b) == 0) <==> (a == b),
{
}

/// Distance is symmetric.
pub proof fn lemma_distance_symmetric(a: Datum, b: Datum)
    ensures
        datum_distance(a, b) == datum_distance(b, a),
{
}

} // verus!
