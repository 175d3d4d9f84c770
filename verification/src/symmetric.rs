//! A symmetric signed value with a null sentinel.
//!
//! `SymmetricN<S>` holds any value in `[-max, max]`; the width's minimum
//! value is the null sentinel.  Arithmetic saturates into null on overflow
//! or underflow, and null is sticky.

use vstd::prelude::*;

use crate::signed::SignedPrimitive;

verus! {

pub type Symmetric64 = SymmetricN<i64>;

pub type Symmetric32 = SymmetricN<i32>;

pub type Symmetric16 = SymmetricN<i16>;

pub type Symmetric8 = SymmetricN<i8>;

/// A value in `[-max, max]` backed by width `S`, or null (the width's
/// minimum).
#[derive(Debug, Copy, Clone, Hash)]
pub struct SymmetricN<S: SignedPrimitive>(S);

impl<S: SignedPrimitive> SymmetricN<S> {
    /// The mathematical value held; the width's minimum means null.
    pub closed spec fn as_int(self) -> int {
        self.0.int_value()
    }

    pub open spec fn is_null_spec(self) -> bool {
        self.as_int() == S::min_int()
    }

    /// The canonical value holding `v`, or null when `v` is out of range.
    pub closed spec fn norm(v: int) -> SymmetricN<S> {
        if S::min_int() <= v <= S::max_int() {
            SymmetricN(S::of_int(v))
        } else {
            SymmetricN(S::of_int(S::min_int()))
        }
    }

    /// What `norm` holds, spelled out.
    pub proof fn lemma_norm(v: int)
        ensures
            S::min_int() <= v <= S::max_int() ==> Self::norm(v).as_int() == v,
            !(S::min_int() <= v <= S::max_int()) ==> Self::norm(v).is_null_spec(),
    {
        S::lemma_range_shape();
        if S::min_int() <= v <= S::max_int() {
            S::lemma_of_int(v);
        } else {
            S::lemma_of_int(S::min_int());
        }
    }

    /// The value lies in the width's range.
    pub proof fn lemma_symmetric_in_range(self)
        ensures
            S::min_int() <= self.as_int() <= S::max_int(),
            S::min_int() == -S::max_int() - 1,
    {
        self.0.lemma_in_range();
        S::lemma_range_shape();
    }

    /// The largest representable value.
    pub fn max_value() -> (r: Self)
        ensures
            r.as_int() == S::max_int(),
            r == Self::norm(S::max_int()),
    {
        let m = S::max_value();
        proof {
            S::lemma_range_shape();
            m.lemma_canon();
        }
        SymmetricN(m)
    }

    /// The smallest non-null value: one above the null sentinel.
    pub fn min() -> (r: Self)
        ensures
            r.as_int() == S::min_int() + 1,
            !r.is_null_spec(),
    {
        proof {
            S::lemma_range_shape();
        }
        SymmetricN(S::min_value().add_checked(S::one()).unwrap())
    }

    /// The null sentinel.
    pub fn null() -> (r: Self)
        ensures
            r.is_null_spec(),
            r == Self::norm(S::min_int()),
    {
        let m = S::min_value();
        proof {
            S::lemma_range_shape();
            m.lemma_canon();
        }
        SymmetricN(m)
    }

    pub fn of(t: S) -> (r: Self)
        ensures
            r.as_int() == t.int_value(),
            r == Self::norm(t.int_value()),
    {
        proof {
            t.lemma_in_range();
            t.lemma_canon();
        }
        SymmetricN(t)
    }

    pub fn is_null(self) -> (r: bool)
        ensures
            r == self.is_null_spec(),
    {
        self.0.val_eq(S::min_value())
    }

    pub fn is_not_null(self) -> (r: bool)
        ensures
            r == !self.is_null_spec(),
    {
        !self.0.val_eq(S::min_value())
    }

    pub fn to_i64(&self) -> (r: Option<i64>)
        ensures
            !self.is_null_spec() ==> (r matches Some(v) && (v as int) == self.as_int()),
            self.is_null_spec() ==> r is None,
    {
        if self.is_not_null() {
            Some(self.0.as_i64())
        } else {
            None
        }
    }

    pub fn to_u64(&self) -> (r: Option<u64>)
        ensures
            self.as_int() >= 0 ==> (r matches Some(v) && (v as int) == self.as_int()),
            self.as_int() < 0 ==> r is None,
    {
        proof {
            self.lemma_symmetric_in_range();
        }
        let v = self.0.as_i64();
        if v >= 0 {
            Some(v as u64)
        } else {
            None
        }
    }

    /// The sum, with null sticky and overflow collapsing to null.
    pub open spec fn add_sym_spec(self, other: SymmetricN<S>) -> SymmetricN<S> {
        if other.is_null_spec() {
            Self::norm(S::min_int())
        } else if self.is_null_spec() {
            self
        } else {
            Self::norm(self.as_int() + other.as_int())
        }
    }

    /// The value shifted by a raw delta, with null sticky.
    pub open spec fn add_delta_spec(self, t: S) -> SymmetricN<S> {
        if self.is_null_spec() {
            self
        } else {
            Self::norm(self.as_int() + t.int_value())
        }
    }

    /// The difference, with null sticky and underflow collapsing to null.
    pub open spec fn sub_sym_spec(self, other: SymmetricN<S>) -> SymmetricN<S> {
        if other.is_null_spec() {
            Self::norm(S::min_int())
        } else if self.is_null_spec() {
            self
        } else {
            Self::norm(self.as_int() - other.as_int())
        }
    }

    /// The value shifted down by a raw delta, with null sticky.
    pub open spec fn sub_delta_spec(self, t: S) -> SymmetricN<S> {
        if self.is_null_spec() {
            self
        } else {
            Self::norm(self.as_int() - t.int_value())
        }
    }
}

impl<S: SignedPrimitive> Default for SymmetricN<S> {
    fn default() -> (r: Self)
        ensures
            r.as_int() == 0,
            !r.is_null_spec(),
    {
        proof {
            S::lemma_range_shape();
        }
        SymmetricN(S::zero())
    }
}

impl<S: SignedPrimitive> PartialEq for SymmetricN<S> {
    fn eq(&self, other: &Self) -> (r: bool) {
        self.0.val_eq(other.0)
    }
}

impl<S: SignedPrimitive> vstd::std_specs::cmp::PartialEqSpecImpl for SymmetricN<S> {
    open spec fn obeys_eq_spec() -> bool {
        true
    }

    open spec fn eq_spec(&self, other: &Self) -> bool {
        self.as_int() == other.as_int()
    }
}

impl<S: SignedPrimitive> core::ops::Add<SymmetricN<S>> for SymmetricN<S> {
    type Output = SymmetricN<S>;

    fn add(self, other: SymmetricN<S>) -> SymmetricN<S> {
        proof {
            self.lemma_symmetric_in_range();
            other.lemma_symmetric_in_range();
            Self::lemma_norm(S::min_int());
            Self::lemma_norm(self.as_int() + other.as_int());
        }
        if other.is_null() {
            Self::null()
        } else if self.is_null() {
            self
        } else {
            match self.0.add_checked(other.0) {
                Some(v) => {
                    proof {
                        v.lemma_canon();
                    }
                    SymmetricN(v)
                },
                None => Self::null(),
            }
        }
    }
}

impl<S: SignedPrimitive> vstd::std_specs::ops::AddSpecImpl<SymmetricN<S>> for SymmetricN<S> {
    open spec fn obeys_add_spec() -> bool {
        true
    }

    open spec fn add_req(self, other: SymmetricN<S>) -> bool {
        true
    }

    open spec fn add_spec(self, other: SymmetricN<S>) -> SymmetricN<S> {
        self.add_sym_spec(other)
    }
}

impl<S: SignedPrimitive> core::ops::Add<S> for SymmetricN<S> {
    type Output = SymmetricN<S>;

    fn add(self, other: S) -> SymmetricN<S> {
        proof {
            self.lemma_symmetric_in_range();
            other.lemma_in_range();
            Self::lemma_norm(self.as_int() + other.int_value());
        }
        if self.is_null() {
            self
        } else {
            match self.0.add_checked(other) {
                Some(v) => {
                    proof {
                        v.lemma_canon();
                    }
                    SymmetricN(v)
                },
                None => Self::null(),
            }
        }
    }
}

impl<S: SignedPrimitive> vstd::std_specs::ops::AddSpecImpl<S> for SymmetricN<S> {
    open spec fn obeys_add_spec() -> bool {
        true
    }

    open spec fn add_req(self, other: S) -> bool {
        true
    }

    open spec fn add_spec(self, other: S) -> SymmetricN<S> {
        self.add_delta_spec(other)
    }
}

impl<S: SignedPrimitive> core::ops::Sub<SymmetricN<S>> for SymmetricN<S> {
    type Output = SymmetricN<S>;

    fn sub(self, other: SymmetricN<S>) -> SymmetricN<S> {
        proof {
            self.lemma_symmetric_in_range();
            other.lemma_symmetric_in_range();
            Self::lemma_norm(S::min_int());
            Self::lemma_norm(self.as_int() - other.as_int());
        }
        if other.is_null() {
            Self::null()
        } else if self.is_null() {
            self
        } else {
            match self.0.sub_checked(other.0) {
                Some(v) => {
                    proof {
                        v.lemma_canon();
                    }
                    SymmetricN(v)
                },
                None => Self::null(),
            }
        }
    }
}

impl<S: SignedPrimitive> vstd::std_specs::ops::SubSpecImpl<SymmetricN<S>> for SymmetricN<S> {
    open spec fn obeys_sub_spec() -> bool {
        true
    }

    open spec fn sub_req(self, other: SymmetricN<S>) -> bool {
        true
    }

    open spec fn sub_spec(self, other: SymmetricN<S>) -> SymmetricN<S> {
        self.sub_sym_spec(other)
    }
}

impl<S: SignedPrimitive> core::ops::Sub<S> for SymmetricN<S> {
    type Output = SymmetricN<S>;

    fn sub(self, other: S) -> SymmetricN<S> {
        proof {
            self.lemma_symmetric_in_range();
            other.lemma_in_range();
            Self::lemma_norm(self.as_int() - other.int_value());
        }
        if self.is_null() {
            self
        } else {
            match self.0.sub_checked(other) {
                Some(v) => {
                    proof {
                        v.lemma_canon();
                    }
                    SymmetricN(v)
                },
                None => Self::null(),
            }
        }
    }
}

impl<S: SignedPrimitive> vstd::std_specs::ops::SubSpecImpl<S> for SymmetricN<S> {
    open spec fn obeys_sub_spec() -> bool {
        true
    }

    open spec fn sub_req(self, other: S) -> bool {
        true
    }

    open spec fn sub_spec(self, other: S) -> SymmetricN<S> {
        self.sub_delta_spec(other)
    }
}

impl<S: SignedPrimitive> core::ops::Neg for SymmetricN<S> {
    type Output = SymmetricN<S>;

    fn neg(self) -> SymmetricN<S> {
        proof {
            self.lemma_symmetric_in_range();
            Self::lemma_norm(-self.as_int());
        }
        if self.is_null() {
            self
        } else {
            let v = self.0.negated();
            proof {
                v.lemma_canon();
            }
            SymmetricN(v)
        }
    }
}

impl<S: SignedPrimitive> vstd::std_specs::ops::NegSpecImpl for SymmetricN<S> {
    open spec fn obeys_neg_spec() -> bool {
        true
    }

    open spec fn neg_req(self) -> bool {
        true
    }

    open spec fn neg_spec(self) -> SymmetricN<S> {
        if self.is_null_spec() {
            self
        } else {
            Self::norm(-self.as_int())
        }
    }
}

/// Null absorbs arithmetic on symmetric values: whenever either operand of
/// `+` or `-` is null, the result is null, for every width `S`.
pub proof fn lemma_symmetric_null_absorbs<S: SignedPrimitive>(
    x: SymmetricN<S>,
    y: SymmetricN<S>,
    t: S,
)
    requires
        x.is_null_spec() || y.is_null_spec(),
    ensures
        x.add_sym_spec(y).is_null_spec(),
        x.sub_sym_spec(y).is_null_spec(),
        x.is_null_spec() ==> x.add_delta_spec(t).is_null_spec(),
        x.is_null_spec() ==> x.sub_delta_spec(t).is_null_spec(),
{
    SymmetricN::<S>::lemma_norm(S::min_int());
    S::lemma_range_shape();
    if !y.is_null_spec() {
        y.lemma_symmetric_in_range();
        SymmetricN::<S>::lemma_norm(x.as_int() - y.as_int());
    }
}

} // verus!
