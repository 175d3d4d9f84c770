//! The magnitude type: a count in `[0, 2^(bits-1)]` or a null sentinel,
//! packed into one signed machine integer.
//!
//! A count `v` is stored negated (internal representation `-v`), so zero is
//! internal `0` and the maximum count is the width's minimum value.  Any
//! positive internal value means null (absent/invalid); which positive value
//! is irrelevant, though arithmetic normalizes null to internal `1`.  This
//! buys one extra representable magnitude over a non-negative scheme and
//! lets the sign bit alone gate validity.

use vstd::prelude::*;

use crate::index::Index;
use crate::number::{NumberError, NumberResult};
use crate::offset::Offset;
use crate::signed::SignedPrimitive;

verus! {

/// The largest count that this platform can support.
pub type CountMax = Count64;

pub type Count64 = Count<i64>;

pub type Count32 = Count<i32>;

pub type Count16 = Count<i16>;

pub type Count8 = Count<i8>;

pub type Contains64 = Contains<i64>;

pub type Contains32 = Contains<i32>;

pub type Contains16 = Contains<i16>;

pub type Contains8 = Contains<i8>;

/// One more than the width's largest value: the largest count `Count<S>`
/// can represent.
pub open spec fn count_limit<S: SignedPrimitive>() -> int {
    -S::min_int()
}

/// A magnitude in `[0, count_limit::<S>()]`, or null.
#[derive(Debug, Copy, Clone, Hash)]
pub struct Count<S: SignedPrimitive>(S);

impl<S: SignedPrimitive> Count<S> {
    /// The internal (negated) representation.
    pub closed spec fn internal(self) -> int {
        self.0.int_value()
    }

    /// A positive internal value means null.
    pub open spec fn is_null_spec(self) -> bool {
        self.internal() > 0
    }

    /// The magnitude held; meaningful only when not null.
    pub open spec fn value(self) -> int {
        -self.internal()
    }

    /// The canonical count holding magnitude `v`, or the canonical null
    /// when `v` is out of range.
    pub closed spec fn norm(v: int) -> Count<S> {
        if 0 <= v <= count_limit::<S>() {
            Count(S::of_int(-v))
        } else {
            Count(S::of_int(1))
        }
    }

    /// What `norm` holds, spelled out.
    pub proof fn lemma_norm(v: int)
        ensures
            0 <= v <= count_limit::<S>() ==> Self::norm(v).internal() == -v,
            !(0 <= v <= count_limit::<S>()) ==> Self::norm(v).internal() == 1,
    {
        S::lemma_range_shape();
        if 0 <= v <= count_limit::<S>() {
            S::lemma_of_int(-v);
        } else {
            S::lemma_of_int(1);
        }
    }

    /// The internal value lies in the width's range, so the magnitude of a
    /// non-null count never exceeds `count_limit`.
    pub proof fn lemma_count_in_range(self)
        ensures
            S::min_int() <= self.internal() <= S::max_int(),
            -count_limit::<S>() <= self.internal() < count_limit::<S>(),
            !self.is_null_spec() ==> 0 <= self.value() <= count_limit::<S>(),
    {
        self.0.lemma_in_range();
        S::lemma_range_shape();
    }

    /// Wraps an already-negated internal value.
    pub fn negating(t: S) -> (r: Self)
        ensures
            r.internal() == t.int_value(),
    {
        Count(t)
    }

    /// The internal (negated) value.
    pub fn as_negated(self) -> (r: S)
        ensures
            r.int_value() == self.internal(),
    {
        self.0
    }

    /// The canonical null count.
    pub fn null() -> (r: Self)
        ensures
            r.internal() == 1,
            r.is_null_spec(),
            r == Self::norm(-1),
    {
        let one = S::one();
        proof {
            S::lemma_range_shape();
            one.lemma_canon();
        }
        Count(one)
    }

    /// The largest representable count.
    pub fn max_value() -> (r: Self)
        ensures
            r.internal() == S::min_int(),
            !r.is_null_spec(),
            r.value() == count_limit::<S>(),
            r == Self::norm(count_limit::<S>()),
    {
        let m = S::min_value();
        proof {
            S::lemma_range_shape();
            m.lemma_canon();
        }
        Count(m)
    }

    /// The zero count.
    pub fn min_value() -> (r: Self)
        ensures
            r.internal() == 0,
            !r.is_null_spec(),
            r.value() == 0,
    {
        Count(S::zero())
    }

    /// Widens to the platform count width.  The magnitude (or null-ness) is
    /// preserved; null is normalized to the canonical null.
    pub fn to_max(self) -> (r: CountMax)
        ensures
            self.internal() <= 0 ==> r.internal() == self.internal(),
            self.internal() > 0 ==> r.internal() == 1,
    {
        proof {
            self.lemma_count_in_range();
        }
        let v = self.0.as_i64();
        Count64::negating(if v <= 0 {
            v
        } else {
            1
        })
    }

    /// Narrows from the platform count width; the magnitude must fit.
    pub fn of_max(max: CountMax) -> (r: Self)
        requires
            max.internal() <= 0,
            max.value() <= count_limit::<S>(),
        ensures
            r.internal() == max.internal(),
            r.value() == max.value(),
    {
        proof {
            max.lemma_count_in_range();
            S::lemma_range_shape();
        }
        Count(S::of_i64(max.as_negated()))
    }

    /// Doubles the count, but never below `at_least` and never above the
    /// representable maximum; at the maximum already, growth fails.
    pub fn double_or_at_least(self, at_least: Count<S>) -> (r: NumberResult<Count<S>>)
        requires
            !self.is_null_spec(),
            !at_least.is_null_spec(),
            at_least.value() >= 1,
        ensures
            self.value() == count_limit::<S>() ==> (r matches Err(e) && e
                == NumberError::Unrepresentable),
            self.value() < count_limit::<S>() && 2 * self.value() >= count_limit::<S>() ==> (
            r matches Ok(c) && c.internal() == S::min_int()),
            2 * self.value() < count_limit::<S>() ==> (r matches Ok(c) && !c.is_null_spec()
                && c.value() == (if at_least.value() >= 2 * self.value() {
                at_least.value()
            } else {
                2 * self.value()
            })),
    {
        proof {
            self.lemma_count_in_range();
            at_least.lemma_count_in_range();
        }
        if self.0.val_eq(S::min_value()) {
            // Already at the maximum: doubling cannot grow at all.
            Err(NumberError::Unrepresentable)
        } else if self.0.val_le(S::half_min()) {
            // Doubling would overflow: saturate at the maximum.
            Ok(Count(S::min_value()))
        } else {
            // We negate things, so the larger magnitude is the smaller value.
            let a = at_least.as_negated();
            let d = self.0.doubled();
            Ok(Count(
                if a.val_lt(d) {
                    a
                } else {
                    d
                },
            ))
        }
    }

    /// Whether the offset or index falls inside `[0, count)`; an `Index`
    /// wraps around from the end.  A null count contains nothing.
    pub open spec fn contains_spec(self, c: Contains<S>) -> bool {
        !self.is_null_spec() && match c {
            Contains::Offset(o) => 0 <= o.as_int() < self.value(),
            Contains::Index(i) => if i.as_int() >= 0 {
                i.as_int() < self.value()
            } else {
                i.as_int() >= -self.value()
            },
        }
    }

    pub fn contains(&self, contains: Contains<S>) -> (r: bool)
        ensures
            r == self.contains_spec(contains),
    {
        proof {
            self.lemma_count_in_range();
            S::lemma_range_shape();
        }
        if self.is_null() {
            return false;
        }
        match contains {
            Contains::<S>::Offset(offset) => {
                proof {
                    offset.lemma_signed_in_range();
                }
                if offset.to_inner().val_lt(S::zero()) {
                    false
                } else {
                    // internal = -count, so in-range means internal + offset < 0.
                    self.0.add_checked(offset.to_inner()).unwrap().val_lt(S::zero())
                }
            },
            Contains::<S>::Index(index) => {
                proof {
                    index.lemma_signed_in_range();
                }
                if !index.to_inner().val_lt(S::zero()) {
                    self.0.add_checked(index.to_inner()).unwrap().val_lt(S::zero())
                } else {
                    // The left-hand side here is the wrapped-around offset.
                    !index.to_inner().sub_checked(self.0).unwrap().val_lt(S::zero())
                }
            },
        }
    }

    /// Essentially `index = count - 1`.
    /// `index < 0` should be considered empty (count zero or null).
    pub fn to_highest_offset(self) -> (r: Offset<S>)
        requires
            self.internal() < S::max_int(),
        ensures
            r.as_int() == -(self.internal() + 1),
    {
        proof {
            self.lemma_count_in_range();
        }
        Offset::<S>::of(self.0.add_checked(S::one()).unwrap().negated())
    }

    /// Essentially `count = offset + 1`.
    /// `offset < 0` is considered empty, giving the zero count.
    pub fn from_highest_offset(offset: Offset<S>) -> (r: Self)
        ensures
            !r.is_null_spec(),
            offset.as_int() < 0 ==> r.value() == 0,
            offset.as_int() >= 0 ==> r.value() == offset.as_int() + 1,
    {
        proof {
            offset.lemma_signed_in_range();
            S::lemma_range_shape();
        }
        let o = offset.to_inner();
        if o.val_lt(S::zero()) {
            Count(S::zero())
        } else {
            Count(o.negated().sub_checked(S::one()).unwrap())
        }
    }

    /// WARNING: converts null into 0.
    pub fn to_usize(self) -> (r: usize)
        requires
            self.value() <= usize::MAX as int,
        ensures
            self.is_null_spec() ==> r == 0,
            !self.is_null_spec() ==> r as int == self.value(),
    {
        if self.is_null() {
            0
        } else {
            self.0.magnitude_to_usize()
        }
    }

    /// The count holding the given magnitude; fails iff the magnitude
    /// exceeds what the width can represent.
    pub fn of(value: usize) -> (r: NumberResult<Self>)
        ensures
            value as int <= count_limit::<S>() ==> (r matches Ok(c) && !c.is_null_spec()
                && c.value() == value as int),
            value as int > count_limit::<S>() ==> (r matches Err(e) && e
                == NumberError::Unrepresentable),
    {
        proof {
            S::lemma_range_shape();
        }
        if value as u64 > S::magnitude_limit_u64() {
            Err(NumberError::Unrepresentable)
        } else {
            Ok(Count(S::magnitude_of_usize(value)))
        }
    }

    pub fn to_i64(&self) -> (r: Option<i64>)
        ensures
            self.internal() <= 0 && self.value() <= i64::MAX as int ==> (r matches Some(v) && (
            v as int) == self.value()),
            !(self.internal() <= 0 && self.value() <= i64::MAX as int) ==> r is None,
    {
        proof {
            self.lemma_count_in_range();
        }
        let v = self.0.as_i64();
        if v <= 0 && v != i64::MIN {
            Some(-v)
        } else {
            None
        }
    }

    pub fn to_u64(&self) -> (r: Option<u64>)
        ensures
            self.internal() <= 0 ==> (r matches Some(v) && (v as int) == self.value()),
            self.internal() > 0 ==> r is None,
    {
        proof {
            self.lemma_count_in_range();
        }
        let v = self.0.as_i64();
        if v <= 0 {
            if v == i64::MIN {
                Some(9223372036854775808u64)
            } else {
                Some((-v) as u64)
            }
        } else {
            None
        }
    }

    /// Returns true iff the count is not null and greater than zero.
    pub fn is_positive(self) -> (r: bool)
        ensures
            r <==> self.internal() < 0,
    {
        // Remember that we're negated internally.
        self.0.val_lt(S::zero())
    }

    pub fn is_null(self) -> (r: bool)
        ensures
            r == self.is_null_spec(),
    {
        !self.0.val_le(S::zero())
    }

    pub fn is_not_null(self) -> (r: bool)
        ensures
            r == !self.is_null_spec(),
    {
        self.0.val_le(S::zero())
    }
}

/// A position to test against a count: either a plain offset or a
/// wraparound index.
pub enum Contains<S: SignedPrimitive> {
    Offset(Offset<S>),
    Index(Index<S>),
}

impl<S: SignedPrimitive> Default for Count<S> {
    fn default() -> (r: Self)
        ensures
            r.internal() == 0,
            !r.is_null_spec(),
            r.value() == 0,
    {
        Count(S::zero())
    }
}

impl<S: SignedPrimitive> PartialEq for Count<S> {
    fn eq(&self, other: &Self) -> (r: bool) {
        self.0.val_eq(other.0)
    }
}

impl<S: SignedPrimitive> vstd::std_specs::cmp::PartialEqSpecImpl for Count<S> {
    open spec fn obeys_eq_spec() -> bool {
        true
    }

    open spec fn eq_spec(&self, other: &Self) -> bool {
        self.internal() == other.internal()
    }
}

impl<S: SignedPrimitive> PartialOrd for Count<S> {
    fn partial_cmp(&self, other: &Self) -> (r: Option<core::cmp::Ordering>) {
        // More-negative internal values sort greater.
        if self.0.val_lt(other.0) {
            Some(core::cmp::Ordering::Greater)
        } else if self.0.val_eq(other.0) {
            Some(core::cmp::Ordering::Equal)
        } else {
            Some(core::cmp::Ordering::Less)
        }
    }
}

impl<S: SignedPrimitive> vstd::std_specs::cmp::PartialOrdSpecImpl for Count<S> {
    open spec fn obeys_partial_cmp_spec() -> bool {
        true
    }

    open spec fn partial_cmp_spec(&self, other: &Self) -> Option<core::cmp::Ordering> {
        if self.internal() < other.internal() {
            Some(core::cmp::Ordering::Greater)
        } else if self.internal() == other.internal() {
            Some(core::cmp::Ordering::Equal)
        } else {
            Some(core::cmp::Ordering::Less)
        }
    }
}

impl<S: SignedPrimitive> Count<S> {
    /// The sum of two counts.  Null is sticky: if either side is null the
    /// result is null; a sum beyond the representable maximum is null too.
    pub open spec fn add_count_spec(self, other: Count<S>) -> Count<S> {
        if other.is_null_spec() {
            Count::norm(-1)
        } else if self.is_null_spec() {
            self
        } else {
            Count::norm(self.value() + other.value())
        }
    }

    /// The count shifted by a raw signed delta.  Null is sticky, and a
    /// result outside `[0, count_limit]` is null.
    pub open spec fn add_delta_spec(self, t: S) -> Count<S> {
        if self.is_null_spec() {
            self
        } else if 0 <= self.value() + t.int_value() <= count_limit::<S>() {
            Count::norm(self.value() + t.int_value())
        } else {
            Count::norm(-1)
        }
    }

    /// The difference of two counts; null when the subtrahend exceeds the
    /// minuend, and sticky in null as `add_count_spec` is.
    pub open spec fn sub_count_spec(self, other: Count<S>) -> Count<S> {
        if other.is_null_spec() {
            Count::norm(-1)
        } else if self.is_null_spec() {
            self
        } else {
            Count::norm(self.value() - other.value())
        }
    }

    /// The count shifted down by a raw signed delta.
    pub open spec fn sub_delta_spec(self, t: S) -> Count<S> {
        if self.is_null_spec() {
            self
        } else if 0 <= self.value() - t.int_value() <= count_limit::<S>() {
            Count::norm(self.value() - t.int_value())
        } else {
            Count::norm(-1)
        }
    }
}

impl<S: SignedPrimitive> core::ops::Add<Count<S>> for Count<S> {
    type Output = Count<S>;

    fn add(self, other: Count<S>) -> Count<S> {
        proof {
            self.lemma_count_in_range();
            other.lemma_count_in_range();
            S::lemma_range_shape();
            Self::lemma_norm(-1);
            Self::lemma_norm(self.value() + other.value());
        }
        if other.is_null() {
            Count::null()
        } else if self.is_null() {
            self
        } else {
            // Internally magnitudes are negated, so their sum is too.
            match self.0.add_checked(other.0) {
                Some(v) => {
                    proof {
                        v.lemma_canon();
                    }
                    Count(v)
                },
                None => Count::null(),
            }
        }
    }
}

impl<S: SignedPrimitive> vstd::std_specs::ops::AddSpecImpl<Count<S>> for Count<S> {
    open spec fn obeys_add_spec() -> bool {
        true
    }

    open spec fn add_req(self, other: Count<S>) -> bool {
        true
    }

    open spec fn add_spec(self, other: Count<S>) -> Count<S> {
        self.add_count_spec(other)
    }
}

impl<S: SignedPrimitive> core::ops::Add<S> for Count<S> {
    type Output = Count<S>;

    fn add(self, other: S) -> Count<S> {
        proof {
            self.lemma_count_in_range();
            other.lemma_in_range();
            S::lemma_range_shape();
            Self::lemma_norm(-1);
            Self::lemma_norm(self.value() + other.int_value());
        }
        if self.is_null() {
            self
        } else {
            match self.0.sub_checked(other) {
                Some(v) => {
                    if v.val_le(S::zero()) {
                        proof {
                            v.lemma_canon();
                        }
                        Count(v)
                    } else {
                        Count::null()
                    }
                },
                None => Count::null(),
            }
        }
    }
}

impl<S: SignedPrimitive> vstd::std_specs::ops::AddSpecImpl<S> for Count<S> {
    open spec fn obeys_add_spec() -> bool {
        true
    }

    open spec fn add_req(self, other: S) -> bool {
        true
    }

    open spec fn add_spec(self, other: S) -> Count<S> {
        self.add_delta_spec(other)
    }
}

impl<S: SignedPrimitive> core::ops::Sub<Count<S>> for Count<S> {
    type Output = Count<S>;

    fn sub(self, other: Count<S>) -> Count<S> {
        proof {
            self.lemma_count_in_range();
            other.lemma_count_in_range();
            S::lemma_range_shape();
            Self::lemma_norm(-1);
            Self::lemma_norm(self.value() - other.value());
        }
        if other.is_null() {
            Count::null()
        } else if self.is_null() {
            self
        } else {
            match self.0.sub_checked(other.0) {
                Some(v) => {
                    if v.val_le(S::zero()) {
                        proof {
                            v.lemma_canon();
                        }
                        Count(v)
                    } else {
                        Count::null()
                    }
                },
                None => Count::null(),
            }
        }
    }
}

impl<S: SignedPrimitive> vstd::std_specs::ops::SubSpecImpl<Count<S>> for Count<S> {
    open spec fn obeys_sub_spec() -> bool {
        true
    }

    open spec fn sub_req(self, other: Count<S>) -> bool {
        true
    }

    open spec fn sub_spec(self, other: Count<S>) -> Count<S> {
        self.sub_count_spec(other)
    }
}

impl<S: SignedPrimitive> core::ops::Sub<S> for Count<S> {
    type Output = Count<S>;

    fn sub(self, other: S) -> Count<S> {
        proof {
            self.lemma_count_in_range();
            other.lemma_in_range();
            S::lemma_range_shape();
            Self::lemma_norm(-1);
            Self::lemma_norm(self.value() - other.int_value());
        }
        if self.is_null() {
            self
        } else {
            match self.0.add_checked(other) {
                Some(v) => {
                    if v.val_le(S::zero()) {
                        proof {
                            v.lemma_canon();
                        }
                        Count(v)
                    } else {
                        Count::null()
                    }
                },
                None => Count::null(),
            }
        }
    }
}

impl<S: SignedPrimitive> vstd::std_specs::ops::SubSpecImpl<S> for Count<S> {
    open spec fn obeys_sub_spec() -> bool {
        true
    }

    open spec fn sub_req(self, other: S) -> bool {
        true
    }

    open spec fn sub_spec(self, other: S) -> Count<S> {
        self.sub_delta_spec(other)
    }
}

/// What `norm` holds, spelled out; `Count::lemma_norm`, made ambient.
pub broadcast proof fn lemma_count_norm<S: SignedPrimitive>(v: int)
    ensures
        #![trigger Count::<S>::norm(v)]
        0 <= v <= count_limit::<S>() ==> Count::<S>::norm(v).internal() == -v,
        !(0 <= v <= count_limit::<S>()) ==> Count::<S>::norm(v).internal() == 1,
{
    Count::<S>::lemma_norm(v);
}

/// Null absorbs arithmetic: whenever either operand of `+` or `-` is null,
/// the result is null, for every width `S`.
pub proof fn lemma_null_absorbs_arithmetic<S: SignedPrimitive>(x: Count<S>, y: Count<S>, t: S)
    requires
        x.is_null_spec() || y.is_null_spec(),
    ensures
        x.add_count_spec(y).is_null_spec(),
        x.sub_count_spec(y).is_null_spec(),
        x.is_null_spec() ==> x.add_delta_spec(t).is_null_spec(),
        x.is_null_spec() ==> x.sub_delta_spec(t).is_null_spec(),
{
    Count::<S>::lemma_norm(-1);
    if !y.is_null_spec() {
        y.lemma_count_in_range();
        Count::<S>::lemma_norm(x.value() - y.value());
    }
}

/// A successful `double_or_at_least` result is at least `at_least`, at
/// least double the current count unless it saturates at the width's
/// maximum count, and never exceeds that maximum; it fails exactly when
/// the current count is already the maximum.
pub proof fn lemma_double_or_at_least_bounds<S: SignedPrimitive>(
    current: Count<S>,
    at_least: Count<S>,
    result: Count<S>,
)
    requires
        !current.is_null_spec(),
        !at_least.is_null_spec(),
        at_least.value() >= 1,
        current.value() < count_limit::<S>(),
        2 * current.value() >= count_limit::<S>() ==> result.internal() == S::min_int(),
        2 * current.value() < count_limit::<S>() ==> !result.is_null_spec() && result.value() == (
        if at_least.value() >= 2 * current.value() {
            at_least.value()
        } else {
            2 * current.value()
        }),
    ensures
        result.value() >= at_least.value() || result.value() == count_limit::<S>(),
        result.value() >= 2 * current.value() || result.value() == count_limit::<S>(),
        result.value() <= count_limit::<S>(),
{
    S::lemma_range_shape();
    at_least.lemma_count_in_range();
    result.lemma_count_in_range();
}

/// For every width `S` and every `value` the width can represent,
/// the count built by `of(value)` reads back as exactly `value` through
/// `to_usize`; `of` fails exactly when `value` exceeds the width's
/// maximum count (see the `ensures` of `of`).
pub proof fn lemma_of_then_to_usize<S: SignedPrimitive>(value: usize, c: Count<S>)
    requires
        value as int <= count_limit::<S>(),
        !c.is_null_spec(),
        c.value() == value as int,
    ensures
        (if c.is_null_spec() {
            0int
        } else {
            c.value()
        }) == value as int,
{
}

} // verus!
