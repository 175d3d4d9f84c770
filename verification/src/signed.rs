//! The family of signed machine integers that can back a magnitude type.
//!
//! Arrays in this crate are generic over which signed width holds their
//! count and capacity, trading maximum size for structure compactness.
//! `SignedPrimitive` captures what the rest of the crate needs from such a
//! width: its range, comparisons, checked arithmetic, and conversions to
//! and from `i64` and `usize`.

use vstd::prelude::*;

verus! {

/// A signed machine integer width (`i8`, `i16`, `i32` or `i64`).
///
/// `int_value` embeds a value into the mathematical integers; every other
/// member is specified against that embedding.
pub trait SignedPrimitive: Sized + Copy {
    /// The mathematical value of this machine integer.
    spec fn int_value(self) -> int;

    /// Smallest representable value.
    spec fn min_int() -> int;

    /// Largest representable value.
    spec fn max_int() -> int;

    /// The machine integer with the given mathematical value
    /// (meaningful only for values in range).
    spec fn of_int(v: int) -> Self;

    /// Every value lies in the representable range.
    proof fn lemma_in_range(self)
        ensures
            Self::min_int() <= self.int_value() <= Self::max_int(),
    ;

    /// The range is a two's-complement range of at least 8 bits,
    /// no wider than 64 bits.
    proof fn lemma_range_shape()
        ensures
            Self::min_int() == -Self::max_int() - 1,
            127 <= Self::max_int() <= i64::MAX as int,
    ;

    /// `of_int` inverts `int_value` on the representable range.
    proof fn lemma_of_int(v: int)
        requires
            Self::min_int() <= v <= Self::max_int(),
        ensures
            Self::of_int(v).int_value() == v,
    ;

    /// `int_value` determines the value: the embedding is injective.
    proof fn lemma_canon(self)
        ensures
            Self::of_int(self.int_value()) == self,
    ;

    fn zero() -> (r: Self)
        ensures
            r.int_value() == 0,
    ;

    fn one() -> (r: Self)
        ensures
            r.int_value() == 1,
    ;

    fn min_value() -> (r: Self)
        ensures
            r.int_value() == Self::min_int(),
    ;

    fn max_value() -> (r: Self)
        ensures
            r.int_value() == Self::max_int(),
    ;

    /// Half the minimum; exact, since the minimum is even.
    fn half_min() -> (r: Self)
        ensures
            2 * r.int_value() == Self::min_int(),
    ;

    fn val_eq(self, other: Self) -> (r: bool)
        ensures
            r <==> self.int_value() == other.int_value(),
    ;

    fn val_le(self, other: Self) -> (r: bool)
        ensures
            r <==> self.int_value() <= other.int_value(),
    ;

    fn val_lt(self, other: Self) -> (r: bool)
        ensures
            r <==> self.int_value() < other.int_value(),
    ;

    fn add_checked(self, other: Self) -> (r: Option<Self>)
        ensures
            Self::min_int() <= self.int_value() + other.int_value() <= Self::max_int() ==> (
            r matches Some(v) && v.int_value() == self.int_value() + other.int_value()),
            !(Self::min_int() <= self.int_value() + other.int_value() <= Self::max_int())
                ==> r is None,
    ;

    fn sub_checked(self, other: Self) -> (r: Option<Self>)
        ensures
            Self::min_int() <= self.int_value() - other.int_value() <= Self::max_int() ==> (
            r matches Some(v) && v.int_value() == self.int_value() - other.int_value()),
            !(Self::min_int() <= self.int_value() - other.int_value() <= Self::max_int())
                ==> r is None,
    ;

    fn negated(self) -> (r: Self)
        requires
            self.int_value() != Self::min_int(),
        ensures
            r.int_value() == -self.int_value(),
    ;

    fn doubled(self) -> (r: Self)
        requires
            Self::min_int() <= 2 * self.int_value() <= Self::max_int(),
        ensures
            r.int_value() == 2 * self.int_value(),
    ;

    fn as_i64(self) -> (r: i64)
        ensures
            r as int == self.int_value(),
    ;

    fn of_i64(v: i64) -> (r: Self)
        requires
            Self::min_int() <= v as int <= Self::max_int(),
        ensures
            r.int_value() == v as int,
    ;

    /// The largest magnitude a count backed by this width can hold,
    /// as a `u64`: one more than the largest representable value.
    fn magnitude_limit_u64() -> (r: u64)
        ensures
            r as int == -Self::min_int(),
    ;

    /// The magnitude of a non-positive value, as a `usize`.
    fn magnitude_to_usize(self) -> (r: usize)
        requires
            self.int_value() <= 0,
            -self.int_value() <= usize::MAX as int,
        ensures
            r as int == -self.int_value(),
    ;

    /// The non-positive value with the given magnitude.
    fn magnitude_of_usize(v: usize) -> (r: Self)
        requires
            v as int <= -Self::min_int(),
        ensures
            r.int_value() == -(v as int),
    ;
}

impl SignedPrimitive for i8 {
    open spec fn int_value(self) -> int {
        self as int
    }

    open spec fn min_int() -> int {
        i8::MIN as int
    }

    open spec fn max_int() -> int {
        i8::MAX as int
    }

    open spec fn of_int(v: int) -> Self {
        v as i8
    }

    proof fn lemma_in_range(self) {
    }

    proof fn lemma_range_shape() {
    }

    proof fn lemma_of_int(v: int) {
    }

    proof fn lemma_canon(self) {
    }

    fn zero() -> (r: Self) {
        0
    }

    fn one() -> (r: Self) {
        1
    }

    fn min_value() -> (r: Self) {
        i8::MIN
    }

    fn max_value() -> (r: Self) {
        i8::MAX
    }

    fn half_min() -> (r: Self) {
        -64
    }

    fn val_eq(self, other: Self) -> (r: bool) {
        self == other
    }

    fn val_le(self, other: Self) -> (r: bool) {
        self <= other
    }

    fn val_lt(self, other: Self) -> (r: bool) {
        self < other
    }

    fn add_checked(self, other: Self) -> (r: Option<Self>) {
        self.checked_add(other)
    }

    fn sub_checked(self, other: Self) -> (r: Option<Self>) {
        self.checked_sub(other)
    }

    fn negated(self) -> (r: Self) {
        -self
    }

    fn doubled(self) -> (r: Self) {
        2 * self
    }

    fn as_i64(self) -> (r: i64) {
        self as i64
    }

    fn of_i64(v: i64) -> (r: Self) {
        v as i8
    }

    fn magnitude_limit_u64() -> (r: u64) {
        128
    }

    fn magnitude_to_usize(self) -> (r: usize) {
        (-(self as i64)) as usize
    }

    fn magnitude_of_usize(v: usize) -> (r: Self) {
        (-(v as i64)) as i8
    }
}

impl SignedPrimitive for i16 {
    open spec fn int_value(self) -> int {
        self as int
    }

    open spec fn min_int() -> int {
        i16::MIN as int
    }

    open spec fn max_int() -> int {
        i16::MAX as int
    }

    open spec fn of_int(v: int) -> Self {
        v as i16
    }

    proof fn lemma_in_range(self) {
    }

    proof fn lemma_range_shape() {
    }

    proof fn lemma_of_int(v: int) {
    }

    proof fn lemma_canon(self) {
    }

    fn zero() -> (r: Self) {
        0
    }

    fn one() -> (r: Self) {
        1
    }

    fn min_value() -> (r: Self) {
        i16::MIN
    }

    fn max_value() -> (r: Self) {
        i16::MAX
    }

    fn half_min() -> (r: Self) {
        -16384
    }

    fn val_eq(self, other: Self) -> (r: bool) {
        self == other
    }

    fn val_le(self, other: Self) -> (r: bool) {
        self <= other
    }

    fn val_lt(self, other: Self) -> (r: bool) {
        self < other
    }

    fn add_checked(self, other: Self) -> (r: Option<Self>) {
        self.checked_add(other)
    }

    fn sub_checked(self, other: Self) -> (r: Option<Self>) {
        self.checked_sub(other)
    }

    fn negated(self) -> (r: Self) {
        -self
    }

    fn doubled(self) -> (r: Self) {
        2 * self
    }

    fn as_i64(self) -> (r: i64) {
        self as i64
    }

    fn of_i64(v: i64) -> (r: Self) {
        v as i16
    }

    fn magnitude_limit_u64() -> (r: u64) {
        32768
    }

    fn magnitude_to_usize(self) -> (r: usize) {
        (-(self as i64)) as usize
    }

    fn magnitude_of_usize(v: usize) -> (r: Self) {
        (-(v as i64)) as i16
    }
}

impl SignedPrimitive for i32 {
    open spec fn int_value(self) -> int {
        self as int
    }

    open spec fn min_int() -> int {
        i32::MIN as int
    }

    open spec fn max_int() -> int {
        i32::MAX as int
    }

    open spec fn of_int(v: int) -> Self {
        v as i32
    }

    proof fn lemma_in_range(self) {
    }

    proof fn lemma_range_shape() {
    }

    proof fn lemma_of_int(v: int) {
    }

    proof fn lemma_canon(self) {
    }

    fn zero() -> (r: Self) {
        0
    }

    fn one() -> (r: Self) {
        1
    }

    fn min_value() -> (r: Self) {
        i32::MIN
    }

    fn max_value() -> (r: Self) {
        i32::MAX
    }

    fn half_min() -> (r: Self) {
        -1073741824
    }

    fn val_eq(self, other: Self) -> (r: bool) {
        self == other
    }

    fn val_le(self, other: Self) -> (r: bool) {
        self <= other
    }

    fn val_lt(self, other: Self) -> (r: bool) {
        self < other
    }

    fn add_checked(self, other: Self) -> (r: Option<Self>) {
        self.checked_add(other)
    }

    fn sub_checked(self, other: Self) -> (r: Option<Self>) {
        self.checked_sub(other)
    }

    fn negated(self) -> (r: Self) {
        -self
    }

    fn doubled(self) -> (r: Self) {
        2 * self
    }

    fn as_i64(self) -> (r: i64) {
        self as i64
    }

    fn of_i64(v: i64) -> (r: Self) {
        v as i32
    }

    fn magnitude_limit_u64() -> (r: u64) {
        2147483648
    }

    fn magnitude_to_usize(self) -> (r: usize) {
        (-(self as i64)) as usize
    }

    fn magnitude_of_usize(v: usize) -> (r: Self) {
        (-(v as i64)) as i32
    }
}

impl SignedPrimitive for i64 {
    open spec fn int_value(self) -> int {
        self as int
    }

    open spec fn min_int() -> int {
        i64::MIN as int
    }

    open spec fn max_int() -> int {
        i64::MAX as int
    }

    open spec fn of_int(v: int) -> Self {
        v as i64
    }

    proof fn lemma_in_range(self) {
    }

    proof fn lemma_range_shape() {
    }

    proof fn lemma_of_int(v: int) {
    }

    proof fn lemma_canon(self) {
    }

    fn zero() -> (r: Self) {
        0
    }

    fn one() -> (r: Self) {
        1
    }

    fn min_value() -> (r: Self) {
        i64::MIN
    }

    fn max_value() -> (r: Self) {
        i64::MAX
    }

    fn half_min() -> (r: Self) {
        -4611686018427387904
    }

    fn val_eq(self, other: Self) -> (r: bool) {
        self == other
    }

    fn val_le(self, other: Self) -> (r: bool) {
        self <= other
    }

    fn val_lt(self, other: Self) -> (r: bool) {
        self < other
    }

    fn add_checked(self, other: Self) -> (r: Option<Self>) {
        self.checked_add(other)
    }

    fn sub_checked(self, other: Self) -> (r: Option<Self>) {
        self.checked_sub(other)
    }

    fn negated(self) -> (r: Self) {
        -self
    }

    fn doubled(self) -> (r: Self) {
        2 * self
    }

    fn as_i64(self) -> (r: i64) {
        self
    }

    fn of_i64(v: i64) -> (r: Self) {
        v
    }

    fn magnitude_limit_u64() -> (r: u64) {
        9223372036854775808
    }

    fn magnitude_to_usize(self) -> (r: usize) {
        if self == i64::MIN {
            9223372036854775808u64 as usize
        } else {
            (-self) as usize
        }
    }

    fn magnitude_of_usize(v: usize) -> (r: Self) {
        if v as u64 == 9223372036854775808u64 {
            i64::MIN
        } else {
            -(v as i64)
        }
    }
}

pub type Signed64 = Signed<i64>;

pub type Signed32 = Signed<i32>;

pub type Signed16 = Signed<i16>;

pub type Signed8 = Signed<i8>;

/// A plain signed value of width `T`, used for displacements (`Offset`)
/// and possibly-negative logical indices (`Index`).
#[derive(Debug, Copy, Clone, Hash)]
pub struct Signed<T: SignedPrimitive>(pub(crate) T);

impl<T: SignedPrimitive> Signed<T> {
    /// The mathematical value held.
    pub closed spec fn as_int(self) -> int {
        self.0.int_value()
    }

    pub fn of(t: T) -> (r: Self)
        ensures
            r.as_int() == t.int_value(),
    {
        Signed(t)
    }

    pub fn to_inner(self) -> (r: T)
        ensures
            r.int_value() == self.as_int(),
    {
        self.0
    }

    pub fn min_value() -> (r: Self)
        ensures
            r.as_int() == T::min_int(),
    {
        Signed(T::min_value())
    }

    pub fn max_value() -> (r: Self)
        ensures
            r.as_int() == T::max_int(),
    {
        Signed(T::max_value())
    }

    /// The value lies in the width's range.
    pub proof fn lemma_signed_in_range(self)
        ensures
            T::min_int() <= self.as_int() <= T::max_int(),
    {
        self.0.lemma_in_range();
    }
}

impl<T: SignedPrimitive> PartialEq for Signed<T> {
    fn eq(&self, other: &Self) -> (r: bool) {
        self.0.val_eq(other.0)
    }
}

impl<T: SignedPrimitive> vstd::std_specs::cmp::PartialEqSpecImpl for Signed<T> {
    open spec fn obeys_eq_spec() -> bool {
        true
    }

    open spec fn eq_spec(&self, other: &Self) -> bool {
        self.as_int() == other.as_int()
    }
}

} // verus!
