//! "Move and reset" for values with a default.

use vstd::prelude::*;

verus! {

/// "Move and reset"s the passed-in value: returns what `t` held, leaving
/// the type's default behind.
pub fn moot<T: core::default::Default>(t: &mut T) -> (result: T)
    ensures
        result == *old(t),
        call_ensures(T::default, (), *final(t)),
{
    let mut result = T::default();
    core::mem::swap(&mut result, t);
    result
}

} // verus!
