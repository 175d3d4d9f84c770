//! Byte buffers: the hybrid array specialized to `u8`, sized so the
//! whole structure stays compact.

use vstd::prelude::*;

use crate::container::{ContainerError, ContainerResult};
use crate::count::{count_limit, CountMax};
use crate::maybe_local_array::MaybeLocalArrayOptimized;
use crate::signed::SignedPrimitive;
use vstd::string::StringSliceAdditionalSpecFns;

verus! {

pub type ShtickOptimized8 = ShtickOptimized<i8, 15>;

pub type ShtickOptimized16 = ShtickOptimized<i16, 14>;

pub type ShtickOptimized32 = ShtickOptimized<i32, 12>;

pub type ShtickOptimized64 = ShtickOptimized<i64, 16>;

pub type ShtickOptimized<S, const N_LOCAL: usize> = MaybeLocalArrayOptimized<S, N_LOCAL, u8>;

impl<S: SignedPrimitive, const N_LOCAL: usize> MaybeLocalArrayOptimized<S, N_LOCAL, u8> {
    /// Builds a byte buffer holding the string's bytes, with the capacity
    /// set up front so only one allocation happens; fails only when the
    /// byte count is beyond the platform maximum.
    #[verifier::loop_isolation(false)]
    pub fn try_from(value: &str) -> (r: ContainerResult<Self>)
        requires
            N_LOCAL as int + 2 <= S::max_int(),
        ensures
            value.spec_bytes().len() <= count_limit::<i64>() ==> (r matches Ok(s) && s.wf() && s@
                == value.spec_bytes()),
            value.spec_bytes().len() > count_limit::<i64>() ==> r
                == ContainerResult::<Self>::Err(ContainerError::OutOfMemory),
    {
        let mut result = Self::default();
        let count = match CountMax::of(value.len()) {
            Ok(c) => c,
            Err(_) => {
                return Err(ContainerError::OutOfMemory);
            },
        };
        let sized = result.set_capacity(count);
        proof {
            assert(sized is Ok);
            result.lemma_wf();
        }
        let bytes = value.as_bytes();
        let total = bytes.len();
        let mut i: usize = 0;
        while i < total
            invariant
                result.wf(),
                total as int == value.spec_bytes().len(),
                bytes@ == value.spec_bytes(),
                0 <= i <= total,
                result@ == value.spec_bytes().take(i as int),
                total as int <= result.cap(),
            decreases total - i,
        {
            proof {
                result.lemma_wf();
            }
            let inserted = result.insert_at_end(bytes[i]);
            proof {
                assert(inserted is Ok);
            }
            i = i + 1;
            proof {
                assert(value.spec_bytes().take(i as int) =~= value.spec_bytes().take(
                    i as int - 1,
                ).push(value.spec_bytes()[i as int - 1]));
            }
        }
        proof {
            assert(value.spec_bytes().take(total as int) =~= value.spec_bytes());
        }
        Ok(result)
    }
}

} // verus!
