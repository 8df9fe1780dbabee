use vstd::array::{array_fill_for_copy_types, ArrayAdditionalExecFns};
use vstd::prelude::*;

verus! {

/// Element types a `VArray` can hold: copied freely and blank-filled.
pub trait Arrayable: Copy + core::default::Default {

}

impl Arrayable for u8 {

}

impl Arrayable for u16 {

}

/// A fixed sixteen-slot array carrying a short prefix of values, an
/// allocation-free stand-in for a small vector.
#[derive(Clone, Copy)]
pub struct VArray<T: Arrayable> {
    pub length: usize,
    pub stack: [T; 16],
}

impl<T: Arrayable> VArray<T> {
    /// Copy a slice of at most sixteen elements into the prefix of a
    /// fresh array; the remaining slots hold the element type's blank.
    pub fn from_slice(v: &[T]) -> (r: Option<VArray<T>>)
        requires
            v@.len() <= 16,
        ensures
            match r {
                Some(a) => a.length == v@.len() && forall|j: int|
                    0 <= j < v@.len() ==> a.stack@[j] == v@[j],
                None => false,
            },
    {
        let mut a: [T; 16] = array_fill_for_copy_types(T::default());
        let mut i: usize = 0;
        while i < v.len()
            invariant
                v@.len() <= 16,
                i <= v@.len(),
                forall|j: int| 0 <= j < i as int ==> a@[j] == v@[j],
            decreases v@.len() - i,
        {
            a.set(i, v[i]);
            i = i + 1;
        }
        Some(VArray { length: v.len(), stack: a })
    }
}

} // verus!
