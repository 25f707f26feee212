use vstd::prelude::*;

verus! {

/// An array of `N` values of `T`.
#[derive(Copy, Clone, Debug)]
pub struct AnyBitPatternArray<T, const N: usize> {
    pub data: [T; N],
}

impl<T, const N: usize> AnyBitPatternArray<T, N> {
    /// The array itself.
    pub fn as_array(&self) -> (r: &[T; N])
        ensures
            r == &self.data,
    {
        &self.data
    }

    /// The array, for writing.
    pub fn as_array_mut(&mut self) -> (r: &mut [T; N])
        ensures
            *r == old(self).data,
            final(self).data == *final(r),
    {
        &mut self.data
    }
}

} // verus!
