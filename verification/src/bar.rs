use std::collections::hash_map::DefaultHasher;
use std::hash::Hasher;
use vstd::prelude::*;
use vstd::std_specs::hash::DefaultHasherAdditionalSpecFns;

verus! {

/// A bar that knows its UNIX date.
pub trait BarTrait {
    fn unix_date(&self) -> u64;
}

/// `<u64 as std::hash::Hash>::hash`: feeds `v` to the hasher; what it
/// writes is not stated, since std does not document it.
#[verifier::external_body]
fn hash_u64(v: &u64, state: &mut DefaultHasher) {
    std::hash::Hash::hash(v, state)
}

/// `<DefaultHasher as Clone>::clone`: a copy of the hasher; what the copy
/// holds is not stated.
#[verifier::external_body]
fn clone_hasher(h: &DefaultHasher) -> DefaultHasher {
    h.clone()
}

/// Hashes bars by their date.
#[derive(Debug)]
pub struct BarHasher(pub DefaultHasher);

impl Clone for BarHasher {
    fn clone(&self) -> Self {
        BarHasher(clone_hasher(&self.0))
    }
}

impl Default for BarHasher {
    fn default() -> (r: Self)
        ensures
            r.0@ == Seq::<Seq<u8>>::empty(),
    {
        BarHasher(DefaultHasher::new())
    }
}

pub trait BarHashTrait: Sized {
    fn new() -> Self;

    fn finish(&mut self) -> u64;

    fn hash_bar<T: BarTrait>(&mut self, bar: &T) -> u64;
}

impl BarHashTrait for BarHasher {
    /// A hasher with nothing written to it.
    fn new() -> (r: Self)
        ensures
            r.0@ == Seq::<Seq<u8>>::empty(),
    {
        Self(DefaultHasher::new())
    }

    /// The hash of what was written so far.
    fn finish(&mut self) -> (r: u64)
        ensures
            r == DefaultHasher::spec_finish(old(self).0@),
            final(self).0@ == old(self).0@,
    {
        self.0.finish()
    }

    /// Hash bar by its date, starting from a fresh hasher.
    fn hash_bar<T: BarTrait>(&mut self, bar: &T) -> (r: u64)
        ensures
            r == DefaultHasher::spec_finish(final(self).0@),
    {
        self.0 = DefaultHasher::new();
        let d = bar.unix_date();
        hash_u64(&d, &mut self.0);
        self.finish()
    }
}

} // verus!
