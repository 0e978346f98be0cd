//! The pieces that generated code uses at compile time: a fixed-capacity
//! list of names, and the marker traits that record which errors a
//! composite error holds.

use vstd::prelude::*;
use vstd::slice::slice_subrange;

verus! {

/// How many names a [`ConstantStrVec`] can hold.
pub const CAPACITY: usize = 512;

/// A list of at most [`CAPACITY`] static strings, usable where no allocation
/// is possible.
pub struct ConstantStrVec {
    strs: [&'static str; 512],
    len: usize,
}

impl View for ConstantStrVec {
    type V = Seq<&'static str>;

    /// The names pushed so far, in order.
    closed spec fn view(&self) -> Seq<&'static str> {
        self.strs@.take(self.len as int)
    }
}

impl ConstantStrVec {
    /// The length never exceeds the capacity.
    #[verifier::type_invariant]
    closed spec fn within_capacity(self) -> bool {
        self.len <= CAPACITY
    }

    /// An empty list.
    pub fn new() -> (r: Self)
        ensures
            r@ == Seq::<&'static str>::empty(),
    {
        let r = Self { strs: [""; 512], len: 0 };
        assert(r@ =~= Seq::<&'static str>::empty());
        r
    }

    /// The names pushed so far, in order.
    pub fn get_slice(&self) -> (r: &[&'static str])
        ensures
            r@ == self@,
    {
        proof { use_type_invariant(self); }
        slice_subrange(self.strs.as_slice(), 0, self.len)
    }

    /// Appends a name. The list must not be full.
    pub fn push(&mut self, s: &'static str)
        requires
            old(self)@.len() < CAPACITY,
        ensures
            final(self)@ == old(self)@.push(s),
    {
        proof { use_type_invariant(&*self); }
        let ghost before = self@;
        let i = self.len;
        self.strs[i] = s;
        self.len = i + 1;
        assert(self@ =~= before.push(s));
    }

    /// Whether nothing has been pushed.
    pub fn is_empty(&self) -> (r: bool)
        ensures
            r == (self@.len() == 0),
    {
        proof { use_type_invariant(self); }
        self.len == 0
    }
}

/// Implemented by a composite error for each plain error it holds. Not to
/// be implemented by hand.
pub trait Contains<T> {}

/// Implemented by an error whose errors all belong to `T`. Not to be
/// implemented by hand.
pub trait IsSubsetOf<T> {}

/// Implemented by an error that holds every error of `T`. Not to be
/// implemented by hand.
pub trait IsSupersetOf<T> {}

impl<T: IsSubsetOf<S>, S> IsSupersetOf<T> for S {}

} // verus!
