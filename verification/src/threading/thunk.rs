//! A thunk capable of sharing routines between threads.

use vstd::prelude::*;

verus! {

/// A boxed routine that runs once and returns nothing.
pub trait FnBox {
    /// Whether the routine may be called.
    spec fn ready(&self) -> bool;

    /// Runs the routine, consuming the box.
    fn call_box(self: Box<Self>)
        requires
            Self::ready(&*self),
    ;
}

impl<F: FnOnce()> FnBox for F {
    open spec fn ready(&self) -> bool {
        call_requires(*self, ())
    }

    fn call_box(self: Box<F>)
        ensures
            call_ensures(*self, (), ()),
    {
        (*self)()
    }
}

/// A routine may be called through `call_box` exactly when it may be called
/// itself.
pub proof fn lemma_ready<F: FnOnce()>(f: &F)
    ensures
        <F as FnBox>::ready(f) == call_requires(*f, ()),
{
}

/// A routine that can be sent to another thread and run there once.
pub type Thunk = Box<dyn FnBox + Send>;

} // verus!
