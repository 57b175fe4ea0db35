//! A thunk capable of sharing routines between threads.

use vstd::prelude::*;

verus! {

/// A boxed routine that runs once and returns nothing.
pub trait FnBox {
    /// Whether the routine may be called.
    spec fn ready(&self) -> bool;

    /// Runs the routine, consuming the box.
    fn call_box(self: Box<Self>)
        requires
            Self::ready(&*self),
    ;
}

impl<F: FnOnce()> FnBox for F {
    open spec fn ready(&self) -> bool {
        call_requires(*self, ())
    }

    fn call_box(self: Box<F>)
        ensures
            call_ensures(*self, (), ()),
    {
        (*self)()
    }
}

/// A routine may be called through `call_box` exactly when it may be called
/// itself.
pub proof fn lemma_ready<F: FnOnce()>(f: &F)
    ensures
        <F as FnBox>::ready(f) == call_requires(*f, ()),
{
}

/// A routine that can be sent to another thread and run there once.
pub type Thunk = Box<dyn FnBox + Send>;

/// A boxed routine that runs once and hands back a value of type `T`.
pub trait FnBoxGeneric<T> {
    /// Whether the routine may be called.
    spec fn ready(&self) -> bool;

    /// Runs the routine, consuming the box; the value it computed comes back
    /// wrapped in `Some`.
    fn call_box(self: Box<Self>) -> (r: Option<T>)
        requires
            Self::ready(&*self),
        ensures
            r is Some,
    ;
}

impl<F: FnOnce() -> i64> FnBoxGeneric<i64> for F {
    open spec fn ready(&self) -> bool {
        call_requires(*self, ())
    }

    fn call_box(self: Box<F>) -> (r: Option<i64>)
        ensures
            r matches Some(v) && call_ensures(*self, (), v),
    {
        Some((*self)())
    }
}

impl<F: FnOnce() -> bool> FnBoxGeneric<bool> for F {
    open spec fn ready(&self) -> bool {
        call_requires(*self, ())
    }

    fn call_box(self: Box<F>) -> (r: Option<bool>)
        ensures
            r matches Some(v) && call_ensures(*self, (), v),
    {
        Some((*self)())
    }
}

impl<F: FnOnce() -> char> FnBoxGeneric<char> for F {
    open spec fn ready(&self) -> bool {
        call_requires(*self, ())
    }

    fn call_box(self: Box<F>) -> (r: Option<char>)
        ensures
            r matches Some(v) && call_ensures(*self, (), v),
    {
        Some((*self)())
    }
}

impl<F: FnOnce() -> i32> FnBoxGeneric<i32> for F {
    open spec fn ready(&self) -> bool {
        call_requires(*self, ())
    }

    fn call_box(self: Box<F>) -> (r: Option<i32>)
        ensures
            r matches Some(v) && call_ensures(*self, (), v),
    {
        Some((*self)())
    }
}

impl<F: FnOnce() -> i16> FnBoxGeneric<i16> for F {
    open spec fn ready(&self) -> bool {
        call_requires(*self, ())
    }

    fn call_box(self: Box<F>) -> (r: Option<i16>)
        ensures
            r matches Some(v) && call_ensures(*self, (), v),
    {
        Some((*self)())
    }
}

impl<F: FnOnce() -> isize> FnBoxGeneric<isize> for F {
    open spec fn ready(&self) -> bool {
        call_requires(*self, ())
    }

    fn call_box(self: Box<F>) -> (r: Option<isize>)
        ensures
            r matches Some(v) && call_ensures(*self, (), v),
    {
        Some((*self)())
    }
}

impl<F: FnOnce() -> u8> FnBoxGeneric<u8> for F {
    open spec fn ready(&self) -> bool {
        call_requires(*self, ())
    }

    fn call_box(self: Box<F>) -> (r: Option<u8>)
        ensures
            r matches Some(v) && call_ensures(*self, (), v),
    {
        Some((*self)())
    }
}

impl<F: FnOnce() -> u16> FnBoxGeneric<u16> for F {
    open spec fn ready(&self) -> bool {
        call_requires(*self, ())
    }

    fn call_box(self: Box<F>) -> (r: Option<u16>)
        ensures
            r matches Some(v) && call_ensures(*self, (), v),
    {
        Some((*self)())
    }
}

impl<F: FnOnce() -> u32> FnBoxGeneric<u32> for F {
    open spec fn ready(&self) -> bool {
        call_requires(*self, ())
    }

    fn call_box(self: Box<F>) -> (r: Option<u32>)
        ensures
            r matches Some(v) && call_ensures(*self, (), v),
    {
        Some((*self)())
    }
}

impl<F: FnOnce() -> u64> FnBoxGeneric<u64> for F {
    open spec fn ready(&self) -> bool {
        call_requires(*self, ())
    }

    fn call_box(self: Box<F>) -> (r: Option<u64>)
        ensures
            r matches Some(v) && call_ensures(*self, (), v),
    {
        Some((*self)())
    }
}

impl<F: FnOnce() -> usize> FnBoxGeneric<usize> for F {
    open spec fn ready(&self) -> bool {
        call_requires(*self, ())
    }

    fn call_box(self: Box<F>) -> (r: Option<usize>)
        ensures
            r matches Some(v) && call_ensures(*self, (), v),
    {
        Some((*self)())
    }
}

impl<F: FnOnce() -> String> FnBoxGeneric<String> for F {
    open spec fn ready(&self) -> bool {
        call_requires(*self, ())
    }

    fn call_box(self: Box<F>) -> (r: Option<String>)
        ensures
            r matches Some(v) && call_ensures(*self, (), v),
    {
        Some((*self)())
    }
}

impl<F: FnOnce() -> Vec<u8>> FnBoxGeneric<Vec<u8>> for F {
    open spec fn ready(&self) -> bool {
        call_requires(*self, ())
    }

    fn call_box(self: Box<F>) -> (r: Option<Vec<u8>>)
        ensures
            r matches Some(v) && call_ensures(*self, (), v),
    {
        Some((*self)())
    }
}

/// A routine returning `i64` may be called through `call_box` exactly when
/// it may be called itself.
pub proof fn lemma_ready_i64<F: FnOnce() -> i64>(f: &F)
    ensures
        <F as FnBoxGeneric<i64>>::ready(f) == call_requires(*f, ()),
{
}

/// A routine returning `bool` may be called through `call_box` exactly when
/// it may be called itself.
pub proof fn lemma_ready_bool<F: FnOnce() -> bool>(f: &F)
    ensures
        <F as FnBoxGeneric<bool>>::ready(f) == call_requires(*f, ()),
{
}

/// A routine returning `char` may be called through `call_box` exactly when
/// it may be called itself.
pub proof fn lemma_ready_char<F: FnOnce() -> char>(f: &F)
    ensures
        <F as FnBoxGeneric<char>>::ready(f) == call_requires(*f, ()),
{
}

/// A routine returning `i32` may be called through `call_box` exactly when
/// it may be called itself.
pub proof fn lemma_ready_i32<F: FnOnce() -> i32>(f: &F)
    ensures
        <F as FnBoxGeneric<i32>>::ready(f) == call_requires(*f, ()),
{
}

/// A routine returning `i16` may be called through `call_box` exactly when
/// it may be called itself.
pub proof fn lemma_ready_i16<F: FnOnce() -> i16>(f: &F)
    ensures
        <F as FnBoxGeneric<i16>>::ready(f) == call_requires(*f, ()),
{
}

/// A routine returning `isize` may be called through `call_box` exactly when
/// it may be called itself.
pub proof fn lemma_ready_isize<F: FnOnce() -> isize>(f: &F)
    ensures
        <F as FnBoxGeneric<isize>>::ready(f) == call_requires(*f, ()),
{
}

/// A routine returning `u8` may be called through `call_box` exactly when
/// it may be called itself.
pub proof fn lemma_ready_u8<F: FnOnce() -> u8>(f: &F)
    ensures
        <F as FnBoxGeneric<u8>>::ready(f) == call_requires(*f, ()),
{
}

/// A routine returning `u16` may be called through `call_box` exactly when
/// it may be called itself.
pub proof fn lemma_ready_u16<F: FnOnce() -> u16>(f: &F)
    ensures
        <F as FnBoxGeneric<u16>>::ready(f) == call_requires(*f, ()),
{
}

/// A routine returning `u32` may be called through `call_box` exactly when
/// it may be called itself.
pub proof fn lemma_ready_u32<F: FnOnce() -> u32>(f: &F)
    ensures
        <F as FnBoxGeneric<u32>>::ready(f) == call_requires(*f, ()),
{
}

/// A routine returning `u64` may be called through `call_box` exactly when
/// it may be called itself.
pub proof fn lemma_ready_u64<F: FnOnce() -> u64>(f: &F)
    ensures
        <F as FnBoxGeneric<u64>>::ready(f) == call_requires(*f, ()),
{
}

/// A routine returning `usize` may be called through `call_box` exactly when
/// it may be called itself.
pub proof fn lemma_ready_usize<F: FnOnce() -> usize>(f: &F)
    ensures
        <F as FnBoxGeneric<usize>>::ready(f) == call_requires(*f, ()),
{
}

/// A routine returning `String` may be called through `call_box` exactly when
/// it may be called itself.
pub proof fn lemma_ready_string<F: FnOnce() -> String>(f: &F)
    ensures
        <F as FnBoxGeneric<String>>::ready(f) == call_requires(*f, ()),
{
}

/// A routine returning `Vec<u8>` may be called through `call_box` exactly when
/// it may be called itself.
pub proof fn lemma_ready_vec_u8<F: FnOnce() -> Vec<u8>>(f: &F)
    ensures
        <F as FnBoxGeneric<Vec<u8>>>::ready(f) == call_requires(*f, ()),
{
}

/// A routine returning `T` that can be sent to another thread and run there.
pub type ReturnableThunk<T> = Box<dyn FnBoxGeneric<T> + Send>;

} // verus!
