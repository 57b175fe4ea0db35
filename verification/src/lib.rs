//! A pool of worker threads that run boxed thunks.
//!
//! The verified part of the crate is what the pool decides: which worker an
//! incoming task goes to, which queue an idle worker steals from, when a
//! worker or the master stops, which pool sizes are accepted, and what a
//! boxed thunk hands back when it is called.

pub mod threading;
pub mod threadpooling;
pub mod transport;
