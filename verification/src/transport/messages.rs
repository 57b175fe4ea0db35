//! Messages exchanged between the pool's owner, its master and its workers.

use vstd::prelude::*;

verus! {

/// A name for each kind of message.
pub trait TypeInfo {
    fn type_of(&self) -> &'static str;
}

/// Message type for general return values.
pub struct Message {
    pub thread_id: usize,
    pub msg: String,
}

impl TypeInfo for Message {
    fn type_of(&self) -> (r: &'static str)
        ensures
            r@ == "Message"@,
    {
        "Message"
    }
}

/// Steal instruction: the worker `thread_id` found its queue empty and asks
/// for work taken from another worker's queue.
#[derive(Clone, Copy, Debug, PartialEq, Eq, Structural)]
pub struct Steal {
    pub thread_id: usize,
}

impl TypeInfo for Steal {
    fn type_of(&self) -> (r: &'static str)
        ensures
            r@ == "stealer"@,
    {
        "stealer"
    }
}

/// Notice that the worker `thread_id` has ended and should be replaced.
#[derive(Clone, Copy, Debug, PartialEq, Eq, Structural)]
pub struct Terminated {
    pub thread_id: usize,
}

impl TypeInfo for Terminated {
    fn type_of(&self) -> (r: &'static str)
        ensures
            r@ == "terminated"@,
    {
        "terminated"
    }
}

/// Request to stop: sent by the owner to the master, and by the master to
/// each worker.
#[derive(Clone, Copy, Debug, PartialEq, Eq, Structural)]
pub struct Terminate {}

/// The signals that travel on the pool's signal channels.
#[derive(Clone, Copy, Debug, PartialEq, Eq, Structural)]
pub enum Signal {
    Terminate(Terminate),
    Steal(Steal),
    Terminated(Terminated),
}

impl Signal {
    /// The stop signal.
    pub fn terminate() -> (s: Signal)
        ensures
            s is Terminate,
    {
        Signal::Terminate(Terminate {})
    }

    /// A worker's request for work from another queue.
    pub fn steal(thread_id: usize) -> (s: Signal)
        ensures
            s == Signal::Steal(Steal { thread_id }),
    {
        Signal::Steal(Steal { thread_id })
    }

    /// A notice that a worker has ended.
    pub fn terminated(thread_id: usize) -> (s: Signal)
        ensures
            s == Signal::Terminated(Terminated { thread_id }),
    {
        Signal::Terminated(Terminated { thread_id })
    }
}

} // verus!
