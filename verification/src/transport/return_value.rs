//! A universal return value for wrapping messages.

use vstd::prelude::*;

verus! {

/// Any value that a worker hands back to the pool's owner.
pub type ReturnValue = Box<dyn std::any::Any + Send>;

/// The message a worker sends back when a task has run.
pub struct ReturnMessage<V> {
    pub success: bool,
    pub message: V,
}

impl<V> ReturnMessage<V> {
    /// A message that reports a task which ran and produced `message`.
    pub fn completed(message: V) -> (r: Self)
        ensures
            r.success,
            r.message == message,
    {
        ReturnMessage { success: true, message }
    }
}

} // verus!
