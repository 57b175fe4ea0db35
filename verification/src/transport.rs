pub mod messages;
pub mod return_value;
pub mod thunk;
