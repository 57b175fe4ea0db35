pub mod thunk;
