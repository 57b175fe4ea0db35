pub mod flow;
pub mod pool;
pub mod steal;
