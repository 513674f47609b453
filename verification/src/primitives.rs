pub mod lock_data;
pub mod ops;
pub mod task;
