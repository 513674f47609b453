pub mod async_mutex;
pub mod async_rwlock;
pub mod mutex;
pub mod rwlock;
