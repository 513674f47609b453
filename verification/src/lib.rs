//! A deadlock-aware reader/writer synchronization core.
//!
//! The central piece is a queue-staged reader/writer lock: besides shared
//! reads and the exclusive write, a task may hold a *queue ticket*, a stage
//! in which it still shares a read view with other readers while being the
//! only task allowed to proceed to the exclusive write.  Every acquisition
//! is checked by a deadlock detector that tracks, per task, the one lock the
//! task is awaiting and the multiset of locks it holds, and refuses any
//! request that would close a wait cycle or re-enter a lock in an
//! incompatible mode.
//!
//! The lock state machines and the detector bookkeeping are plain data here,
//! driven synchronously; an asynchronous runtime drives them from the
//! outside by performing the suspensions the state machines ask for.

mod async_hash_map_once;
mod async_load_rw_lock;
mod async_once_cell;
mod counting;
mod deadlock;
mod error;
mod hash_map_once;
mod longlock;
mod primitives;
mod queue_rw_lock;
pub mod sync;

pub use counting::{count_matching, remove_first_matching};
pub use error::Error;
pub use primitives::ops::Ops;
pub use primitives::task::{entry_is, entry_on, HeldLock, Task, TaskView};
pub use primitives::lock_data::{holder_is, LockData, LockDataView};
pub use deadlock::{DeadlockDetector, DetectorView, with_deadlock_check, warn_lock_held, lemma_at_most_one_wait, lemma_acquire_release_round_trip, lemma_compatible_symmetric};
pub use queue_rw_lock::{QueueRwLock, QueueRwLockView, Attempt, in_sync, lemma_write_excludes_all, lemma_queue_exclusive, lemma_stage_free_implies_compatible, lemma_in_sync_frame, lemma_in_sync_add_hold, lemma_in_sync_release};
pub use async_once_cell::AsyncOnceCell;
pub use async_load_rw_lock::AsyncLoadRwLock;
pub use hash_map_once::{HashMapOnce, Drain, lookup, unique_keys, lemma_lookup_positive, lemma_lookup_at, lemma_lookup_push, lemma_lookup_update, lemma_lookup_remove};
pub use async_hash_map_once::{AsyncHashMapOnce, value_of, set_values};
pub use longlock::{LongLock, LONG_LOCK_MS};
