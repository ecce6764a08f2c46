//! A combining mutex, and the pool of opaque random-number states that it
//! guards, with their behaviour proved.
//!
//! The lock hands the datum it protects to functions: a caller that finds
//! the lock free runs its function itself, every other caller enqueues a
//! node and lets the combiner, the caller at the head of the queue, run the
//! function for it.  A panic under the lock poisons it and is passed on to
//! everybody who waits.
//!
//! The protocol has two halves.  A participant's own half is its [`frame`]:
//! it names the access to the shared words that comes next and decides on
//! what the access found.  The other half is whoever holds the shared words
//! and performs the accesses.  Here that is the [`queue`], which keeps every
//! shared word in a plain field and takes one step of one participant for
//! each call, so that any interleaving can be played through and the
//! invariant of the protocol is proved of all of them in [`laws`].  A
//! binding for threads performs the same accesses by atomic instructions
//! and lets the same frames decide.  Where an operation would park its
//! caller until somebody else acts, the step returns and says that it is to
//! be called again.
//!
//! The [`pool`] carves blocks of mapped pages into states and keeps books on
//! which state is free and which is rented; mapping the pages and calling
//! the kernel's function are left to the caller, who hands in what they
//! gave.

pub mod auxv;
pub mod bomb;
pub mod config;
pub mod error;
pub mod frame;
pub mod freelist;
pub mod futex;
pub mod lambda;
pub mod laws;
pub mod local_state;
pub mod lock;
pub mod node;
pub mod pool;
pub mod protocol;
pub mod queue;
pub mod rawlock;
pub mod utils;
pub mod vdso;

pub use error::Error;
pub use local_state::LocalState;
pub use lock::Lock;
pub use pool::Pool;
pub use rawlock::{LockNotPoisoned, LockPoisoned, LockResult, RawLock};
