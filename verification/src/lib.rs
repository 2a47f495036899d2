//! Secure single-file erasure.
//!
//! The crate destroys the content of one regular file by overwriting it with
//! random data over several passes, flushing each pass to persistent storage,
//! and finally unlinking the directory entry, while streaming progress events
//! to an observer over a bounded channel.
//!
//! The overwrite engine is a step machine ([`engine::Engine`]): it decides, in
//! verified code, which file operation comes next and when a progress event is
//! emitted, while the caller performs the actual file I/O and reports each
//! outcome back. The coordinator ([`coordinator::Coordinator`]) owns the
//! single-job state machine on the observing side: it guards against starting
//! a second job while one is running and turns the channel into a pull-style
//! sequence of events.

pub mod channel;
pub mod coordinator;
pub mod engine;
pub mod laws;
pub mod progress;

pub use progress::Progress;
