//! The bounded progress channel between the engine and the observer.
//!
//! The queue itself comes from the `flume` crate; its two ends are shared
//! across the concurrency boundary, so nothing about its contents can be a
//! function of one handle alone. The wrappers therefore state only what holds
//! of every outcome of a call; FIFO delivery and the capacity bound are what
//! `flume` provides and the crate's tests exercise end to end.

use vstd::prelude::*;
use crate::progress::Progress;

verus! {

/// flume's transmitting channel end, opaque to verification.
#[verifier::external_type_specification]
#[verifier::external_body]
#[verifier::reject_recursive_types(T)]
pub struct ExSender<T>(flume::Sender<T>);

/// flume's receiving channel end, opaque to verification.
#[verifier::external_type_specification]
#[verifier::external_body]
#[verifier::reject_recursive_types(T)]
pub struct ExReceiver<T>(flume::Receiver<T>);

/// Relies on `flume::bounded`: creates a FIFO queue of the given capacity
/// and returns its sending and receiving ends.
#[verifier::external_body]
pub(crate) fn bounded_channel(cap: usize) -> (r: (flume::Sender<Progress>, flume::Receiver<Progress>)) {
    flume::bounded(cap)
}

/// Relies on `flume::Sender::send`: delivers the value into the queue in the
/// order sent, blocking while the queue is full, and fails — handing the
/// undelivered value back — exactly when every receiver has been dropped.
#[verifier::external_body]
pub(crate) fn send_progress(tx: &flume::Sender<Progress>, p: Progress) -> (r: Result<(), Progress>)
    ensures
        r matches Err(q) ==> q == p,
{
    match tx.send(p) {
        Ok(()) => Ok(()),
        Err(e) => Err(e.0),
    }
}

/// Relies on `flume::Receiver::recv`: blocks until a value arrives, handing
/// values out in the order sent, and returns `None` exactly when every sender
/// has been dropped and the queue has been drained.
#[verifier::external_body]
pub(crate) fn recv_progress(rx: &flume::Receiver<Progress>) -> (r: Option<Progress>) {
    match rx.recv() {
        Ok(p) => Some(p),
        Err(flume::RecvError::Disconnected) => None,
    }
}

} // verus!
