//! The overwrite engine: a step machine that decides every file operation of
//! a multi-pass secure erase and emits throttled progress events.
//!
//! The machine owns all of the logic — pass accounting, chunk sizing, the
//! throttled emission policy, the order write / sync / remove — while its
//! driver performs the actual file operations and reports each outcome back
//! as an [`Event`]. Channel emissions the machine performs itself, against
//! the sender it is handed. A ghost trace records every event delivered, so
//! the guarantees about the observed sequence are stated and proved here.

use vstd::prelude::*;
use vstd::arithmetic::div_mod::{
    lemma_div_is_ordered, lemma_fundamental_div_mod, lemma_fundamental_div_mod_converse_div,
};
use vstd::arithmetic::mul::{lemma_mul_basics, lemma_mul_inequality, lemma_mul_is_distributive_add_other_way, lemma_mul_strictly_positive};
use crate::channel::send_progress;
use crate::progress::{frac_of, lemma_frac_bounds, lemma_frac_monotone, progress_fraction, Progress, FULL};

verus! {

/// The next file operation the driver must perform for the machine.
#[derive(Debug)]
pub enum Action {
    /// Open the target file for reading and writing and report its size.
    Open,
    /// Seek to the start of the file.
    Seek,
    /// Write this buffer of fresh random bytes at the current position.
    Write(Vec<u8>),
    /// Flush everything written so far to persistent storage.
    Sync,
    /// Remove the file's directory entry.
    Remove,
    /// The job is over; no further operation will be requested.
    Done,
}

/// The driver's report on the operation it was last asked to perform.
#[derive(Clone, Copy, Debug)]
pub enum Event {
    /// The file was opened; the payload is its size in bytes.
    Opened(u64),
    /// The requested operation succeeded.
    Succeeded,
    /// The requested operation failed.
    Failed,
}

/// Which operation is in flight; `Done` carries the job's overall outcome.
#[derive(Clone, Copy, Debug, PartialEq, Eq, Structural)]
pub enum Phase {
    Opening,
    Seeking,
    Writing,
    Syncing,
    Removing,
    Done(bool),
}

/// The engine's state for one erase job.
pub struct Engine {
    /// Number of overwrite passes the job was asked for (at least one).
    pub passes: u32,
    /// Size of the file in bytes, known once it has been opened.
    pub file_size: u64,
    /// Passes fully written *and flushed to storage* so far.
    pub pass: u32,
    /// Bytes still to be written in the current pass.
    pub remaining: u64,
    /// Bytes written over all passes together.
    pub completed: u128,
    /// Buffer writes acknowledged so far, over all passes.
    pub chunks: u128,
    /// The operation in flight.
    pub phase: Phase,
    /// Trace of the `Updated` fractions delivered to the channel, in order.
    pub emitted: Ghost<Seq<u32>>,
    /// The `Finished` value delivered to the channel, if any.
    pub finished: Ghost<Option<bool>>,
    /// Whether the `Remove` operation has been acknowledged.
    pub removed: Ghost<bool>,
}

/// A sequence of fractions that never steps down.
pub open spec fn non_decreasing(s: Seq<u32>) -> bool {
    forall|i: int, j: int| 0 <= i <= j < s.len() ==> s[i] <= s[j]
}

/// Length of the next buffer write: a full 4096-byte buffer, or the tail of
/// the pass if less is left.
pub open spec fn chunk_of(remaining: u64) -> int {
    if remaining < 4096 {
        remaining as int
    } else {
        4096
    }
}

impl Engine {
    /// Total bytes the whole job writes: `passes * file_size`.
    pub open spec fn total(self) -> int {
        self.passes * self.file_size
    }

    /// Buffer writes one pass takes: `ceil(file_size / 4096)`.
    pub open spec fn per_pass(self) -> int {
        (self.file_size + 4095) / 4096
    }

    /// The emission policy relating the trace to the write counter: one
    /// `Updated` event per 100 acknowledged writes, values within bounds,
    /// never stepping down, and never ahead of the work completed.
    pub open spec fn trace_wf(self) -> bool {
        &&& non_decreasing(self.emitted@)
        &&& forall|i: int| 0 <= i < self.emitted@.len() ==> self.emitted@[i] <= 10000
        &&& self.emitted@.len() == self.chunks / 100
        &&& self.emitted@.len() > 0 ==> self.emitted@.last() <= frac_of(
            self.completed as int,
            self.total(),
        )
    }

    /// Well-formedness: what holds of the machine in every reachable state.
    pub open spec fn wf(self) -> bool {
        &&& self.passes >= 1
        &&& non_decreasing(self.emitted@)
        &&& forall|i: int| 0 <= i < self.emitted@.len() ==> self.emitted@[i] <= 10000
        &&& match self.phase {
            Phase::Opening => {
                &&& self.file_size == 0
                &&& self.pass == 0
                &&& self.remaining == 0
                &&& self.completed == 0
                &&& self.chunks == 0
                &&& self.emitted@.len() == 0
                &&& self.finished@ is None
                &&& !self.removed@
            },
            Phase::Seeking => {
                &&& 0 < self.file_size
                &&& self.pass < self.passes
                &&& self.remaining == self.file_size
                &&& self.chunks == self.pass * self.per_pass()
                &&& self.completed == self.pass * self.file_size
                &&& self.trace_wf()
                &&& self.finished@ is None
                &&& !self.removed@
            },
            Phase::Writing => {
                &&& 0 < self.file_size
                &&& self.pass < self.passes
                &&& 0 < self.remaining <= self.file_size
                &&& self.pass * self.per_pass() <= self.chunks
                &&& self.file_size - self.remaining == (self.chunks - self.pass * self.per_pass())
                    * 4096
                &&& self.completed == self.pass * self.file_size + (self.file_size
                    - self.remaining)
                &&& self.trace_wf()
                &&& self.finished@ is None
                &&& !self.removed@
            },
            Phase::Syncing => {
                &&& 0 < self.file_size
                &&& self.pass < self.passes
                &&& self.remaining == 0
                &&& self.chunks == (self.pass + 1) * self.per_pass()
                &&& self.completed == (self.pass + 1) * self.file_size
                &&& self.trace_wf()
                &&& self.finished@ is None
                &&& !self.removed@
            },
            Phase::Removing => {
                &&& self.finished@ is None
                &&& !self.removed@
                &&& self.remaining == 0
                &&& if self.file_size == 0 {
                    self.pass == 0 && self.chunks == 0 && self.completed == 0
                        && self.emitted@.len() == 0
                } else {
                    &&& self.pass == self.passes
                    &&& self.chunks == self.passes * self.per_pass()
                    &&& self.completed == self.total()
                    &&& self.trace_wf()
                }
            },
            Phase::Done(ok) => {
                &&& (self.finished@ matches Some(b) ==> b == ok)
                &&& (ok ==> {
                    &&& self.removed@
                    &&& self.emitted@.len() > 0
                    &&& self.emitted@.last() == 10000
                    &&& (self.file_size == 0 ==> self.chunks == 0 && self.emitted@ == seq![
                        10000u32,
                    ])
                    &&& (self.file_size > 0 ==> self.chunks == self.passes * self.per_pass()
                        && self.emitted@.len() == self.chunks / 100 + 1)
                })
            },
        }
    }

    /// Creates the machine for one job; the driver must perform the returned
    /// first action, opening the file.
    pub fn new(passes: u32) -> (r: (Engine, Action))
        requires
            1 <= passes,
        ensures
            r.0.wf(),
            r.0.phase == Phase::Opening,
            r.0.passes == passes,
            r.0.emitted@ == Seq::<u32>::empty(),
            r.1 is Open,
    {
        let e = Engine {
            passes,
            file_size: 0,
            pass: 0,
            remaining: 0,
            completed: 0,
            chunks: 0,
            phase: Phase::Opening,
            emitted: Ghost(Seq::empty()),
            finished: Ghost(None),
            removed: Ghost(false),
        };
        (e, Action::Open)
    }

    /// Feeds the outcome of the last operation to the machine and hands the
    /// driver the next one. Every 100th acknowledged write emits a throttled
    /// `Updated` event; after the remove, the machine emits the final
    /// `Updated(FULL)` and the terminal `Finished`. A `Failed` report — or a
    /// send on a channel whose receiver is gone — ends the job with outcome
    /// `false` after a (possibly vain) attempt to report `Finished(false)`.
    #[verifier::rlimit(60)]
    pub fn step(&mut self, tx: &flume::Sender<Progress>, ev: Event) -> (a: Action)
        requires
            old(self).wf(),
            !(old(self).phase is Done),
            ev is Opened ==> old(self).phase is Opening,
            ev is Succeeded ==> !(old(self).phase is Opening),
        ensures
            final(self).wf(),
            final(self).passes == old(self).passes,
            old(self).emitted@.is_prefix_of(final(self).emitted@),
            a is Done <==> final(self).phase is Done,
            a is Seek <==> final(self).phase is Seeking,
            a matches Action::Write(_) <==> final(self).phase is Writing,
            a is Sync <==> final(self).phase is Syncing,
            a is Remove <==> final(self).phase is Removing,
            !(final(self).phase is Opening),
            a matches Action::Write(buf) ==> buf@.len() == chunk_of(final(self).remaining)
                && buf@.len() > 0,
            ev is Failed ==> final(self).phase == Phase::Done(false) && final(self).emitted@
                == old(self).emitted@ && final(self).chunks == old(self).chunks,
            ev matches Event::Opened(size) ==> {
                &&& final(self).file_size == size
                &&& (size == 0 ==> final(self).phase is Removing)
                &&& (size > 0 ==> final(self).phase is Seeking && final(self).pass == 0)
                &&& final(self).emitted@ == old(self).emitted@
            },
            ev is Succeeded ==> final(self).file_size == old(self).file_size,
            old(self).phase is Seeking && ev is Succeeded ==> final(self).phase is Writing && final(self).chunks == old(self).chunks && final(self).completed == old(self).completed && final(self).remaining == old(self).remaining && final(self).emitted@ == old(self).emitted@,
            old(self).phase is Writing && ev is Succeeded ==> {
                &&& final(self).chunks == old(self).chunks + 1
                &&& final(self).completed == old(self).completed + chunk_of(old(self).remaining)
                &&& (!(final(self).phase is Done) ==> final(self).remaining == old(self).remaining
                    - chunk_of(old(self).remaining) && final(self).pass == old(self).pass)
                &&& (!(final(self).phase is Done) && final(self).chunks % 100 == 0 ==> final(self).emitted@ == old(self).emitted@.push(
                    frac_of(final(self).completed as int, old(self).total()) as u32,
                ))
                &&& (!(final(self).phase is Done) && final(self).chunks % 100 != 0 ==> final(self).emitted@ == old(self).emitted@)
                &&& (final(self).phase is Done ==> final(self).phase == Phase::Done(false)
                    && final(self).emitted@ == old(self).emitted@)
            },
            old(self).phase is Syncing && ev is Succeeded ==> {
                &&& final(self).pass == old(self).pass + 1
                &&& final(self).chunks == old(self).chunks
                &&& final(self).completed == old(self).completed
                &&& final(self).emitted@ == old(self).emitted@
                &&& (final(self).phase is Seeking <==> old(self).pass + 1 < old(self).passes)
                &&& (final(self).phase is Removing <==> old(self).pass + 1 == old(self).passes)
            },
            old(self).phase is Removing && ev is Succeeded ==> {
                &&& final(self).phase is Done
                &&& final(self).removed@
                &&& final(self).chunks == old(self).chunks
                &&& (final(self).phase == Phase::Done(true) ==> final(self).emitted@ == old(self).emitted@.push(10000u32))
                &&& (final(self).phase == Phase::Done(false) ==> final(self).emitted@ == old(self).emitted@)
            },
    {
        let a = match ev {
            Event::Failed => self.give_up(tx),
            Event::Opened(size) => {
                if size == 0 {
                    self.phase = Phase::Removing;
                    Action::Remove
                } else {
                    self.file_size = size;
                    self.remaining = size;
                    self.phase = Phase::Seeking;
                    proof {
                        lemma_mul_basics(self.per_pass());
                        lemma_mul_basics(self.file_size as int);
                        assert(self.wf());
                    }
                    Action::Seek
                }
            },
            Event::Succeeded => {
                match self.phase {
                    Phase::Seeking => {
                        self.phase = Phase::Writing;
                        let len = chunk_len(self.remaining);
                        Action::Write(random_chunk(len))
                    },
                    Phase::Writing => self.on_write_ok(tx),
                    Phase::Syncing => {
                        self.pass = self.pass + 1;
                        if self.pass < self.passes {
                            self.remaining = self.file_size;
                            self.phase = Phase::Seeking;
                            Action::Seek
                        } else {
                            self.phase = Phase::Removing;
                            Action::Remove
                        }
                    },
                    Phase::Removing => self.on_removed(tx),
                    Phase::Opening | Phase::Done(_) => {
                        proof {
                            assert(false);
                        }
                        Action::Done
                    },
                }
            },
        };
        proof {
            assert(self.wf());
        }
        a
    }

    /// The failure path: the job is over with outcome `false`; `Finished` is
    /// still attempted so an observer never waits forever, though the attempt
    /// itself may be in vain if the channel is fully gone.
    fn give_up(&mut self, tx: &flume::Sender<Progress>) -> (a: Action)
        requires
            old(self).passes >= 1,
            non_decreasing(old(self).emitted@),
            forall|i: int| 0 <= i < old(self).emitted@.len() ==> old(self).emitted@[i] <= 10000,
            old(self).finished@ is None,
        ensures
            final(self).wf(),
            final(self).passes == old(self).passes,
            final(self).file_size == old(self).file_size,
            final(self).pass == old(self).pass,
            final(self).remaining == old(self).remaining,
            final(self).completed == old(self).completed,
            final(self).chunks == old(self).chunks,
            final(self).emitted@ == old(self).emitted@,
            final(self).removed@ == old(self).removed@,
            final(self).phase == Phase::Done(false),
            a is Done,
    {
        self.phase = Phase::Done(false);
        let r = send_progress(tx, Progress::Finished(false));
        if r.is_ok() {
            proof {
                self.finished@ = Some(false);
            }
        }
        Action::Done
    }

    /// A write acknowledgement: advance the counters, emit a throttled
    /// update on every 100th write, and decide between the next write of
    /// this pass and the pass-ending flush.
    fn on_write_ok(&mut self, tx: &flume::Sender<Progress>) -> (a: Action)
        requires
            old(self).wf(),
            old(self).phase is Writing,
        ensures
            final(self).wf(),
            final(self).passes == old(self).passes,
            final(self).file_size == old(self).file_size,
            old(self).emitted@.is_prefix_of(final(self).emitted@),
            final(self).chunks == old(self).chunks + 1,
            final(self).completed == old(self).completed + chunk_of(old(self).remaining),
            a is Done <==> final(self).phase is Done,
            a matches Action::Write(_) <==> final(self).phase is Writing,
            a is Sync <==> final(self).phase is Syncing,
            final(self).phase is Writing || final(self).phase is Syncing || final(self).phase
                is Done,
            a matches Action::Write(buf) ==> buf@.len() == chunk_of(final(self).remaining)
                && buf@.len() > 0,
            !(final(self).phase is Done) ==> final(self).remaining == old(self).remaining
                - chunk_of(old(self).remaining) && final(self).pass == old(self).pass,
            !(final(self).phase is Done) && final(self).chunks % 100 == 0 ==> final(self).emitted@
                == old(self).emitted@.push(
                frac_of(final(self).completed as int, old(self).total()) as u32,
            ),
            !(final(self).phase is Done) && final(self).chunks % 100 != 0 ==> final(self).emitted@
                == old(self).emitted@,
            final(self).phase is Done ==> final(self).phase == Phase::Done(false) && final(self).emitted@ == old(self).emitted@,
    {
        proof {
            lemma_counters_fit(*self);
        }
        let l = chunk_len(self.remaining);
        let ghost prev = *self;
        self.remaining = self.remaining - l;
        self.completed = self.completed + l as u128;
        self.chunks = self.chunks + 1;
        proof {
            lemma_step_div100(prev.chunks as int);
            lemma_mul_is_distributive_add_other_way(self.file_size as int, self.pass as int, 1);
            lemma_mul_inequality(
                self.pass as int + 1,
                self.passes as int,
                self.file_size as int,
            );
            lemma_mul_strictly_positive(self.passes as int, self.file_size as int);
            lemma_frac_monotone(prev.completed as int, self.completed as int, self.total());
            if self.remaining == 0 {
                // the short (or exactly full) tail write completes the pass
                lemma_tail_chunk_completes_pass(
                    self.file_size as int,
                    prev.chunks as int - prev.pass * prev.per_pass(),
                    prev.remaining as int,
                );
                lemma_mul_is_distributive_add_other_way(
                    self.per_pass(),
                    self.pass as int,
                    1,
                );
            }
        }
        if self.chunks % 100 == 0 {
            let total = total_work(self.passes, self.file_size);
            proof {
                lemma_frac_bounds(self.completed as int, self.total());
            }
            let f = progress_fraction(self.completed, total);
            match send_progress(tx, Progress::Updated(f)) {
                Ok(_) => {
                    proof {
                        lemma_push_non_decreasing(self.emitted@, f);
                        self.emitted@ = self.emitted@.push(f);
                    }
                },
                Err(_) => {
                    return self.give_up(tx);
                },
            }
        }
        if self.remaining > 0 {
            self.phase = Phase::Writing;
            let len = chunk_len(self.remaining);
            Action::Write(random_chunk(len))
        } else {
            self.phase = Phase::Syncing;
            Action::Sync
        }
    }

    /// The remove acknowledgement: the data has been overwritten `passes`
    /// times, each pass flushed, and the directory entry is gone. Emit the
    /// mandatory final `Updated(FULL)` and then the terminal `Finished`;
    /// a channel failure on the way turns the reported outcome to `false`.
    fn on_removed(&mut self, tx: &flume::Sender<Progress>) -> (a: Action)
        requires
            old(self).wf(),
            old(self).phase is Removing,
        ensures
            final(self).wf(),
            final(self).passes == old(self).passes,
            final(self).file_size == old(self).file_size,
            final(self).chunks == old(self).chunks,
            old(self).emitted@.is_prefix_of(final(self).emitted@),
            final(self).phase is Done,
            final(self).removed@,
            final(self).phase == Phase::Done(true) ==> final(self).emitted@ == old(self).emitted@.push(10000u32),
            final(self).phase == Phase::Done(false) ==> final(self).emitted@ == old(self).emitted@,
            a is Done,
    {
        proof {
            self.removed@ = true;
        }
        match send_progress(tx, Progress::Updated(FULL)) {
            Ok(_) => {
                proof {
                    lemma_push_non_decreasing(self.emitted@, FULL);
                    self.emitted@ = self.emitted@.push(FULL);
                    if self.file_size == 0 {
                        assert(self.emitted@ =~= seq![10000u32]);
                    }
                }
                self.phase = Phase::Done(true);
                let r = send_progress(tx, Progress::Finished(true));
                if r.is_ok() {
                    proof {
                        self.finished@ = Some(true);
                    }
                }
                Action::Done
            },
            Err(_) => {
                // the observer is gone; the erase itself succeeded, but per
                // the failure policy a broken progress sink fails the job
                self.phase = Phase::Done(false);
                let r = send_progress(tx, Progress::Finished(false));
                if r.is_ok() {
                    proof {
                        self.finished@ = Some(false);
                    }
                }
                Action::Done
            },
        }
    }
}

/// Length of the next buffer write for the bytes still to be written.
fn chunk_len(remaining: u64) -> (l: u64)
    requires
        remaining > 0,
    ensures
        l == chunk_of(remaining),
        0 < l <= 4096,
{
    if remaining < 4096 {
        remaining
    } else {
        4096
    }
}

/// `passes * file_size`, the denominator of every progress fraction.
fn total_work(passes: u32, file_size: u64) -> (t: u128)
    ensures
        t == passes * file_size,
        t <= 0x1_0000_0000_0000_0000_0000_0000,
{
    proof {
        lemma_total_bound(passes as int, file_size as int);
    }
    (passes as u128) * (file_size as u128)
}

/// A buffer of `len` fresh random bytes.
fn random_chunk(len: u64) -> (r: Vec<u8>)
    requires
        len <= 4096,
    ensures
        r@.len() == len,
{
    let mut buf: Vec<u8> = Vec::new();
    let mut i: u64 = 0;
    while i < len
        invariant
            buf@.len() == i,
            i <= len,
        decreases len - i,
    {
        buf.push(0u8);
        i = i + 1;
    }
    fill_random(&mut buf);
    buf
}

/// Relies on `rand::thread_rng` and `rand::Rng::fill`: overwrites every byte
/// of the slice with a fresh random byte, leaving the length unchanged.
#[verifier::external_body]
fn fill_random(buf: &mut Vec<u8>)
    ensures
        final(buf)@.len() == old(buf)@.len(),
{
    rand::Rng::fill(&mut rand::thread_rng(), buf.as_mut_slice());
}

/// `passes * file_size` stays well within `u128` (and within the bound the
/// fraction arithmetic asks for) for any `u32` pass count and `u64` size.
proof fn lemma_total_bound(passes: int, size: int)
    requires
        0 <= passes <= 0xFFFF_FFFF,
        0 <= size <= 0xFFFF_FFFF_FFFF_FFFF,
    ensures
        0 <= passes * size <= 0x1_0000_0000_0000_0000_0000_0000,
{
    assert(0 <= passes * size <= 0x1_0000_0000_0000_0000_0000_0000) by (nonlinear_arith)
        requires
            0 <= passes <= 0xFFFF_FFFF,
            0 <= size <= 0xFFFF_FFFF_FFFF_FFFF,
    ;
}

/// The counters of a well-formed writing machine have room to advance.
proof fn lemma_counters_fit(e: Engine)
    requires
        e.wf(),
        e.phase is Writing,
    ensures
        e.completed + chunk_of(e.remaining) <= e.total() <= u128::MAX,
        e.chunks + 1 <= e.passes * e.per_pass() <= u128::MAX,
{
    lemma_total_bound(e.passes as int, e.file_size as int);
    lemma_mul_is_distributive_add_other_way(e.file_size as int, e.pass as int, 1);
    lemma_mul_inequality(e.pass as int + 1, e.passes as int, e.file_size as int);
    assert(e.completed + chunk_of(e.remaining) <= (e.pass + 1) * e.file_size);
    // one more write never outruns the per-pass chunk budget
    let ctp = e.chunks - e.pass * e.per_pass();
    lemma_chunks_below_budget(e.file_size as int, ctp, e.remaining as int);
    lemma_mul_is_distributive_add_other_way(e.per_pass(), e.pass as int, 1);
    lemma_mul_inequality(e.pass as int + 1, e.passes as int, e.per_pass());
    assert(e.passes * e.per_pass() <= 0xFFFF_FFFF * 0x10_0000_0000_0000) by (nonlinear_arith)
        requires
            0 <= e.passes <= 0xFFFF_FFFF,
            0 <= e.per_pass() <= 0x10_0000_0000_0000,
    ;
    assert(e.per_pass() <= 0x10_0000_0000_0000) by {
        lemma_div_is_ordered(
            e.file_size + 4095,
            0xFFFF_FFFF_FFFF_FFFFint + 4095,
            4096,
        );
    }
}

/// During a pass, the writes already acknowledged stay strictly below the
/// pass's chunk budget.
proof fn lemma_chunks_below_budget(size: int, ctp: int, rem: int)
    requires
        0 < rem <= size,
        size - rem == ctp * 4096,
        0 <= ctp,
    ensures
        ctp + 1 <= (size + 4095) / 4096,
{
    lemma_fundamental_div_mod(size + 4095, 4096);
    let q = (size + 4095) / 4096;
    let r = (size + 4095) % 4096;
    assert(ctp * 4096 <= size - 1);
    assert(q * 4096 + r == size + 4095);
    assert(q * 4096 >= size);
    if q < ctp + 1 {
        assert(q <= ctp);
        lemma_mul_inequality(q, ctp, 4096);
        assert(q * 4096 <= ctp * 4096);
        assert(false);
    }
}

/// A tail write of at most a full buffer finishes the pass exactly at the
/// pass's chunk budget: `ctp + 1 == ceil(size / 4096)`.
proof fn lemma_tail_chunk_completes_pass(size: int, ctp: int, rem: int)
    requires
        0 < rem <= 4096,
        0 <= ctp,
        size - rem == ctp * 4096,
    ensures
        ctp + 1 == (size + 4095) / 4096,
{
    assert(size + 4095 == (ctp + 1) * 4096 + (rem - 1)) by (nonlinear_arith)
        requires
            size - rem == ctp * 4096,
    ;
    lemma_fundamental_div_mod_converse_div(size + 4095, 4096, ctp + 1, rem - 1);
}

/// How `n / 100` moves when `n` steps by one.
proof fn lemma_step_div100(n: int)
    requires
        0 <= n,
    ensures
        (n + 1) % 100 == 0 ==> (n + 1) / 100 == n / 100 + 1,
        (n + 1) % 100 != 0 ==> (n + 1) / 100 == n / 100,
{
    lemma_fundamental_div_mod(n + 1, 100);
    lemma_fundamental_div_mod(n, 100);
    let q = n / 100;
    let r = n % 100;
    if r == 99 {
        lemma_fundamental_div_mod_converse_div(n + 1, 100, q + 1, 0);
    } else {
        lemma_fundamental_div_mod_converse_div(n + 1, 100, q, r + 1);
    }
}

/// Appending a value at least as large as the last keeps a trace
/// non-decreasing.
proof fn lemma_push_non_decreasing(s: Seq<u32>, v: u32)
    requires
        non_decreasing(s),
        s.len() > 0 ==> s.last() <= v,
    ensures
        non_decreasing(s.push(v)),
{
    let t = s.push(v);
    assert forall|i: int, j: int| 0 <= i <= j < t.len() implies t[i] <= t[j] by {
        if j < s.len() {
            assert(s[i] <= s[j]);
        } else if i < s.len() {
            assert(s[i] <= s[s.len() - 1]);
        }
    }
}

} // verus!

