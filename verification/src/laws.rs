//! The guarantees the erase machinery gives about every observed event
//! stream, proved once and for all over the engine's ghost trace.

use vstd::prelude::*;
use crate::engine::{non_decreasing, Engine, Phase};

verus! {

/// After a successful erase the path no longer exists: a machine can only
/// reach the successful terminal state once the remove of the directory
/// entry has been acknowledged, whatever the file size and pass count were.
pub proof fn lemma_success_implies_removed(e: Engine)
    requires
        e.wf(),
        e.phase == Phase::Done(true),
    ensures
        e.removed@,
{
}

/// An empty file sees no write at all and exactly one `Updated` event, at
/// 100%, before the successful finish.
pub proof fn lemma_empty_file_events(e: Engine)
    requires
        e.wf(),
        e.phase == Phase::Done(true),
        e.file_size == 0,
    ensures
        e.chunks == 0,
        e.emitted@ =~= seq![10000u32],
{
}

/// Whatever the throttling skipped, the last `Updated` value a successful
/// job delivers is always 100%.
pub proof fn lemma_final_update_is_full(e: Engine)
    requires
        e.wf(),
        e.phase == Phase::Done(true),
    ensures
        e.emitted@.len() > 0,
        e.emitted@.last() == 10000,
{
}

/// The `Updated` fractions of a single job never step down, and never
/// exceed 100%.
pub proof fn lemma_updates_monotone(e: Engine)
    requires
        e.wf(),
    ensures
        non_decreasing(e.emitted@),
        forall|i: int| 0 <= i < e.emitted@.len() ==> e.emitted@[i] <= 10000,
{
}

/// `Finished` is terminal: while the machine still has work in flight no
/// `Finished` has been delivered, so the one `Finished` the machine sends on
/// reaching `Done` is always the stream's last event — and its payload
/// matches the job's outcome.
pub proof fn lemma_finished_is_last_and_unique(e: Engine, b: bool)
    requires
        e.wf(),
        e.finished@ == Some(b),
    ensures
        e.phase is Done,
        e.phase == Phase::Done(b),
{
    match e.phase {
        Phase::Done(_) => {},
        _ => {
            assert(false);
        },
    }
}

/// The flush-before-next-pass discipline: whenever the machine asks for a
/// write or a seek, every earlier pass has been fully written and its flush
/// acknowledged — `pass` counts exactly the flushed passes, and the bytes
/// written beyond them stay confined to the one current pass.
pub proof fn lemma_pass_flushed_before_next(e: Engine)
    requires
        e.wf(),
        e.phase is Seeking || e.phase is Writing,
    ensures
        e.pass < e.passes,
        e.pass * e.file_size <= e.completed <= (e.pass + 1) * e.file_size,
{
    vstd::arithmetic::mul::lemma_mul_is_distributive_add_other_way(
        e.file_size as int,
        e.pass as int,
        1,
    );
}

/// A successful job on a non-empty file performs exactly
/// `passes * ceil(file_size / 4096)` buffer writes and delivers one
/// throttled `Updated` event per 100 of them, plus the mandatory final one.
pub proof fn lemma_write_and_event_count(e: Engine)
    requires
        e.wf(),
        e.phase == Phase::Done(true),
        e.file_size > 0,
    ensures
        e.chunks == e.passes * ((e.file_size + 4095) / 4096),
        e.emitted@.len() == e.chunks / 100 + 1,
{
}

} // verus!
