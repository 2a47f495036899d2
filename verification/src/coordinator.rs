//! The observing side of an erase job: the single-job state machine that
//! guards job starts, owns the receiving end of the progress channel, and
//! turns the pushed event stream into a pull-style sequence.

use vstd::prelude::*;
use crate::channel::{bounded_channel, recv_progress};
use crate::progress::Progress;

verus! {

/// Overwrite passes every job performs: the fixed policy value.
pub const PASSES: u32 = 3;

/// Capacity of the bounded progress queue between engine and observer;
/// sized generously so the engine rarely blocks on a slow consumer.
pub const QUEUE_CAPACITY: usize = 1000;

/// Everything a freshly granted job needs: the worker runs the engine on
/// `path` for `passes` passes and emits into `sender`, whose receiving end
/// the coordinator keeps.
pub struct EraseRequest {
    /// Path of the file to destroy.
    pub path: String,
    /// Number of overwrite passes to perform.
    pub passes: u32,
    /// The producing end of the job's progress queue.
    pub sender: flume::Sender<Progress>,
}

/// The single-job state on the observing side. At most one erase runs at a
/// time: `erasing` is the guard, and `receiver` holds the consuming end of
/// the running job's queue, discarded and replaced on the next job.
pub struct Coordinator {
    /// Path of the currently selected file.
    pub file: String,
    /// Last displayed fraction, in hundredths of a percent.
    pub progress: u32,
    /// Whether a job is currently running.
    pub erasing: bool,
    /// The consuming end of the running job's queue, if any.
    pub receiver: Option<flume::Receiver<Progress>>,
}

/// Outcome of asking the user for a file.
pub enum PickOutcome {
    /// No file was chosen.
    Cancelled,
    /// A file was chosen but its path has no valid string representation.
    Unrepresentable,
    /// A file was chosen, with this path.
    Picked(String),
}

/// Turns a file-selection outcome into the path to erase or a human-readable
/// reason why no job can start.
pub fn selection_to_path(pick: PickOutcome) -> (r: Result<String, String>)
    ensures
        pick matches PickOutcome::Picked(p) ==> (r matches Ok(q) && q == p),
        pick is Cancelled ==> (r matches Err(m) && m@ == "No file was selected."@),
        pick is Unrepresentable ==> (r matches Err(m) && m@ == "File path is not valid UTF-8."@),
{
    match pick {
        PickOutcome::Picked(p) => Ok(p),
        PickOutcome::Cancelled => Err("No file was selected.".to_owned()),
        PickOutcome::Unrepresentable => Err("File path is not valid UTF-8.".to_owned()),
    }
}

impl Coordinator {
    /// A fresh coordinator: no file selected, no job running, zero progress.
    pub fn new() -> (c: Coordinator)
        ensures
            c.file@.len() == 0,
            c.progress == 0,
            !c.erasing,
            c.receiver is None,
    {
        proof {
            reveal_strlit("");
        }
        Coordinator { file: "".to_owned(), progress: 0, erasing: false, receiver: None }
    }

    /// Records the outcome of the file picker: a chosen path replaces the
    /// selection, a failed pick changes nothing.
    pub fn on_file_selected(&mut self, r: Result<String, String>)
        ensures
            r matches Ok(p) ==> final(self).file == p,
            r is Err ==> final(self).file == old(self).file,
            final(self).progress == old(self).progress,
            final(self).erasing == old(self).erasing,
            final(self).receiver == old(self).receiver,
    {
        match r {
            Ok(p) => {
                self.file = p;
            },
            Err(_) => {},
        }
    }

    /// Asks to start erasing the selected file. The idempotent guard: while
    /// a job is running the request is a silent no-op — no second queue, no
    /// second worker — and the coordinator is left exactly as it was.
    /// Otherwise a fresh bounded queue is created, the job is marked running
    /// with progress reset, and the caller receives everything a worker
    /// needs to run the engine.
    pub fn request_erase(&mut self) -> (r: Option<EraseRequest>)
        ensures
            old(self).erasing ==> r is None && *final(self) == *old(self),
            !old(self).erasing ==> {
                &&& r matches Some(req) && req.path == old(self).file && req.passes == PASSES
                    && req.passes >= 1
                &&& final(self).erasing
                &&& final(self).progress == 0
                &&& final(self).receiver is Some
                &&& final(self).file == old(self).file
            },
    {
        if self.erasing {
            None
        } else {
            let pair = bounded_channel(QUEUE_CAPACITY);
            self.receiver = Some(pair.1);
            self.erasing = true;
            self.progress = 0;
            Some(EraseRequest { path: self.file.clone(), passes: PASSES, sender: pair.0 })
        }
    }

    /// Folds one delivered event into the display state. An update moves the
    /// shown fraction; the terminal event clears the running flag, discards
    /// the queue's consuming end — making a fresh `request_erase` possible —
    /// and pins the display to 100%.
    pub fn on_progress(&mut self, p: Progress)
        ensures
            final(self).file == old(self).file,
            p matches Progress::Updated(f) ==> final(self).progress == f && final(self).erasing
                == old(self).erasing && final(self).receiver == old(self).receiver,
            p is Finished ==> !final(self).erasing && final(self).receiver is None && final(self).progress == 10000,
    {
        match p {
            Progress::Updated(f) => {
                self.progress = f;
            },
            Progress::Finished(_) => {
                self.erasing = false;
                self.receiver = None;
                self.progress = 10000;
            },
        }
    }

    /// Pulls the next event of the running job, blocking until one arrives,
    /// and folds it into the display state. `None` without a running job, or
    /// — after clearing the dead job — when the producer vanished without a
    /// terminal event.
    pub fn next_event(&mut self) -> (r: Option<Progress>)
        ensures
            old(self).receiver is None ==> r is None && *final(self) == *old(self),
            final(self).file == old(self).file,
            r matches Some(p) ==> {
                &&& (p matches Progress::Updated(f) ==> final(self).progress == f && final(self).erasing == old(self).erasing)
                &&& (p is Finished ==> !final(self).erasing && final(self).receiver is None
                    && final(self).progress == 10000)
            },
            r is None ==> final(self).receiver is None && final(self).progress == old(self).progress,
    {
        let got: Option<Progress> = match &self.receiver {
            None => {
                return None;
            },
            Some(rx) => recv_progress(rx),
        };
        match got {
            Some(p) => {
                self.on_progress(p);
                Some(p)
            },
            None => {
                self.receiver = None;
                self.erasing = false;
                None
            },
        }
    }

    /// Whether a new job may start right now: the erase button's state.
    pub fn can_start(&self) -> (r: bool)
        ensures
            r == !self.erasing,
    {
        !self.erasing
    }
}

} // verus!
