use file_eraser::coordinator::{selection_to_path, Coordinator, PickOutcome, PASSES};
use file_eraser::engine::{Action, Engine, Event};
use file_eraser::progress::{Progress, FULL};

#[test]
fn fresh_coordinator_is_idle() {
    let c = Coordinator::new();
    assert_eq!(c.file, "");
    assert_eq!(c.progress, 0);
    assert!(!c.erasing);
    assert!(c.receiver.is_none());
    assert!(c.can_start());
}

#[test]
fn selecting_a_file_replaces_the_selection() {
    let mut c = Coordinator::new();
    c.on_file_selected(Ok("/tmp/target.bin".to_string()));
    assert_eq!(c.file, "/tmp/target.bin");
    c.on_file_selected(Err("No file was selected.".to_string()));
    assert_eq!(c.file, "/tmp/target.bin");
    c.on_file_selected(Ok("other".to_string()));
    assert_eq!(c.file, "other");
}

#[test]
fn second_start_while_running_is_a_silent_no_op() {
    let mut c = Coordinator::new();
    c.on_file_selected(Ok("victim".to_string()));
    let req = c.request_erase().expect("first start must be granted");
    assert_eq!(req.path, "victim");
    assert_eq!(req.passes, PASSES);
    assert!(c.erasing);
    assert!(!c.can_start());
    // the guard: no second queue, no second worker
    assert!(c.request_erase().is_none());
    assert!(c.request_erase().is_none());
    assert!(c.erasing);
    // the first job's channel is still the live one
    req.sender.send(Progress::Finished(true)).unwrap();
    assert_eq!(c.next_event(), Some(Progress::Finished(true)));
    assert!(!c.erasing);
    assert_eq!(c.progress, FULL);
    // once the terminal event was observed a new job may start
    assert!(c.request_erase().is_some());
}

#[test]
fn updates_move_the_displayed_fraction_in_order() {
    let mut c = Coordinator::new();
    c.on_file_selected(Ok("victim".to_string()));
    let req = c.request_erase().expect("start granted");
    assert_eq!(c.progress, 0);
    req.sender.send(Progress::Updated(1500)).unwrap();
    req.sender.send(Progress::Updated(1500)).unwrap();
    req.sender.send(Progress::Updated(8000)).unwrap();
    req.sender.send(Progress::Finished(true)).unwrap();
    assert_eq!(c.next_event(), Some(Progress::Updated(1500)));
    assert_eq!(c.progress, 1500);
    assert_eq!(c.next_event(), Some(Progress::Updated(1500)));
    assert_eq!(c.progress, 1500);
    assert_eq!(c.next_event(), Some(Progress::Updated(8000)));
    assert_eq!(c.progress, 8000);
    assert_eq!(c.next_event(), Some(Progress::Finished(true)));
    assert_eq!(c.progress, FULL);
    // the job's queue is gone; without a running job there is no event
    assert_eq!(c.next_event(), None);
}

#[test]
fn failed_job_still_delivers_terminal_event() {
    let mut c = Coordinator::new();
    c.on_file_selected(Ok("victim".to_string()));
    let req = c.request_erase().expect("start granted");
    req.sender.send(Progress::Finished(false)).unwrap();
    assert_eq!(c.next_event(), Some(Progress::Finished(false)));
    assert!(!c.erasing);
    assert!(c.can_start());
}

#[test]
fn vanished_worker_ends_the_stream() {
    let mut c = Coordinator::new();
    c.on_file_selected(Ok("victim".to_string()));
    let req = c.request_erase().expect("start granted");
    drop(req);
    assert_eq!(c.next_event(), None);
    assert!(!c.erasing);
    assert!(c.receiver.is_none());
    assert!(c.can_start());
}

#[test]
fn whole_pipeline_delivers_a_clean_stream() {
    let mut c = Coordinator::new();
    c.on_file_selected(Ok("victim".to_string()));
    let req = c.request_erase().expect("start granted");
    // the worker side: run the engine against simulated file operations
    let (mut engine, mut action) = Engine::new(req.passes);
    loop {
        let ev = match &action {
            Action::Open => Event::Opened(4096 * 120 + 17),
            Action::Done => break,
            _ => Event::Succeeded,
        };
        action = engine.step(&req.sender, ev);
    }
    // the observer side: pull until the terminal event
    let mut updates = Vec::new();
    loop {
        match c.next_event() {
            Some(Progress::Updated(f)) => updates.push(f),
            Some(Progress::Finished(ok)) => {
                assert!(ok);
                break;
            }
            None => panic!("stream ended without Finished"),
        }
    }
    // three passes of 121 chunks: updates at chunks 100, 200, 300, then 100%
    assert_eq!(updates.len(), 4);
    assert_eq!(*updates.last().unwrap(), FULL);
    for w in updates.windows(2) {
        assert!(w[0] <= w[1]);
    }
    assert!(!c.erasing);
    assert_eq!(c.progress, FULL);
}

#[test]
fn selection_outcomes_map_to_exact_messages() {
    assert_eq!(
        selection_to_path(PickOutcome::Picked("/a/b".to_string())),
        Ok("/a/b".to_string())
    );
    assert_eq!(
        selection_to_path(PickOutcome::Cancelled),
        Err("No file was selected.".to_string())
    );
    assert_eq!(
        selection_to_path(PickOutcome::Unrepresentable),
        Err("File path is not valid UTF-8.".to_string())
    );
}

#[test]
fn fraction_arithmetic_is_exact() {
    assert_eq!(file_eraser::progress::progress_fraction(1, 2), 5000);
    assert_eq!(file_eraser::progress::progress_fraction(1, 3), 3333);
    assert_eq!(file_eraser::progress::progress_fraction(409_600, 2_048_000), 2000);
    assert_eq!(
        file_eraser::progress::progress_fraction(31_457_280, 31_457_280),
        FULL
    );
}
