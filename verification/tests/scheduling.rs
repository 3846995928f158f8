use reamio::ingest::PendingUpload;
use reamio::scheduler::{Scheduler, SchedulerReply, SchedulerRequest, Wake, WakeSignal};

fn upload(fid: i64, user: &str, path: &str) -> PendingUpload {
    PendingUpload { fid, user: user.to_string(), path: path.to_string() }
}

/// Runs one scan and returns what was processed, what was deleted, and the
/// pending ids that are left.
fn scan(rows: Vec<PendingUpload>, staged: &[i64]) -> (Vec<i64>, Vec<i64>, Vec<i64>) {
    let mut pending: Vec<i64> = rows.iter().map(|r| r.fid).collect();
    let mut processed = Vec::new();
    let mut deleted = Vec::new();
    let mut scheduler = Scheduler::new();
    assert!(matches!(scheduler.request(), SchedulerRequest::AwaitWake));
    scheduler.answer(SchedulerReply::Woken);
    assert!(matches!(scheduler.request(), SchedulerRequest::ListPending));
    scheduler.answer(SchedulerReply::Pending(rows));
    loop {
        let reply = match scheduler.request() {
            SchedulerRequest::CheckStaged { fid, path } => {
                assert_eq!(path, format!("./devdir/temp/{fid}"));
                SchedulerReply::Staged(staged.contains(&fid))
            }
            SchedulerRequest::Process { upload } => {
                processed.push(upload.fid);
                SchedulerReply::Processed
            }
            SchedulerRequest::DeletePending { fid } => {
                deleted.push(fid);
                pending.retain(|p| *p != fid);
                SchedulerReply::Deleted
            }
            SchedulerRequest::AwaitWake => break,
            other => panic!("unexpected {other:?}"),
        };
        scheduler.answer(reply);
    }
    (processed, deleted, pending)
}

#[test]
fn signal_starts_signalled() {
    let mut signal = WakeSignal::new();
    assert_eq!(signal.take(), Wake::Rescan);
    assert_eq!(signal.take(), Wake::Wait);
}

#[test]
fn many_notifications_make_one_rescan() {
    let mut signal = WakeSignal::new();
    signal.take();
    signal.notify();
    signal.notify();
    signal.notify();
    assert_eq!(signal.take(), Wake::Rescan);
    assert_eq!(signal.take(), Wake::Wait);
}

#[test]
fn closed_signal_still_delivers_what_was_notified() {
    let mut signal = WakeSignal::new();
    signal.take();
    signal.notify();
    signal.close();
    assert_eq!(signal.take(), Wake::Rescan);
    assert_eq!(signal.take(), Wake::Closed);
    assert_eq!(signal.take(), Wake::Closed);
}

#[test]
fn every_staged_upload_is_processed_then_deleted() {
    let rows = vec![upload(1, "ann", "/a.mp3"), upload(2, "bob", "/b.mp3"), upload(3, "ann", "/c.mp3")];
    let (processed, deleted, pending) = scan(rows, &[1, 2, 3]);
    assert_eq!(processed, vec![1, 2, 3]);
    assert_eq!(deleted, vec![1, 2, 3]);
    assert!(pending.is_empty());
}

#[test]
fn upload_without_its_file_is_passed_over_and_kept() {
    let rows = vec![upload(1, "ann", "/a.mp3"), upload(2, "bob", "/b.mp3"), upload(3, "ann", "/c.mp3")];
    let (processed, deleted, pending) = scan(rows, &[1, 3]);
    assert_eq!(processed, vec![1, 3]);
    assert_eq!(deleted, vec![1, 3]);
    assert_eq!(pending, vec![2]);
}

#[test]
fn empty_scan_goes_back_to_waiting() {
    let (processed, deleted, pending) = scan(Vec::new(), &[]);
    assert!(processed.is_empty() && deleted.is_empty() && pending.is_empty());
}

#[test]
fn record_is_deleted_after_processing_however_it_went() {
    let mut scheduler = Scheduler::new();
    scheduler.answer(SchedulerReply::Woken);
    scheduler.answer(SchedulerReply::Pending(vec![upload(9, "ann", "not absolute")]));
    scheduler.answer(SchedulerReply::Staged(true));
    match scheduler.request() {
        SchedulerRequest::Process { upload } => {
            assert_eq!(upload.fid, 9);
            assert_eq!(upload.user, "ann");
            assert_eq!(upload.path, "not absolute");
        }
        other => panic!("unexpected {other:?}"),
    }
    scheduler.answer(SchedulerReply::Processed);
    assert!(matches!(scheduler.request(), SchedulerRequest::DeletePending { fid: 9 }));
    scheduler.answer(SchedulerReply::Deleted);
    assert!(matches!(scheduler.request(), SchedulerRequest::AwaitWake));
}

#[test]
fn scheduler_stops_only_when_the_signal_is_closed() {
    let mut scheduler = Scheduler::new();
    assert!(!scheduler.stopped());
    scheduler.answer(SchedulerReply::Woken);
    scheduler.answer(SchedulerReply::Closed);
    assert!(matches!(scheduler.request(), SchedulerRequest::ListPending));
    scheduler.answer(SchedulerReply::Pending(Vec::new()));
    assert!(!scheduler.stopped());
    scheduler.answer(SchedulerReply::Closed);
    assert!(scheduler.stopped());
    assert!(matches!(scheduler.request(), SchedulerRequest::Stop));
    scheduler.answer(SchedulerReply::Woken);
    assert!(scheduler.stopped());
}

#[test]
fn scheduler_ignores_replies_that_do_not_answer_its_request() {
    let mut scheduler = Scheduler::new();
    scheduler.answer(SchedulerReply::Staged(true));
    scheduler.answer(SchedulerReply::Processed);
    scheduler.answer(SchedulerReply::Deleted);
    scheduler.answer(SchedulerReply::Pending(vec![upload(1, "ann", "/a")]));
    assert!(matches!(scheduler.request(), SchedulerRequest::AwaitWake));
    scheduler.answer(SchedulerReply::Woken);
    scheduler.answer(SchedulerReply::Pending(vec![upload(1, "ann", "/a")]));
    scheduler.answer(SchedulerReply::Deleted);
    scheduler.answer(SchedulerReply::Processed);
    assert!(matches!(scheduler.request(), SchedulerRequest::CheckStaged { fid: 1, .. }));
}

#[test]
fn second_wake_rescans_what_was_kept() {
    let mut scheduler = Scheduler::new();
    for _ in 0..2 {
        scheduler.answer(SchedulerReply::Woken);
        scheduler.answer(SchedulerReply::Pending(vec![upload(4, "ann", "/a.mp3")]));
        assert!(matches!(scheduler.request(), SchedulerRequest::CheckStaged { fid: 4, .. }));
        scheduler.answer(SchedulerReply::Staged(false));
        assert!(matches!(scheduler.request(), SchedulerRequest::AwaitWake));
    }
}
