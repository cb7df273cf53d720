use xphoto::scan::CancelPoint;
use xphoto::scan_job::{scan_job_step, ScanJobAction, ScanJobEnd, ScanJobEvent, ScanJobState};

fn run(events: &[ScanJobEvent]) -> (ScanJobState, Vec<ScanJobAction>) {
    let mut state = ScanJobState::Pending;
    let mut actions = Vec::new();
    for e in events {
        let (s, a) = scan_job_step(state, *e);
        state = s;
        actions.push(a);
    }
    (state, actions)
}

#[test]
fn a_job_that_is_not_pending_is_not_run() {
    let (s, a) = run(&[ScanJobEvent::Started { pending: false }, ScanJobEvent::Listed { candidates: 3 }]);
    assert_eq!(s, ScanJobState::NotRun);
    assert_eq!(a, vec![ScanJobAction::Idle, ScanJobAction::Idle]);
}

#[test]
fn every_candidate_is_stored_in_order_then_the_job_succeeds() {
    let no = ScanJobEvent::CancelChecked { requested: false };
    let (s, a) = run(&[
        ScanJobEvent::Started { pending: true },
        ScanJobEvent::Listed { candidates: 2 },
        no,
        no,
        ScanJobEvent::Stored,
        no,
        ScanJobEvent::Stored,
    ]);
    assert_eq!(s, ScanJobState::Finished(ScanJobEnd::Succeeded));
    assert_eq!(
        a,
        vec![
            ScanJobAction::Collect,
            ScanJobAction::CheckCancel,
            ScanJobAction::CheckCancel,
            ScanJobAction::Store(0),
            ScanJobAction::CheckCancel,
            ScanJobAction::Store(1),
            ScanJobAction::FinishSucceeded,
        ]
    );
}

#[test]
fn cancellation_stops_storing() {
    let (s, a) = run(&[
        ScanJobEvent::Started { pending: true },
        ScanJobEvent::Listed { candidates: 2 },
        ScanJobEvent::CancelChecked { requested: true },
        ScanJobEvent::Stored,
    ]);
    assert_eq!(s, ScanJobState::Finished(ScanJobEnd::Cancelled(CancelPoint::BeforeUpsert)));
    assert_eq!(a[2], ScanJobAction::FinishCancelled(CancelPoint::BeforeUpsert));
    assert_eq!(a[3], ScanJobAction::Idle);
    let no = ScanJobEvent::CancelChecked { requested: false };
    let (s, a) = run(&[
        ScanJobEvent::Started { pending: true },
        ScanJobEvent::Listed { candidates: 3 },
        no,
        no,
        ScanJobEvent::Stored,
        ScanJobEvent::CancelChecked { requested: true },
    ]);
    assert_eq!(s, ScanJobState::Finished(ScanJobEnd::Cancelled(CancelPoint::DuringRun)));
    assert_eq!(a[5], ScanJobAction::FinishCancelled(CancelPoint::DuringRun));
}

#[test]
fn a_listing_failure_ends_the_job_as_failed() {
    let (s, a) = run(&[ScanJobEvent::Started { pending: true }, ScanJobEvent::ListFailed]);
    assert_eq!(s, ScanJobState::Finished(ScanJobEnd::Failed));
    assert_eq!(a[1], ScanJobAction::FinishFailed);
}

#[test]
fn an_empty_source_succeeds_right_after_the_first_check() {
    let (s, a) = run(&[
        ScanJobEvent::Started { pending: true },
        ScanJobEvent::Listed { candidates: 0 },
        ScanJobEvent::CancelChecked { requested: false },
    ]);
    assert_eq!(s, ScanJobState::Finished(ScanJobEnd::Succeeded));
    assert_eq!(a[2], ScanJobAction::FinishSucceeded);
}
