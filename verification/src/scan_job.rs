//! The life of one scan job, as a state machine: the runner reports what
//! it found (an event) and is told what to do next (an action).
//!
//! A job runs only if it is still pending when its runner starts. It then
//! lists its source; a listing that fails ends it as failed. Before the
//! first candidate and again before each candidate the cancel flag is
//! read: once it is seen, the job ends as cancelled and no further
//! candidate is stored. Otherwise every candidate is stored in order and
//! the job ends as successful. Each way of ending (a `Finish*` action) is
//! where the job's terminal status and its `finished_at` are written.

use vstd::prelude::*;
use crate::scan::CancelPoint;

verus! {

/// How a scan job ended.
#[derive(Debug, Clone, Copy, PartialEq, Eq, Structural)]
pub enum ScanJobEnd {
    Succeeded,
    Failed,
    Cancelled(CancelPoint),
}

/// Where a scan job's runner is.
#[derive(Debug, Clone, Copy, PartialEq, Eq, Structural)]
pub enum ScanJobState {
    /// Not started.
    Pending,
    /// The job was not pending when its runner started: nothing is done.
    NotRun,
    /// Running: its source is being listed.
    Listing,
    /// Running: listed, `total` candidates; the cancel flag is read before
    /// the first one is stored.
    Listed { total: usize },
    /// Running: the candidates before `next` were taken up.
    Storing { next: usize, total: usize },
    /// Ended.
    Finished(ScanJobEnd),
}

/// What the runner reports.
#[derive(Debug, Clone, Copy, PartialEq, Eq, Structural)]
pub enum ScanJobEvent {
    /// Whether the job was switched from pending to running.
    Started { pending: bool },
    /// The source was listed into this many candidates.
    Listed { candidates: usize },
    /// The source could not be listed.
    ListFailed,
    /// The cancel flag was read.
    CancelChecked { requested: bool },
    /// The candidate last handed out was taken up.
    Stored,
}

/// What the runner is to do next.
#[derive(Debug, Clone, Copy, PartialEq, Eq, Structural)]
pub enum ScanJobAction {
    /// Nothing.
    Idle,
    /// Record the source as scanning and list it.
    Collect,
    /// Read the cancel flag.
    CheckCancel,
    /// Take up candidate `i` (count it and store it if it changed).
    Store(usize),
    /// Write the job as successful, with its counts and `finished_at`.
    FinishSucceeded,
    /// Write the job as failed, with the listing error and `finished_at`.
    FinishFailed,
    /// Write the job as cancelled at that point, with `finished_at`.
    FinishCancelled(CancelPoint),
}

pub open spec fn is_finish(a: ScanJobAction) -> bool {
    a is FinishSucceeded || a is FinishFailed || a is FinishCancelled
}

pub open spec fn is_final(s: ScanJobState) -> bool {
    s is NotRun || s is Finished
}

/// The next state and the action, for a state and an event. An event that
/// does not fit the state changes nothing.
pub open spec fn scan_job_step_spec(s: ScanJobState, e: ScanJobEvent) -> (ScanJobState, ScanJobAction) {
    match (s, e) {
        (ScanJobState::Pending, ScanJobEvent::Started { pending }) => if pending {
            (ScanJobState::Listing, ScanJobAction::Collect)
        } else {
            (ScanJobState::NotRun, ScanJobAction::Idle)
        },
        (ScanJobState::Listing, ScanJobEvent::Listed { candidates }) => (
            ScanJobState::Listed { total: candidates },
            ScanJobAction::CheckCancel,
        ),
        (ScanJobState::Listing, ScanJobEvent::ListFailed) => (
            ScanJobState::Finished(ScanJobEnd::Failed),
            ScanJobAction::FinishFailed,
        ),
        (ScanJobState::Listed { total }, ScanJobEvent::CancelChecked { requested }) => if requested {
            (
                ScanJobState::Finished(ScanJobEnd::Cancelled(CancelPoint::BeforeUpsert)),
                ScanJobAction::FinishCancelled(CancelPoint::BeforeUpsert),
            )
        } else if total == 0 {
            (ScanJobState::Finished(ScanJobEnd::Succeeded), ScanJobAction::FinishSucceeded)
        } else {
            (ScanJobState::Storing { next: 0, total }, ScanJobAction::CheckCancel)
        },
        (ScanJobState::Storing { next, total }, ScanJobEvent::CancelChecked { requested }) => if next
            >= total {
            (s, ScanJobAction::Idle)
        } else if requested {
            (
                ScanJobState::Finished(ScanJobEnd::Cancelled(CancelPoint::DuringRun)),
                ScanJobAction::FinishCancelled(CancelPoint::DuringRun),
            )
        } else {
            (ScanJobState::Storing { next: (next + 1) as usize, total }, ScanJobAction::Store(next))
        },
        (ScanJobState::Storing { next, total }, ScanJobEvent::Stored) => if next < total {
            (s, ScanJobAction::CheckCancel)
        } else {
            (ScanJobState::Finished(ScanJobEnd::Succeeded), ScanJobAction::FinishSucceeded)
        },
        _ => (s, ScanJobAction::Idle),
    }
}

/// The state machine of a scan job (see `scan_job_step_spec`).
pub fn scan_job_step(s: ScanJobState, e: ScanJobEvent) -> (r: (ScanJobState, ScanJobAction))
    ensures
        r == scan_job_step_spec(s, e),
{
    match (s, e) {
        (ScanJobState::Pending, ScanJobEvent::Started { pending }) => if pending {
            (ScanJobState::Listing, ScanJobAction::Collect)
        } else {
            (ScanJobState::NotRun, ScanJobAction::Idle)
        },
        (ScanJobState::Listing, ScanJobEvent::Listed { candidates }) => (
            ScanJobState::Listed { total: candidates },
            ScanJobAction::CheckCancel,
        ),
        (ScanJobState::Listing, ScanJobEvent::ListFailed) => (
            ScanJobState::Finished(ScanJobEnd::Failed),
            ScanJobAction::FinishFailed,
        ),
        (ScanJobState::Listed { total }, ScanJobEvent::CancelChecked { requested }) => if requested {
            (
                ScanJobState::Finished(ScanJobEnd::Cancelled(CancelPoint::BeforeUpsert)),
                ScanJobAction::FinishCancelled(CancelPoint::BeforeUpsert),
            )
        } else if total == 0 {
            (ScanJobState::Finished(ScanJobEnd::Succeeded), ScanJobAction::FinishSucceeded)
        } else {
            (ScanJobState::Storing { next: 0, total }, ScanJobAction::CheckCancel)
        },
        (ScanJobState::Storing { next, total }, ScanJobEvent::CancelChecked { requested }) => if next
            >= total {
            (s, ScanJobAction::Idle)
        } else if requested {
            (
                ScanJobState::Finished(ScanJobEnd::Cancelled(CancelPoint::DuringRun)),
                ScanJobAction::FinishCancelled(CancelPoint::DuringRun),
            )
        } else {
            (ScanJobState::Storing { next: next + 1, total }, ScanJobAction::Store(next))
        },
        (ScanJobState::Storing { next, total }, ScanJobEvent::Stored) => if next < total {
            (s, ScanJobAction::CheckCancel)
        } else {
            (ScanJobState::Finished(ScanJobEnd::Succeeded), ScanJobAction::FinishSucceeded)
        },
        _ => (s, ScanJobAction::Idle),
    }
}

/// The state after a run of events, and the actions given on the way.
pub open spec fn run_spec(s: ScanJobState, events: Seq<ScanJobEvent>) -> (ScanJobState, Seq<ScanJobAction>)
    decreases events.len(),
{
    if events.len() == 0 {
        (s, Seq::empty())
    } else {
        let (s1, a) = scan_job_step_spec(s, events[0]);
        let (s2, rest) = run_spec(s1, events.drop_first());
        (s2, seq![a] + rest)
    }
}

pub open spec fn finishes(actions: Seq<ScanJobAction>) -> nat
    decreases actions.len(),
{
    if actions.len() == 0 {
        0
    } else {
        (if is_finish(actions[0]) {
            1nat
        } else {
            0nat
        }) + finishes(actions.drop_first())
    }
}

/// Nothing moves a job that has ended or was not run.
pub proof fn law_final_states_stay(s: ScanJobState, e: ScanJobEvent)
    requires
        is_final(s),
    ensures
        scan_job_step_spec(s, e) == (s, ScanJobAction::Idle),
{
}

/// A job that is not pending when its runner starts is not run: nothing is
/// done and nothing is written, whatever follows.
pub proof fn law_not_pending_is_not_run(events: Seq<ScanJobEvent>)
    ensures
        run_spec(ScanJobState::NotRun, events) == (ScanJobState::NotRun, Seq::new(
            events.len(),
            |i: int| ScanJobAction::Idle,
        )),
    decreases events.len(),
{
    if events.len() > 0 {
        law_not_pending_is_not_run(events.drop_first());
        assert(seq![ScanJobAction::Idle] + Seq::new(
            (events.len() - 1) as nat,
            |i: int| ScanJobAction::Idle,
        ) =~= Seq::new(events.len(), |i: int| ScanJobAction::Idle));
    }
}

/// A step finishes exactly when it moves a running job to an end, and a
/// step out of an end is idle.
proof fn lemma_step_finish(s: ScanJobState, e: ScanJobEvent)
    ensures
        is_finish(scan_job_step_spec(s, e).1) <==> (!is_final(s) && scan_job_step_spec(s, e).0 is Finished),
        is_final(s) ==> is_final(scan_job_step_spec(s, e).0),
        !(scan_job_step_spec(s, e).0 is NotRun) || s is Pending || s is NotRun,
{
}

/// Over any run of events from a state that has not ended, the job is
/// written as ended at most once: exactly once if the run ends it, and
/// never if it does not; once a job has ended no action follows.
pub proof fn law_one_terminal_write(s: ScanJobState, events: Seq<ScanJobEvent>)
    requires
        !(s is Finished),
    ensures
        finishes(run_spec(s, events).1) == if run_spec(s, events).0 is Finished {
            1nat
        } else {
            0nat
        },
        finishes(run_spec(s, events).1) <= 1,
    decreases events.len(),
{
    if events.len() > 0 {
        let (s1, a) = scan_job_step_spec(s, events[0]);
        lemma_step_finish(s, events[0]);
        let rest = run_spec(s1, events.drop_first()).1;
        assert(run_spec(s, events).1 == seq![a] + rest);
        assert((seq![a] + rest).drop_first() =~= rest);
        assert((seq![a] + rest)[0] == a);
        if s1 is Finished {
            law_ended_is_idle(s1, events.drop_first());
            assert(is_finish(a));
        } else {
            law_one_terminal_write(s1, events.drop_first());
            if s is NotRun {
                assert(!is_finish(a));
            }
        }
    }
}

/// After a job has ended, every action is idle and its end stays.
pub proof fn law_ended_is_idle(s: ScanJobState, events: Seq<ScanJobEvent>)
    requires
        is_final(s),
    ensures
        run_spec(s, events).0 == s,
        finishes(run_spec(s, events).1) == 0,
        forall|i: int| 0 <= i < run_spec(s, events).1.len() ==> run_spec(s, events).1[i] == ScanJobAction::Idle,
    decreases events.len(),
{
    if events.len() > 0 {
        law_ended_is_idle(s, events.drop_first());
        let rest = run_spec(s, events.drop_first()).1;
        assert(run_spec(s, events).1 == seq![ScanJobAction::Idle] + rest);
        assert((seq![ScanJobAction::Idle] + rest).drop_first() =~= rest);
        assert forall|i: int| 0 <= i < run_spec(s, events).1.len() implies run_spec(s, events).1[i]
            == ScanJobAction::Idle by {
            if i > 0 {
                assert(run_spec(s, events).1[i] == rest[i - 1]);
            }
        }
    }
}

/// Once the cancel flag is seen before a candidate, the job ends as
/// cancelled and no candidate is handed out any more.
pub proof fn law_cancel_stops_storing(s: ScanJobState, events: Seq<ScanJobEvent>)
    requires
        s is Listed || (s matches ScanJobState::Storing { next, total } && next < total),
    ensures
        ({
            let (s1, a) = scan_job_step_spec(s, ScanJobEvent::CancelChecked { requested: true });
            &&& s1 matches ScanJobState::Finished(ScanJobEnd::Cancelled(_))
            &&& a is FinishCancelled
            &&& forall|i: int| 0 <= i < run_spec(s1, events).1.len() ==> !(#[trigger] run_spec(s1, events).1[i] is Store)
        }),
{
    let (s1, a) = scan_job_step_spec(s, ScanJobEvent::CancelChecked { requested: true });
    law_ended_is_idle(s1, events);
}

/// Candidates are handed out in order, each once: `Store(i)` comes only
/// from the state whose next candidate is `i`, and moves on to `i + 1`.
pub proof fn law_store_in_order(s: ScanJobState, e: ScanJobEvent)
    ensures
        scan_job_step_spec(s, e).1 matches ScanJobAction::Store(i) ==> (s matches ScanJobState::Storing {
            next,
            total,
        } && next == i && i < total && scan_job_step_spec(s, e).0 == ScanJobState::Storing {
            next: (i + 1) as usize,
            total,
        }),
{
}

} // verus!
