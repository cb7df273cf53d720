//! Scan jobs and the tasks that drive them: cancelling, retrying,
//! reconciling a task with its scan job, and daemon health.

use vstd::prelude::*;
use crate::paths::opt_view;
use crate::text::{append_str, decimal_string, same_text, string_of};

verus! {

pub const STATUS_PENDING: &'static str = "pending";

pub const STATUS_RUNNING: &'static str = "running";

pub const STATUS_SUCCESS: &'static str = "success";

pub const STATUS_FAILED: &'static str = "failed";

pub const STATUS_CANCELLED: &'static str = "cancelled";

pub const TRIGGER_MANUAL: &'static str = "manual";

pub const TRIGGER_FS_WATCH: &'static str = "fs_watch";

pub const TRIGGER_RETRY: &'static str = "retry";

pub const TRIGGER_SYSTEM: &'static str = "system";

pub open spec fn is_active_status(s: Seq<char>) -> bool {
    s == "pending"@ || s == "running"@
}

pub open spec fn is_retryable_status(s: Seq<char>) -> bool {
    s == "failed"@ || s == "cancelled"@
}

/// Retrying is open to exactly the jobs that failed or were cancelled: a
/// job that is pending, running or already succeeded is never retried.
pub proof fn law_retry_only_after_failure_or_cancel(s: Seq<char>)
    ensures
        is_retryable_status(s) <==> (s == "failed"@ || s == "cancelled"@),
        is_retryable_status("failed"@),
        is_retryable_status("cancelled"@),
        !is_retryable_status("success"@),
        !is_retryable_status("running"@),
        !is_retryable_status("pending"@),
{
    reveal_strlit("failed");
    reveal_strlit("cancelled");
    reveal_strlit("success");
    reveal_strlit("running");
    reveal_strlit("pending");
    assert("success"@[0] != "failed"@[0]);
    assert("success"@[0] != "cancelled"@[0]);
    assert("running"@[0] != "failed"@[0]);
    assert("running"@[0] != "cancelled"@[0]);
    assert("pending"@[0] != "failed"@[0]);
    assert("pending"@[0] != "cancelled"@[0]);
}

/// Whether a status is pending or running.
pub fn status_is_active(s: &str) -> (r: bool)
    ensures
        r == is_active_status(s@),
{
    same_text(s, "pending") || same_text(s, "running")
}

// ---------------------------------------------------------------------------
// Cancelling
// ---------------------------------------------------------------------------

/// What cancelling a scan job does, by its status.
#[derive(Debug, Clone, Copy, PartialEq, Eq)]
pub enum ScanCancelAction {
    /// A pending job is closed as cancelled at once.
    CancelPending,
    /// A running job is asked to stop; it closes itself.
    RequestStop,
    /// A finished job is left as it is.
    Nothing,
}

pub open spec fn scan_cancel_action_for(status: Seq<char>) -> ScanCancelAction {
    if status == "pending"@ {
        ScanCancelAction::CancelPending
    } else if status == "running"@ {
        ScanCancelAction::RequestStop
    } else {
        ScanCancelAction::Nothing
    }
}

pub fn scan_cancel_action(status: &str) -> (r: ScanCancelAction)
    ensures
        r == scan_cancel_action_for(status@),
{
    if same_text(status, "pending") {
        ScanCancelAction::CancelPending
    } else if same_text(status, "running") {
        ScanCancelAction::RequestStop
    } else {
        ScanCancelAction::Nothing
    }
}

/// What cancelling a task does.
#[derive(Debug, Clone, Copy, PartialEq, Eq)]
pub struct TaskCancelPlan {
    /// Whether the task is still active and gets cancelled.
    pub proceed: bool,
    /// What happens to the scan job the task is linked to.
    pub scan_action: ScanCancelAction,
}

/// A task is cancelled only while pending or running; its linked scan job
/// (if it still exists) is cancelled as a scan job would be.
pub fn task_cancel_plan(task_status: &str, linked_scan_status: Option<&str>) -> (r: TaskCancelPlan)
    ensures
        r.proceed == is_active_status(task_status@),
        r.scan_action == if is_active_status(task_status@) {
            match linked_scan_status {
                Some(s) => scan_cancel_action_for(s@),
                None => ScanCancelAction::Nothing,
            }
        } else {
            ScanCancelAction::Nothing
        },
{
    if !status_is_active(task_status) {
        return TaskCancelPlan { proceed: false, scan_action: ScanCancelAction::Nothing };
    }
    let scan_action = match linked_scan_status {
        Some(s) => scan_cancel_action(s),
        None => ScanCancelAction::Nothing,
    };
    TaskCancelPlan { proceed: true, scan_action }
}

// ---------------------------------------------------------------------------
// Retrying and triggering
// ---------------------------------------------------------------------------

/// A scan job may be retried once it failed or was cancelled.
pub fn check_scan_retry(status: &str) -> (r: Result<(), String>)
    ensures
        r is Ok <==> is_retryable_status(status@),
        r is Ok <==> (status@ == "failed"@ || status@ == "cancelled"@),
        r matches Err(m) ==> m@ == "仅支持对 failed/cancelled 任务重试"@,
{
    if same_text(status, "failed") || same_text(status, "cancelled") {
        Ok(())
    } else {
        Err(string_of("仅支持对 failed/cancelled 任务重试"))
    }
}

/// A task may be retried once it failed or was cancelled, while it has
/// retries left.
pub fn check_task_retry(status: &str, retry_count: i64, max_retries: i64) -> (r: Result<(), String>)
    ensures
        r is Ok <==> (is_retryable_status(status@) && retry_count < max_retries),
        r is Ok <==> ((status@ == "failed"@ || status@ == "cancelled"@) && retry_count
            < max_retries),
        !(status@ == "failed"@ || status@ == "cancelled"@) ==> r is Err,
        !is_retryable_status(status@) ==> (r matches Err(m) && m@
            == "仅 failed/cancelled 任务支持重试"@),
        is_retryable_status(status@) && retry_count >= max_retries ==> (r matches Err(m) && m@
            == "task 已达到最大重试次数"@),
{
    if !(same_text(status, "failed") || same_text(status, "cancelled")) {
        return Err(string_of("仅 failed/cancelled 任务支持重试"));
    }
    if retry_count >= max_retries {
        return Err(string_of("task 已达到最大重试次数"));
    }
    Ok(())
}

/// Whether a scan of a source may be started: the source must exist, be
/// enabled, and have no scan job pending or running.
pub fn check_scan_trigger(source_enabled: Option<bool>, active_count: i64) -> (r: Result<(), String>)
    ensures
        source_enabled is None ==> (r matches Err(m) && m@ == "source 不存在"@),
        source_enabled == Some(false) ==> (r matches Err(m) && m@ == "source 已禁用，无法扫描"@),
        source_enabled == Some(true) && active_count > 0 ==> (r matches Err(m) && m@
            == "当前 source 已有扫描任务在执行或排队"@),
        source_enabled == Some(true) && active_count <= 0 ==> r is Ok,
{
    match source_enabled {
        None => Err(string_of("source 不存在")),
        Some(false) => Err(string_of("source 已禁用，无法扫描")),
        Some(true) => {
            if active_count > 0 {
                Err(string_of("当前 source 已有扫描任务在执行或排队"))
            } else {
                Ok(())
            }
        },
    }
}

/// The sources to schedule a retry for at start-up: those whose last scan
/// failed, in order, except those with a scan job or scan task still
/// active.
pub open spec fn retry_selection(failed: Seq<String>, blocked: Seq<String>) -> Seq<String>
    decreases failed.len(),
{
    if failed.len() == 0 {
        Seq::empty()
    } else {
        let rest = retry_selection(failed.drop_last(), blocked);
        if exists|j: int| 0 <= j < blocked.len() && blocked[j]@ == failed.last()@ {
            rest
        } else {
            rest.push(failed.last())
        }
    }
}

/// Whether some text of `list` is `s`.
pub open spec fn text_listed(list: Seq<String>, s: Seq<char>) -> bool {
    exists|j: int| 0 <= j < list.len() && list[j]@ == s
}

/// The sources retried at start-up are exactly the failed ones without a
/// scan still active, each kept in the order of the failed list.
pub proof fn law_retry_selection(failed: Seq<String>, blocked: Seq<String>)
    ensures
        retry_selection(failed, blocked).len() <= failed.len(),
        forall|i: int|
            0 <= i < retry_selection(failed, blocked).len() ==> text_listed(
                failed,
                (#[trigger] retry_selection(failed, blocked)[i])@,
            ) && !text_listed(blocked, retry_selection(failed, blocked)[i]@),
        forall|j: int|
            0 <= j < failed.len() && !text_listed(blocked, (#[trigger] failed[j])@) ==> text_listed(
                retry_selection(failed, blocked),
                failed[j]@,
            ),
    decreases failed.len(),
{
    if failed.len() > 0 {
        let prev = failed.drop_last();
        law_retry_selection(prev, blocked);
        let rest = retry_selection(prev, blocked);
        let sel = retry_selection(failed, blocked);
        let last = failed.last();
        assert(text_listed(blocked, last@) == exists|j: int|
            0 <= j < blocked.len() && blocked[j]@ == last@);
        assert forall|i: int| 0 <= i < sel.len() implies text_listed(failed, (#[trigger] sel[i])@)
            && !text_listed(blocked, sel[i]@) by {
            if i < rest.len() {
                assert(sel[i] == rest[i]);
                let j = choose|j: int| 0 <= j < prev.len() && prev[j]@ == rest[i]@;
                assert(failed[j] == prev[j]);
            } else {
                assert(failed[failed.len() - 1] == last);
            }
        }
        assert forall|j: int|
            0 <= j < failed.len() && !text_listed(blocked, (#[trigger] failed[j])@) implies text_listed(
            sel,
            failed[j]@,
        ) by {
            if j < prev.len() {
                assert(prev[j] == failed[j]);
                assert(text_listed(rest, prev[j]@));
                let w = choose|w: int| 0 <= w < rest.len() && rest[w]@ == prev[j]@;
                assert(sel[w] == rest[w]);
            } else {
                assert(sel[sel.len() - 1] == last);
            }
        }
    }
}

fn contains_text(list: &Vec<String>, s: &String) -> (r: bool)
    ensures
        r == exists|j: int| 0 <= j < list@.len() && list@[j]@ == s@,
{
    let mut i: usize = 0;
    while i < list.len()
        invariant
            i <= list.len(),
            forall|j: int| 0 <= j < i ==> list@[j]@ != s@,
        decreases list.len() - i,
    {
        if same_text(list[i].as_str(), s.as_str()) {
            return true;
        }
        i += 1;
    }
    false
}

pub fn sources_to_retry(failed: &Vec<String>, blocked: &Vec<String>) -> (r: Vec<String>)
    ensures
        r@.len() == retry_selection(failed@, blocked@).len(),
        forall|i: int| 0 <= i < r@.len() ==> #[trigger] r@[i]@ == retry_selection(failed@, blocked@)[i]@,
{
    let mut out: Vec<String> = Vec::new();
    let mut i: usize = 0;
    while i < failed.len()
        invariant
            i <= failed.len(),
            out@.len() == retry_selection(failed@.subrange(0, i as int), blocked@).len(),
            forall|k: int|
                0 <= k < out@.len() ==> #[trigger] out@[k]@ == retry_selection(
                    failed@.subrange(0, i as int),
                    blocked@,
                )[k]@,
        decreases failed.len() - i,
    {
        proof {
            assert(failed@.subrange(0, i + 1).drop_last() =~= failed@.subrange(0, i as int));
            assert(failed@.subrange(0, i + 1).last() == failed@[i as int]);
        }
        let ghost before = out@;
        if !contains_text(blocked, &failed[i]) {
            out.push(failed[i].clone());
        }
        i += 1;
        proof {
            assert forall|k: int| 0 <= k < out@.len() implies #[trigger] out@[k]@ == retry_selection(
                failed@.subrange(0, i as int),
                blocked@,
            )[k]@ by {
                if k < before.len() {
                    assert(out@[k] == before[k]);
                }
            }
        }
    }
    proof {
        assert(failed@.subrange(0, failed@.len() as int) =~= failed@);
    }
    out
}

/// The number of permits of a concurrency limit (scan jobs, preview
/// warm-ups) or the checkpoint spacing of a scan: as configured, and at
/// least one.
pub fn at_least_one(configured: usize) -> (r: usize)
    ensures
        r == if configured < 1 {
            1
        } else {
            configured
        },
{
    if configured < 1 {
        1
    } else {
        configured
    }
}

/// The dispatcher wakes at most every 200 ms.
pub fn dispatch_interval_ms(configured: u64) -> (r: u64)
    ensures
        r == if configured < 200 {
            200
        } else {
            configured
        },
{
    if configured < 200 {
        200
    } else {
        configured
    }
}

// ---------------------------------------------------------------------------
// Running a scan task
// ---------------------------------------------------------------------------

pub open spec fn not_pending_text(task_id: Seq<char>, status: Seq<char>) -> Seq<char> {
    "task "@ + task_id + " is not pending, status="@ + status
}

pub open spec fn terminal_text(task_id: Seq<char>, status: Seq<char>) -> Seq<char> {
    "task "@ + task_id + " moved to terminal status "@ + status + " without scan job id"@
}

pub open spec fn first_some(a: Option<Seq<char>>, b: Option<Seq<char>>) -> Option<Seq<char>> {
    match a {
        Some(x) => Some(x),
        None => b,
    }
}

/// For a task that is no longer pending: the scan job it already started
/// (from its link, else from its checkpoint), or an error.
pub fn existing_scan_job(
    task_id: &str,
    status: &str,
    scan_job_id: Option<String>,
    checkpoint_scan_job_id: Option<String>,
) -> (r: Result<String, String>)
    ensures
        match first_some(opt_view(scan_job_id), opt_view(checkpoint_scan_job_id)) {
            Some(id) => r matches Ok(x) && x@ == id,
            None => r matches Err(m) && m@ == not_pending_text(task_id@, status@),
        },
{
    match scan_job_id {
        Some(id) => Ok(id),
        None => match checkpoint_scan_job_id {
            Some(id) => Ok(id),
            None => {
                let mut m = string_of("task ");
                append_str(&mut m, task_id);
                append_str(&mut m, " is not pending, status=");
                append_str(&mut m, status);
                Err(m)
            },
        },
    }
}

/// One look at a task that another worker started first.
#[derive(Debug, Clone)]
pub enum RaceStep {
    /// The other worker has linked a scan job.
    Found(String),
    /// The task ended without a scan job.
    Failed(String),
    /// Nothing yet; look again.
    Wait,
}

pub fn race_step(
    task_id: &str,
    latest_status: &str,
    scan_job_id: Option<String>,
    checkpoint_scan_job_id: Option<String>,
) -> (r: RaceStep)
    ensures
        match first_some(opt_view(scan_job_id), opt_view(checkpoint_scan_job_id)) {
            Some(id) => r matches RaceStep::Found(x) && x@ == id,
            None => if is_retryable_status(latest_status@) {
                r matches RaceStep::Failed(m) && m@ == terminal_text(task_id@, latest_status@)
            } else {
                r matches RaceStep::Wait
            },
        },
        r matches RaceStep::Failed(_) ==> (latest_status@ == "failed"@ || latest_status@
            == "cancelled"@),
{
    match scan_job_id {
        Some(id) => return RaceStep::Found(id),
        None => {},
    }
    match checkpoint_scan_job_id {
        Some(id) => return RaceStep::Found(id),
        None => {},
    }
    if same_text(latest_status, "failed") || same_text(latest_status, "cancelled") {
        let mut m = string_of("task ");
        append_str(&mut m, task_id);
        append_str(&mut m, " moved to terminal status ");
        append_str(&mut m, latest_status);
        append_str(&mut m, " without scan job id");
        RaceStep::Failed(m)
    } else {
        RaceStep::Wait
    }
}

/// `task <id><tail>`
pub fn task_message(task_id: &str, tail: &str) -> (r: String)
    ensures
        r@ == "task "@ + task_id@ + tail@,
{
    let mut m = string_of("task ");
    append_str(&mut m, task_id);
    append_str(&mut m, tail);
    m
}

// ---------------------------------------------------------------------------
// Reconciling a task with its scan job
// ---------------------------------------------------------------------------

/// A scan task and the scan job it is linked to, as stored.
#[derive(Debug, Clone)]
pub struct ReconcileInput {
    pub task_status: String,
    pub scan_job_id: Option<String>,
    /// Seconds since the task was last updated; `None` where its update
    /// time does not read as a time.
    pub task_age_seconds: Option<i64>,
    pub scan_status: Option<String>,
    pub processed_count: Option<i64>,
    pub total_count: Option<i64>,
    pub error_message: Option<String>,
    pub finished_at: Option<String>,
}

/// What reconciling a task does.
#[derive(Debug, Clone)]
pub enum ReconcileAction {
    /// Leave the task alone.
    Keep,
    /// A running task without a scan job went stale: fail it.
    FailStale,
    /// The linked scan job is gone: fail the task.
    FailMissingScan,
    /// The scan job is still pending or running: the task runs and records it.
    Follow { scan_job_id: String, scan_status: String },
    /// The scan job ended: the task ends the same way.
    Finish {
        scan_job_id: String,
        status: String,
        progress_done: i64,
        progress_total: Option<i64>,
        error_message: Option<String>,
        finished_at: Option<String>,
    },
}

pub open spec fn stale_limit(stale_seconds: int) -> int {
    if stale_seconds < 1 {
        1
    } else {
        stale_seconds
    }
}

pub open spec fn reconcile_spec(i: ReconcileInput, stale_seconds: int, r: ReconcileAction) -> bool {
    match i.scan_job_id {
        None => if i.task_status@ == "running"@ && (i.task_age_seconds matches Some(a) && a
            > stale_limit(stale_seconds)) {
            r is FailStale
        } else {
            r is Keep
        },
        Some(sid) => match i.scan_status {
            None => r is FailMissingScan,
            Some(ss) => if is_active_status(ss@) {
                r matches ReconcileAction::Follow { scan_job_id, scan_status } && scan_job_id@
                    == sid@ && scan_status@ == ss@
            } else {
                r matches ReconcileAction::Finish {
                    scan_job_id,
                    status,
                    progress_done,
                    progress_total,
                    error_message,
                    finished_at,
                } && scan_job_id@ == sid@ && status@ == ss@ && progress_done == match i.processed_count {
                    Some(n) => n,
                    None => 0,
                } && progress_total == i.total_count && opt_view(error_message) == opt_view(
                    i.error_message,
                ) && opt_view(finished_at) == opt_view(i.finished_at)
            },
        },
    }
}

/// Decides how a scan task follows its scan job.
pub fn reconcile_action(input: &ReconcileInput, stale_seconds: i64) -> (r: ReconcileAction)
    ensures
        reconcile_spec(*input, stale_seconds as int, r),
{
    match &input.scan_job_id {
        None => {
            if same_text(input.task_status.as_str(), "running") {
                let limit = if stale_seconds < 1 {
                    1
                } else {
                    stale_seconds
                };
                match input.task_age_seconds {
                    Some(a) => {
                        if a > limit {
                            return ReconcileAction::FailStale;
                        }
                    },
                    None => {},
                }
            }
            ReconcileAction::Keep
        },
        Some(sid) => match &input.scan_status {
            None => ReconcileAction::FailMissingScan,
            Some(ss) => {
                if status_is_active(ss.as_str()) {
                    ReconcileAction::Follow { scan_job_id: sid.clone(), scan_status: ss.clone() }
                } else {
                    let done = match input.processed_count {
                        Some(n) => n,
                        None => 0,
                    };
                    ReconcileAction::Finish {
                        scan_job_id: sid.clone(),
                        status: ss.clone(),
                        progress_done: done,
                        progress_total: input.total_count,
                        error_message: match &input.error_message {
                            Some(e) => Some(e.clone()),
                            None => None,
                        },
                        finished_at: match &input.finished_at {
                            Some(e) => Some(e.clone()),
                            None => None,
                        },
                    }
                }
            },
        },
    }
}

// ---------------------------------------------------------------------------
// Daemon health
// ---------------------------------------------------------------------------

/// A daemon task as stored, with the age of its last heartbeat.
#[derive(Debug, Clone)]
pub struct DaemonRow {
    pub id: String,
    pub task_type: String,
    pub status: String,
    pub heartbeat_at: Option<String>,
    /// Seconds since the heartbeat; `None` when there is none or it does
    /// not read as a time.
    pub heartbeat_age_seconds: Option<i64>,
}

#[derive(Debug, Clone)]
pub struct DaemonTaskHealthItem {
    pub id: String,
    pub task_type: String,
    pub status: String,
    pub heartbeat_at: Option<String>,
    pub healthy: bool,
}

#[derive(Debug, Clone)]
pub struct TaskHealthData {
    pub healthy: bool,
    pub stale_after_seconds: i64,
    pub daemon_tasks: Vec<DaemonTaskHealthItem>,
}

/// A daemon is healthy while running with a heartbeat no older than the
/// limit.
pub open spec fn daemon_healthy(row: DaemonRow, stale_after: int) -> bool {
    row.status@ == "running"@ && (row.heartbeat_age_seconds matches Some(a) && a <= stale_after)
}

/// A daemon that is not running, or whose heartbeat is missing or older
/// than the limit, is never healthy; one that is running with a fresh
/// heartbeat is.
pub proof fn law_unhealthy_daemons(row: DaemonRow, stale_after: int)
    ensures
        row.status@ != "running"@ ==> !daemon_healthy(row, stale_after),
        row.heartbeat_age_seconds is None ==> !daemon_healthy(row, stale_after),
        (row.heartbeat_age_seconds matches Some(a) && a > stale_after) ==> !daemon_healthy(
            row,
            stale_after,
        ),
        (row.status@ == "running"@ && (row.heartbeat_age_seconds matches Some(a) && a
            <= stale_after)) ==> daemon_healthy(row, stale_after),
{
}

pub open spec fn health_item_of(item: DaemonTaskHealthItem, row: DaemonRow, stale_after: int) -> bool {
    &&& item.id@ == row.id@
    &&& item.task_type@ == row.task_type@
    &&& item.status@ == row.status@
    &&& opt_view(item.heartbeat_at) == opt_view(row.heartbeat_at)
    &&& item.healthy == daemon_healthy(row, stale_after)
}

/// The health of the daemon tasks: each judged on its own, and all
/// together healthy when every one is.
pub fn evaluate_task_health(rows: &Vec<DaemonRow>, stale_after_seconds: i64) -> (r: TaskHealthData)
    ensures
        r.stale_after_seconds == stale_after_seconds,
        r.daemon_tasks@.len() == rows@.len(),
        forall|i: int|
            0 <= i < rows@.len() ==> health_item_of(
                #[trigger] r.daemon_tasks@[i],
                rows@[i],
                stale_after_seconds as int,
            ),
        r.healthy == forall|i: int|
            0 <= i < rows@.len() ==> daemon_healthy(#[trigger] rows@[i], stale_after_seconds as int),
        forall|i: int|
            0 <= i < rows@.len() ==> (#[trigger] r.daemon_tasks@[i]).healthy == (
            rows@[i].status@ == "running"@ && (rows@[i].heartbeat_age_seconds matches Some(a) && a
                <= stale_after_seconds)),
        forall|i: int|
            0 <= i < rows@.len() && rows@[i].status@ != "running"@ ==> !(
            #[trigger] r.daemon_tasks@[i]).healthy && !r.healthy,
        r.healthy <==> forall|i: int|
            0 <= i < rows@.len() ==> (#[trigger] r.daemon_tasks@[i]).healthy,
{
    let mut items: Vec<DaemonTaskHealthItem> = Vec::new();
    let mut all = true;
    let mut i: usize = 0;
    while i < rows.len()
        invariant
            i <= rows.len(),
            items@.len() == i,
            forall|k: int|
                0 <= k < i ==> health_item_of(
                    #[trigger] items@[k],
                    rows@[k],
                    stale_after_seconds as int,
                ),
            all == forall|k: int|
                0 <= k < i ==> daemon_healthy(#[trigger] rows@[k], stale_after_seconds as int),
        decreases rows.len() - i,
    {
        let row = &rows[i];
        let fresh = match row.heartbeat_age_seconds {
            Some(a) => a <= stale_after_seconds,
            None => false,
        };
        let healthy = same_text(row.status.as_str(), "running") && fresh;
        if !healthy {
            all = false;
        }
        items.push(
            DaemonTaskHealthItem {
                id: row.id.clone(),
                task_type: row.task_type.clone(),
                status: row.status.clone(),
                heartbeat_at: match &row.heartbeat_at {
                    Some(h) => Some(h.clone()),
                    None => None,
                },
                healthy,
            },
        );
        i += 1;
    }
    proof {
        assert(all <==> forall|k: int| 0 <= k < rows@.len() ==> (#[trigger] items@[k]).healthy) by {
            if all {
                assert forall|k: int| 0 <= k < rows@.len() implies (#[trigger] items@[k]).healthy by {
                    assert(health_item_of(items@[k], rows@[k], stale_after_seconds as int));
                    assert(daemon_healthy(rows@[k], stale_after_seconds as int));
                }
            } else {
                let k = choose|k: int|
                    0 <= k < rows@.len() && !daemon_healthy(
                        #[trigger] rows@[k],
                        stale_after_seconds as int,
                    );
                assert(health_item_of(items@[k], rows@[k], stale_after_seconds as int));
            }
        }
    }
    TaskHealthData { healthy: all, stale_after_seconds, daemon_tasks: items }
}

/// The instant an RFC 3339 text names, as seconds since 1970-01-01T00:00:00Z
/// and the nanoseconds past that second, or `None` where the text does
/// not read as such a time.
pub uninterp spec fn rfc3339_instant(text: Seq<char>) -> Option<(int, int)>;

/// `DateTime::parse_from_rfc3339`, as `timestamp()` and
/// `timestamp_subsec_nanos()`.
#[verifier::external_body]
fn parse_rfc3339_instant(text: &str) -> (r: Option<(i64, u32)>)
    ensures
        match r {
            Some(x) => rfc3339_instant(text@) == Some((x.0 as int, x.1 as int)) && x.1 < 2_000_000_000,
            None => rfc3339_instant(text@) is None,
        },
{
    match chrono::DateTime::parse_from_rfc3339(text) {
        Ok(t) => Some((t.timestamp(), t.timestamp_subsec_nanos())),
        Err(_) => None,
    }
}

/// The nanoseconds from one instant to another.
pub open spec fn nanos_between(a: (int, int), b: (int, int)) -> int {
    (b.0 - a.0) * 1_000_000_000 + (b.1 - a.1)
}

/// The whole seconds in a span of nanoseconds, cut toward zero.
pub open spec fn whole_seconds(nanos: int) -> int {
    if nanos >= 0 {
        nanos / 1_000_000_000
    } else {
        -((-nanos) / 1_000_000_000)
    }
}

/// How long ago (in whole seconds, at `now`) a recorded time was.
pub open spec fn age_spec(then: Seq<char>, now: Seq<char>) -> Option<int> {
    match (rfc3339_instant(then), rfc3339_instant(now)) {
        (Some(a), Some(b)) => Some(whole_seconds(nanos_between(a, b))),
        _ => None,
    }
}

/// How long ago (in whole seconds, at `now`) a recorded time was; `None`
/// where there is no time or either does not read as one.
pub fn age_seconds(then: &Option<String>, now: &str) -> (r: Option<i64>)
    ensures
        r == match then {
            Some(t) => match age_spec(t@, now@) {
                Some(x) => Some(x as i64),
                None => None,
            },
            None => None::<i64>,
        },
{
    let t = match then {
        Some(t) => t,
        None => return None,
    };
    let a = match parse_rfc3339_instant(t.as_str()) {
        Some(x) => x,
        None => return None,
    };
    let b = match parse_rfc3339_instant(now) {
        Some(x) => x,
        None => return None,
    };
    let nanos: i128 = (b.0 as i128 - a.0 as i128) * 1_000_000_000 + (b.1 as i128 - a.1 as i128);
    let secs: i128 = if nanos >= 0 {
        nanos / 1_000_000_000
    } else {
        -((-nanos) / 1_000_000_000)
    };
    proof {
        assert(nanos == nanos_between((a.0 as int, a.1 as int), (b.0 as int, b.1 as int)));
    }
    Some(secs as i64)
}

/// The staleness limit a health query uses: 15 seconds unless given, and
/// at least one second.
pub fn stale_after_or_default(requested: Option<i64>) -> (r: i64)
    ensures
        r == match requested {
            Some(v) => if v < 1 {
                1
            } else {
                v
            },
            None => 15,
        },
{
    match requested {
        Some(v) => if v < 1 {
            1
        } else {
            v
        },
        None => 15,
    }
}

} // verus!
