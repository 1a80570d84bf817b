//! The background refresh job: one record that says whether a refresh runs,
//! how far it got and how it ended. Each function here is one transition;
//! the caller stores the record and supplies the clock.

use vstd::prelude::*;
use crate::text::{
    chars_of, owned, push_decimal, push_str, same_text, spec_decimal, spec_parse_signed,
    spec_trim, string_from_chars, trim_chars, parse_i64,
};

verus! {

/// The refresh job record.
#[derive(Debug)]
pub struct RefreshJob {
    pub status: String,
    pub kind: String,
    pub current_item: String,
    pub scanned_count: i64,
    pub total_count: i64,
    pub api_calls: i64,
    pub last_error: String,
    pub queued_count: i64,
    pub started_at: String,
    pub last_progress_at: String,
    pub finished_at: String,
}

/// What a request to start a refresh leads to.
#[derive(Clone, Copy, Debug, PartialEq, Eq)]
pub enum StartDecision {
    /// A refresh runs: queue this product for after it.
    Enqueue(i64),
    /// A refresh runs: report it as it is.
    KeepCurrent,
    /// Nothing runs: start the requested refresh.
    Start,
}

/// The record when no job was ever stored.
pub fn idle_refresh_job(queued_count: i64) -> (job: RefreshJob)
    ensures
        job.status@ == "idle"@,
        job.kind@ == Seq::<char>::empty(),
        job.current_item@ == Seq::<char>::empty(),
        job.scanned_count == 0,
        job.total_count == 0,
        job.api_calls == 0,
        job.last_error@ == Seq::<char>::empty(),
        job.queued_count == queued_count,
        job.started_at@ == Seq::<char>::empty(),
        job.last_progress_at@ == Seq::<char>::empty(),
        job.finished_at@ == Seq::<char>::empty(),
{
    RefreshJob {
        status: owned("idle"),
        kind: String::new(),
        current_item: String::new(),
        scanned_count: 0,
        total_count: 0,
        api_calls: 0,
        last_error: String::new(),
        queued_count,
        started_at: String::new(),
        last_progress_at: String::new(),
        finished_at: String::new(),
    }
}

/// Decides what a start request does, given the status of the stored job.
/// A product refresh asked for while a job runs needs its type ID.
pub fn decide_start(current_status: &str, kind: &str, type_id: Option<i64>) -> (r: Result<StartDecision, String>)
    ensures
        current_status@ != "running"@ ==> r == Ok::<StartDecision, String>(StartDecision::Start),
        current_status@ == "running"@ && kind@ != "product"@ ==> r == Ok::<StartDecision, String>(
            StartDecision::KeepCurrent,
        ),
        current_status@ == "running"@ && kind@ == "product"@ ==> match type_id {
            Some(t) => r == Ok::<StartDecision, String>(StartDecision::Enqueue(t)),
            None => r matches Err(e) && e@ == "Missing product type ID"@,
        },
{
    if same_text(current_status, "running") {
        if same_text(kind, "product") {
            match type_id {
                Some(t) => Ok(StartDecision::Enqueue(t)),
                None => Err(owned("Missing product type ID")),
            }
        } else {
            Ok(StartDecision::KeepCurrent)
        }
    } else {
        Ok(StartDecision::Start)
    }
}

/// The record of a refresh that starts now.
pub fn start_job(kind: String, queued_count: i64, now: &str) -> (job: RefreshJob)
    ensures
        job.status@ == "running"@,
        job.kind@ == kind@,
        job.current_item@ == Seq::<char>::empty(),
        job.scanned_count == 0,
        job.total_count == 0,
        job.api_calls == 0,
        job.last_error@ == Seq::<char>::empty(),
        job.queued_count == queued_count,
        job.started_at@ == now@,
        job.last_progress_at@ == now@,
        job.finished_at@ == Seq::<char>::empty(),
{
    RefreshJob {
        status: owned("running"),
        kind,
        current_item: String::new(),
        scanned_count: 0,
        total_count: 0,
        api_calls: 0,
        last_error: String::new(),
        queued_count,
        started_at: owned(now),
        last_progress_at: owned(now),
        finished_at: String::new(),
    }
}

/// Records progress of a running job; a job that is not running is left as it is.
/// A non-empty `last_error` replaces the stored one; `queued` replaces the
/// queue count when it could be read.
pub fn record_progress(
    job: RefreshJob,
    current_item: &str,
    scanned_count: i64,
    total_count: i64,
    api_calls: i64,
    last_error: &str,
    queued: Option<i64>,
    now: &str,
) -> (r: RefreshJob)
    ensures
        job.status@ != "running"@ ==> r == job,
        job.status@ == "running"@ ==> {
            &&& r.status == job.status
            &&& r.kind == job.kind
            &&& r.current_item@ == current_item@
            &&& r.scanned_count == scanned_count
            &&& r.total_count == total_count
            &&& r.api_calls == api_calls
            &&& (if last_error@.len() == 0 {
                r.last_error == job.last_error
            } else {
                r.last_error@ == last_error@
            })
            &&& r.queued_count == (match queued {
                Some(q) => q,
                None => job.queued_count,
            })
            &&& r.started_at == job.started_at
            &&& r.last_progress_at@ == now@
            &&& r.finished_at == job.finished_at
        },
{
    if !same_text(job.status.as_str(), "running") {
        return job;
    }
    let mut job = job;
    job.current_item = owned(current_item);
    job.scanned_count = scanned_count;
    job.total_count = total_count;
    job.api_calls = api_calls;
    let e = chars_of(last_error);
    if e.len() > 0 {
        job.last_error = owned(last_error);
    }
    job.last_progress_at = owned(now);
    job.queued_count = match queued {
        Some(q) => q,
        None => job.queued_count,
    };
    job
}

/// A refresh ended well: the job is done; errors met on the way are kept.
pub fn finish_succeeded(job: RefreshJob, api_calls: i64, errors: String, queued_count: i64, now: &str) -> (r: RefreshJob)
    ensures
        r.status@ == "done"@,
        r.kind == job.kind,
        r.current_item@ == Seq::<char>::empty(),
        r.scanned_count == job.scanned_count,
        r.total_count == job.total_count,
        r.api_calls == api_calls,
        errors@.len() == 0 ==> r.last_error == job.last_error,
        errors@.len() > 0 ==> r.last_error == errors,
        r.queued_count == queued_count,
        r.started_at == job.started_at,
        r.last_progress_at == job.last_progress_at,
        r.finished_at@ == now@,
{
    let mut job = job;
    job.status = owned("done");
    job.current_item = String::new();
    job.api_calls = api_calls;
    let e = chars_of(errors.as_str());
    if e.len() > 0 {
        job.last_error = errors;
    }
    job.queued_count = queued_count;
    job.finished_at = owned(now);
    job
}

/// A refresh ended with an error: the job failed with it.
pub fn finish_failed(job: RefreshJob, error: String, queued_count: i64, now: &str) -> (r: RefreshJob)
    ensures
        r.status@ == "failed"@,
        r.kind == job.kind,
        r.current_item == job.current_item,
        r.scanned_count == job.scanned_count,
        r.total_count == job.total_count,
        r.api_calls == job.api_calls,
        r.last_error == error,
        r.queued_count == queued_count,
        r.started_at == job.started_at,
        r.last_progress_at == job.last_progress_at,
        r.finished_at@ == now@,
{
    let mut job = job;
    job.status = owned("failed");
    job.last_error = error;
    job.queued_count = queued_count;
    job.finished_at = owned(now);
    job
}

/// The queue of product refreshes is empty: the job is done and idle of kind.
pub fn queue_drained(job: RefreshJob, now: &str) -> (r: RefreshJob)
    ensures
        r.status@ == "done"@,
        r.kind@ == Seq::<char>::empty(),
        r.current_item@ == Seq::<char>::empty(),
        r.scanned_count == job.scanned_count,
        r.total_count == job.total_count,
        r.api_calls == job.api_calls,
        r.last_error == job.last_error,
        r.queued_count == 0,
        r.started_at == job.started_at,
        r.last_progress_at == job.last_progress_at,
        r.finished_at@ == now@,
{
    let mut job = job;
    job.status = owned("done");
    job.kind = String::new();
    job.current_item = String::new();
    job.queued_count = 0;
    job.finished_at = owned(now);
    job
}

/// A queued refresh of one item starts now.
pub fn start_queued(job: RefreshJob, kind: String, queued_count: i64, now: &str) -> (r: RefreshJob)
    ensures
        r.status@ == "running"@,
        r.kind == kind,
        r.current_item@ == Seq::<char>::empty(),
        r.scanned_count == 0,
        r.total_count == 1,
        r.api_calls == 0,
        r.last_error == job.last_error,
        r.queued_count == queued_count,
        r.started_at@ == now@,
        r.last_progress_at@ == now@,
        r.finished_at@ == Seq::<char>::empty(),
{
    let mut job = job;
    job.status = owned("running");
    job.kind = kind;
    job.current_item = String::new();
    job.scanned_count = 0;
    job.total_count = 1;
    job.api_calls = 0;
    job.queued_count = queued_count;
    job.started_at = owned(now);
    job.last_progress_at = owned(now);
    job.finished_at = String::new();
    job
}

/// An error message tagged with the item it is about: `"<type id>: <error>"`.
pub open spec fn spec_item_error(type_id: i64, error: Seq<char>) -> Seq<char> {
    spec_decimal(type_id as int) + ": "@ + error
}

/// `"<type id>: <error>"`.
pub fn item_error(type_id: i64, error: &str) -> (r: String)
    ensures
        r@ == spec_item_error(type_id, error@),
{
    let mut v: Vec<char> = Vec::new();
    push_decimal(&mut v, type_id);
    push_str(&mut v, ": ");
    push_str(&mut v, error);
    assert(v@ =~= spec_item_error(type_id, error@));
    string_from_chars(v.as_slice())
}

/// A queued product refresh failed: its error is recorded against the item.
pub fn record_queued_failure(job: RefreshJob, type_id: i64, error: &str) -> (r: RefreshJob)
    ensures
        r.status == job.status,
        r.kind == job.kind,
        r.current_item == job.current_item,
        r.scanned_count == job.scanned_count,
        r.total_count == job.total_count,
        r.api_calls == job.api_calls,
        r.last_error@ == spec_item_error(type_id, error@),
        r.queued_count == job.queued_count,
        r.started_at == job.started_at,
        r.last_progress_at == job.last_progress_at,
        r.finished_at == job.finished_at,
{
    let mut job = job;
    job.last_error = item_error(type_id, error);
    job
}

/// The stale timeout setting: its integer value (600 when it does not
/// parse), and never under a minute.
pub open spec fn spec_stale_timeout(setting: Seq<char>) -> int {
    let v = match spec_parse_signed(setting) {
        Some(x) => if i64::MIN <= x <= i64::MAX {
            x
        } else {
            600
        },
        None => 600,
    };
    if v < 60 {
        60
    } else {
        v
    }
}

/// Reads the stale timeout setting.
pub fn stale_timeout_seconds(setting: &str) -> (r: i64)
    ensures
        r == spec_stale_timeout(setting@),
{
    let v = match parse_i64(setting) {
        Some(x) => x,
        None => 600,
    };
    if v < 60 {
        60
    } else {
        v
    }
}

/// A job whose counts are all scanned looks complete.
pub open spec fn appears_complete(scanned_count: int, total_count: int) -> bool {
    total_count > 0 && scanned_count >= total_count
}

/// Seconds without progress after which a running job counts as stale: at
/// most two minutes for a job that looks complete, otherwise a third of the
/// timeout kept between two minutes and the whole timeout.
pub open spec fn spec_effective_timeout(timeout: int, scanned_count: int, total_count: int) -> int {
    if appears_complete(scanned_count, total_count) {
        if timeout < 120 {
            timeout
        } else {
            120
        }
    } else {
        let third = timeout / 3;
        if third < 120 {
            120
        } else if third > timeout {
            timeout
        } else {
            third
        }
    }
}

/// The effective stale timeout. A job that does not look complete needs a
/// timeout of at least two minutes, as the range it is kept in is otherwise empty.
pub fn effective_stale_timeout(timeout: i64, scanned_count: i64, total_count: i64) -> (r: i64)
    requires
        timeout >= 60,
        appears_complete(scanned_count as int, total_count as int) || timeout >= 120,
    ensures
        r == spec_effective_timeout(timeout as int, scanned_count as int, total_count as int),
        60 <= r <= 120 || (r <= timeout && r >= 120),
{
    if total_count > 0 && scanned_count >= total_count {
        if timeout < 120 {
            timeout
        } else {
            120
        }
    } else {
        let third = timeout / 3;
        if third < 120 {
            120
        } else if third > timeout {
            timeout
        } else {
            third
        }
    }
}

/// A job is stale when it went longer without progress than its effective timeout.
pub fn is_stale(idle_seconds: i64, timeout: i64, scanned_count: i64, total_count: i64) -> (r: bool)
    requires
        timeout >= 60,
        appears_complete(scanned_count as int, total_count as int) || timeout >= 120,
    ensures
        r == (idle_seconds > spec_effective_timeout(timeout as int, scanned_count as int, total_count as int)),
{
    idle_seconds > effective_stale_timeout(timeout, scanned_count, total_count)
}

/// A running job is checked for staleness only when it has a start time.
pub open spec fn spec_needs_stale_check(status: Seq<char>, started_at: Seq<char>) -> bool {
    status == "running"@ && spec_trim(started_at).len() > 0
}

pub fn needs_stale_check(job: &RefreshJob) -> (r: bool)
    ensures
        r == spec_needs_stale_check(job.status@, job.started_at@),
{
    if !same_text(job.status.as_str(), "running") {
        return false;
    }
    let t = trim_chars(job.started_at.as_str());
    t.len() > 0
}

/// The last sign of life of a job: its last progress time, or its start
/// time when no progress was recorded.
pub fn heartbeat(job: &RefreshJob) -> (r: &str)
    ensures
        spec_trim(job.last_progress_at@).len() == 0 ==> r@ == job.started_at@,
        spec_trim(job.last_progress_at@).len() > 0 ==> r@ == job.last_progress_at@,
{
    let t = trim_chars(job.last_progress_at.as_str());
    if t.len() == 0 {
        job.started_at.as_str()
    } else {
        job.last_progress_at.as_str()
    }
}

/// The message a stale job fails with.
pub open spec fn spec_stale_message(
    idle_seconds: i64,
    age_seconds: i64,
    current_item: Seq<char>,
    scanned_count: i64,
    total_count: i64,
    api_calls: i64,
    last_status: Seq<char>,
    last_response_at: Seq<char>,
    last_url: Seq<char>,
) -> Seq<char> {
    let item = if current_item.len() == 0 {
        "unknown"@
    } else {
        current_item
    };
    "Refresh marked failed after "@ + spec_decimal(idle_seconds as int)
        + " seconds without progress ("@ + spec_decimal(age_seconds as int)
        + " seconds total). Last item: "@ + item + "; scanned "@ + spec_decimal(scanned_count as int)
        + "/"@ + spec_decimal(total_count as int) + "; API calls "@ + spec_decimal(api_calls as int)
        + "; last ESI "@ + last_status + " "@ + last_response_at + "; last URL: "@ + last_url + "."@
}

/// Marks a stale job failed, saying how long it went without progress and
/// what the last API response was.
pub fn fail_stale(
    job: RefreshJob,
    idle_seconds: i64,
    age_seconds: i64,
    last_status: &str,
    last_response_at: &str,
    last_url: &str,
    now: &str,
) -> (r: RefreshJob)
    ensures
        r.status@ == "failed"@,
        r.kind == job.kind,
        r.current_item@ == Seq::<char>::empty(),
        r.scanned_count == job.scanned_count,
        r.total_count == job.total_count,
        r.api_calls == job.api_calls,
        r.last_error@ == spec_stale_message(
            idle_seconds,
            age_seconds,
            job.current_item@,
            job.scanned_count,
            job.total_count,
            job.api_calls,
            last_status@,
            last_response_at@,
            last_url@,
        ),
        r.queued_count == job.queued_count,
        r.started_at == job.started_at,
        r.last_progress_at == job.last_progress_at,
        r.finished_at@ == now@,
{
    let mut v: Vec<char> = Vec::new();
    push_str(&mut v, "Refresh marked failed after ");
    push_decimal(&mut v, idle_seconds);
    push_str(&mut v, " seconds without progress (");
    push_decimal(&mut v, age_seconds);
    push_str(&mut v, " seconds total). Last item: ");
    let item = chars_of(job.current_item.as_str());
    if item.len() == 0 {
        push_str(&mut v, "unknown");
    } else {
        push_str(&mut v, job.current_item.as_str());
    }
    push_str(&mut v, "; scanned ");
    push_decimal(&mut v, job.scanned_count);
    push_str(&mut v, "/");
    push_decimal(&mut v, job.total_count);
    push_str(&mut v, "; API calls ");
    push_decimal(&mut v, job.api_calls);
    push_str(&mut v, "; last ESI ");
    push_str(&mut v, last_status);
    push_str(&mut v, " ");
    push_str(&mut v, last_response_at);
    push_str(&mut v, "; last URL: ");
    push_str(&mut v, last_url);
    push_str(&mut v, ".");
    assert(v@ =~= spec_stale_message(
        idle_seconds,
        age_seconds,
        job.current_item@,
        job.scanned_count,
        job.total_count,
        job.api_calls,
        last_status@,
        last_response_at@,
        last_url@,
    ));
    let mut job = job;
    job.status = owned("failed");
    job.current_item = String::new();
    job.last_error = string_from_chars(v.as_slice());
    job.finished_at = owned(now);
    job
}

/// A job that has not scanned a positive total (no total yet, or still
/// short of it) waits a third of the timeout, but at least two minutes and
/// at most the whole timeout, before it counts as stale.
pub proof fn law_unfinished_job_waits_a_third(timeout: int, scanned_count: int, total_count: int)
    requires
        timeout >= 120,
        total_count <= 0 || scanned_count < total_count,
    ensures
        ({
            let e = spec_effective_timeout(timeout, scanned_count, total_count);
            &&& 120 <= e <= timeout
            &&& e >= timeout / 3
            &&& (e == 120 || e == timeout / 3)
        }),
{
}

/// A job that has scanned its whole positive total waits at most two
/// minutes, or the timeout when that is shorter.
pub proof fn law_finished_job_waits_two_minutes(timeout: int, scanned_count: int, total_count: int)
    requires
        total_count > 0,
        scanned_count >= total_count,
    ensures
        spec_effective_timeout(timeout, scanned_count, total_count) == (if timeout < 120 { timeout } else { 120 }),
{
}

/// Seen as a whole: a job with no total yet is judged like one still short
/// of its total, never like a finished one.
pub proof fn law_no_total_is_not_finished(timeout: int, scanned_count: int)
    requires
        timeout >= 120,
    ensures
        spec_effective_timeout(timeout, scanned_count, 0) == spec_effective_timeout(timeout, 0, 1),
{
}

} // verus!
