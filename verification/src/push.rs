//! Pushing stored measurements and health records to the cloud: where the
//! next push starts, where it ends, and what is logged.

use vstd::prelude::*;

use crate::text::copy_string;

verus! {

/// Outcome of a push, as logged.
#[derive(Clone, Copy, Debug, PartialEq, Eq, Structural)]
pub enum LogStatus {
    Success,
    Failure,
}

/// What was pushed.
#[derive(Clone, Copy, Debug, PartialEq, Eq, Structural)]
pub enum LogKind {
    Push,
    Update,
}

/// The cloud's answer to a request.
#[derive(Debug)]
pub struct CloudResponse {
    pub success: bool,
    pub text: String,
    pub code: u16,
}

/// A log entry of a push.
#[derive(Debug)]
pub struct PushLog {
    /// Id of the last record pushed.
    pub last: Option<i64>,
    pub status: LogStatus,
    pub kind: LogKind,
    /// The answer's text, or the error's.
    pub response: String,
}

/// Where the next push starts: after the last record of the last successful
/// push, or from the beginning when there is none.
pub open spec fn push_start_spec(last_successful: Option<Option<i64>>) -> i64 {
    match last_successful {
        Some(Some(last)) => last,
        _ => 0,
    }
}

/// Where the next push starts (see [`push_start_spec`]); `last_successful`
/// is the `last` field of the last successful log of the kind, if any.
pub fn push_start(last_successful: Option<Option<i64>>) -> (start: i64)
    ensures
        start == push_start_spec(last_successful),
{
    match last_successful {
        Some(Some(last)) => last,
        _ => 0,
    }
}

/// The id of the last record of a push: the largest id, none when there is
/// nothing to push.
pub fn push_end(ids: &Vec<i64>) -> (end: Option<i64>)
    ensures
        end is None <==> ids@.len() == 0,
        end matches Some(m) ==> ids@.contains(m) && forall|i: int|
            0 <= i < ids@.len() ==> #[trigger] ids@[i] <= m,
{
    if ids.len() == 0 {
        return None;
    }
    let mut m = ids[0];
    let mut i: usize = 1;
    while i < ids.len()
        invariant
            1 <= i <= ids@.len(),
            ids@.contains(m),
            forall|j: int| 0 <= j < i ==> #[trigger] ids@[j] <= m,
        decreases ids@.len() - i,
    {
        if ids[i] > m {
            m = ids[i];
        }
        i = i + 1;
    }
    Some(m)
}

/// The log entry of a push that ended at `last`: a success when the cloud
/// answered with success, with its answer; a failure with the answer or the
/// error's text otherwise.
pub fn push_log(kind: LogKind, last: i64, result: &Result<CloudResponse, String>) -> (log: PushLog)
    ensures
        log.last == Some(last),
        log.kind == kind,
        match result {
            Ok(response) => log.status == (if response.success {
                LogStatus::Success
            } else {
                LogStatus::Failure
            }) && log.response@ == response.text@,
            Err(error) => log.status == LogStatus::Failure && log.response@ == error@,
        },
{
    match result {
        Ok(response) => PushLog {
            last: Some(last),
            status: if response.success {
                LogStatus::Success
            } else {
                LogStatus::Failure
            },
            kind,
            response: copy_string(&response.text),
        },
        Err(error) => PushLog {
            last: Some(last),
            status: LogStatus::Failure,
            kind,
            response: copy_string(error),
        },
    }
}

/// Law: a push never moves the start of the next push backwards: when the
/// pushed records all come after the start, the end is after the start too,
/// and a successful log of it makes the end the next start.
pub proof fn law_push_cursor_advances(last_successful: Option<Option<i64>>, ids: Seq<i64>, end: i64)
    requires
        ids.len() > 0,
        forall|i: int| 0 <= i < ids.len() ==> #[trigger] ids[i] > push_start_spec(last_successful),
        ids.contains(end),
        forall|i: int| 0 <= i < ids.len() ==> #[trigger] ids[i] <= end,
    ensures
        end > push_start_spec(last_successful),
        push_start_spec(Some(Some(end))) == end,
{
    let k = choose|k: int| 0 <= k < ids.len() && ids[k] == end;
    assert(ids[k] > push_start_spec(last_successful));
}

} // verus!
