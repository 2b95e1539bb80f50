//! How clients talk to the runner of a job.
use vstd::prelude::*;
use vstd::string::*;

use super::order::PROTOCOL_VERSION;
use super::state::{active, job_phase_name, same_state, JobPhase, JobState};
use crate::app::probe::saturating;
use crate::app::write_state::CancellationToken;
use crate::text::{cat3, cat4, decimal, decimal_spec};

verus! {

/// No message is longer.
pub const MAX_MESSAGE_BYTES: usize = 1048576;

/// No client waits longer for a change, in milliseconds.
pub const MAX_WATCH_MILLIS: u64 = 30000;

/// What a client asks for.
#[derive(Debug, Clone, Copy, PartialEq, Eq, Structural)]
pub enum Request {
    Status { protocol_version: u16 },
    /// The state once it is newer than a revision.
    Watch { protocol_version: u16, after_revision: u64, timeout_ms: u64 },
    Cancel { protocol_version: u16 },
}

/// The version that a request speaks.
pub open spec fn version_of(request: Request) -> u16 {
    match request {
        Request::Status { protocol_version } => protocol_version,
        Request::Watch { protocol_version, .. } => protocol_version,
        Request::Cancel { protocol_version } => protocol_version,
    }
}

impl Request {
    /// The version that a request speaks.
    pub fn version(&self) -> (version: u16)
        ensures
            version == version_of(*self),
    {
        match self {
            Request::Status { protocol_version } => *protocol_version,
            Request::Watch { protocol_version, after_revision: _, timeout_ms: _ } =>
                *protocol_version,
            Request::Cancel { protocol_version } => *protocol_version,
        }
    }
}

/// What the runner answers.
#[derive(Debug, PartialEq, Eq)]
pub enum Response {
    State { state: Box<JobState> },
    CancelAccepted { state: Box<JobState> },
    Error { message: String },
}

/// Which message was too long.
#[derive(Debug, Clone, Copy, PartialEq, Eq, Structural)]
pub enum MessageSide {
    Request,
    Response,
}

/// Whether a message that was read, one byte beyond the limit at most, is within it.
pub fn check_message_size(len: usize, side: MessageSide) -> (result: Result<(), String>)
    ensures
        match result {
            Ok(_) => len <= MAX_MESSAGE_BYTES,
            Err(message) => len > MAX_MESSAGE_BYTES && message@ == (match side {
                MessageSide::Request => "IPC request 超过大小限制"@,
                MessageSide::Response => "IPC response 超过大小限制"@,
            }),
        },
{
    if len > MAX_MESSAGE_BYTES {
        return Err(
            match side {
                MessageSide::Request => "IPC request 超过大小限制".to_owned(),
                MessageSide::Response => "IPC response 超过大小限制".to_owned(),
            },
        );
    }
    Ok(())
}

/// A job under control: its state, and whether it was asked to stop.
pub struct JobControl {
    pub state: JobState,
    pub cancellation: CancellationToken,
}

/// A job that is asked to stop.
pub open spec fn stop_asked(before: JobState, now: String, after: JobState) -> bool {
    if active(before.phase) && !(before.phase is CancellationRequested) {
        after == (JobState {
            revision: saturating(before.revision as int, 1),
            updated_at: now,
            phase: JobPhase::CancellationRequested,
            message: after.message,
            ..before
        }) && after.message@ == "已请求取消，等待 Application 安全停止点"@
    } else {
        after == before
    }
}

impl JobControl {
    pub fn new(state: JobState, cancellation: CancellationToken) -> (control: JobControl)
        ensures
            control.state == state,
            control.cancellation == cancellation,
    {
        JobControl { state, cancellation }
    }

    /// The state as it is.
    pub fn snapshot(&self) -> (state: JobState)
        ensures
            same_state(state, self.state),
    {
        self.state.clone()
    }

    /// Asks the job to stop. The write or read that it runs learns of it by the token.
    pub fn request_cancel(&mut self, now: String)
        ensures
            stop_asked(old(self).state, now, final(self).state),
            final(self).cancellation.requested == (old(self).cancellation.requested
                || final(self).state.phase is CancellationRequested),
    {
        self.state.ask_to_stop(now);
        if self.state.phase == JobPhase::CancellationRequested {
            self.cancellation.request_cancel();
        }
    }

    /// Whether a client that knows a revision gets its answer at once.
    pub fn watch_ready(&self, after_revision: u64) -> (yes: bool)
        ensures
            yes == (self.state.revision > after_revision || !active(self.state.phase)),
    {
        self.state.revision > after_revision || self.state.phase.is_terminal()
    }
}

/// How long a client waits at most.
pub fn watch_timeout(timeout_ms: u64) -> (millis: u64)
    ensures
        millis == if timeout_ms < MAX_WATCH_MILLIS {
            timeout_ms
        } else {
            MAX_WATCH_MILLIS
        },
{
    if timeout_ms < MAX_WATCH_MILLIS {
        timeout_ms
    } else {
        MAX_WATCH_MILLIS
    }
}

/// The answer to a request. A client that watches has waited before.
pub fn handle_request(request: &Request, control: &mut JobControl, now: String) -> (response: Response)
    ensures
        if version_of(*request) != PROTOCOL_VERSION {
            *final(control) == *old(control) && (response matches Response::Error { message }
                && message@ == "protocol version 不匹配：client="@ + decimal_spec(
                version_of(*request) as nat,
            ) + " runner="@ + decimal_spec(PROTOCOL_VERSION as nat))
        } else {
            match *request {
                Request::Cancel { .. } => {
                    &&& stop_asked(old(control).state, now, final(control).state)
                    &&& final(control).cancellation.requested == (
                    old(control).cancellation.requested
                        || final(control).state.phase is CancellationRequested)
                    &&& if final(control).state.phase is CancellationRequested {
                        response matches Response::CancelAccepted { state } && same_state(
                            *state,
                            final(control).state,
                        )
                    } else {
                        response matches Response::Error { message } && message@
                            == "job 已处于终态 "@ + job_phase_name(final(control).state.phase)
                            + "，不能取消"@
                    }
                },
                _ => *final(control) == *old(control) && (response matches Response::State { state }
                    && same_state(*state, old(control).state)),
            }
        },
{
    if request.version() != PROTOCOL_VERSION {
        return Response::Error {
            message: cat4(
                "protocol version 不匹配：client=",
                decimal(request.version() as u64).as_str(),
                " runner=",
                decimal(PROTOCOL_VERSION as u64).as_str(),
            ),
        };
    }
    match request {
        Request::Cancel { protocol_version: _ } => {
            control.request_cancel(now);
            if control.state.phase == JobPhase::CancellationRequested {
                Response::CancelAccepted { state: Box::new(control.snapshot()) }
            } else {
                Response::Error {
                    message: cat3(
                        "job 已处于终态 ",
                        control.state.phase.name(),
                        "，不能取消",
                    ),
                }
            }
        },
        _ => Response::State { state: Box::new(control.snapshot()) },
    }
}

/// What a client makes of the answer to a question for the state.
#[derive(Debug, PartialEq, Eq)]
pub enum StatusOutcome {
    Known(Box<JobState>),
    Failed(String),
    /// The runner does not answer: what it left on disk counts.
    NoRunner,
}

/// What a client makes of the answer to a question for the state.
pub fn status_outcome(answer: Result<Response, String>) -> (outcome: StatusOutcome)
    ensures
        match answer {
            Ok(Response::State { state }) => outcome == StatusOutcome::Known(state),
            Ok(Response::Error { message }) => outcome == StatusOutcome::Failed(message),
            Ok(Response::CancelAccepted { .. }) => outcome matches StatusOutcome::Failed(m) && m@
                == "job runner 返回了意外响应"@,
            Err(_) => outcome is NoRunner,
        },
{
    match answer {
        Ok(Response::State { state }) => StatusOutcome::Known(state),
        Ok(Response::Error { message }) => StatusOutcome::Failed(message),
        Ok(Response::CancelAccepted { state: _ }) => StatusOutcome::Failed(
            "job runner 返回了意外响应".to_owned(),
        ),
        Err(_) => StatusOutcome::NoRunner,
    }
}

/// What a client makes of the answer to a request to stop.
pub fn cancel_outcome(answer: Response) -> (result: Result<Box<JobState>, String>)
    ensures
        match answer {
            Response::CancelAccepted { state } => result == Ok::<Box<JobState>, String>(state),
            Response::Error { message } => result == Err::<Box<JobState>, String>(message),
            Response::State { .. } => result is Err && result->Err_0@
                == "job runner 返回了意外响应"@,
        },
{
    match answer {
        Response::CancelAccepted { state } => Ok(state),
        Response::Error { message } => Err(message),
        Response::State { state: _ } => Err("job runner 返回了意外响应".to_owned()),
    }
}

/// Once a job is asked to stop, asking again changes nothing.
pub proof fn asking_twice_is_asking_once(before: JobState, now: String, once: JobState, later: String, twice: JobState)
    requires
        stop_asked(before, now, once),
        stop_asked(once, later, twice),
    ensures
        twice == once,
{
}

} // verus!
