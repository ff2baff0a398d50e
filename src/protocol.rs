use vstd::prelude::*;
use vstd::string::*;
use std::collections::HashMap;
use crate::text::{parse_u64, parsed_u64};

verus! {

/// Stage of a protocol session's lifetime.
#[derive(Clone, Copy, Debug, PartialEq, Eq)]
pub enum ClientState {
    Uninitialized,
    Initializing,
    Ready,
    ShuttingDown,
    Terminated,
}

/// Something that moves a session to its next stage.
#[derive(Clone, Copy, Debug, PartialEq, Eq)]
pub enum LifecycleEvent {
    /// The `initialize` request was sent.
    HandshakeStarted,
    /// `initialized` and the configuration change were sent, and the settle
    /// delay elapsed.
    HandshakeDone,
    /// `shutdown` is about to be sent.
    ShutdownRequested,
    /// The server process exited.
    ProcessExited,
}

/// The stage that follows `s` on event `e`; `None` where `e` cannot happen.
pub open spec fn next_state(s: ClientState, e: LifecycleEvent) -> Option<ClientState> {
    match (s, e) {
        (ClientState::Uninitialized, LifecycleEvent::HandshakeStarted) => Some(
            ClientState::Initializing,
        ),
        (ClientState::Initializing, LifecycleEvent::HandshakeDone) => Some(ClientState::Ready),
        (ClientState::Ready, LifecycleEvent::ShutdownRequested) => Some(ClientState::ShuttingDown),
        (ClientState::ShuttingDown, LifecycleEvent::ProcessExited) => Some(ClientState::Terminated),
        _ => None,
    }
}

/// How a message read from the server is to be decoded.
#[derive(Clone, Copy, Debug, PartialEq, Eq)]
pub enum MessageKind {
    Request,
    Notification,
    Response,
}

/// A message with a method is a request when it also has an id and a
/// notification otherwise; one without a method is a response.
pub fn message_kind(has_method: bool, has_id: bool) -> (r: MessageKind)
    ensures
        has_method && has_id ==> r == MessageKind::Request,
        has_method && !has_id ==> r == MessageKind::Notification,
        !has_method ==> r == MessageKind::Response,
{
    if has_method {
        if has_id {
            MessageKind::Request
        } else {
            MessageKind::Notification
        }
    } else {
        MessageKind::Response
    }
}

/// The id of a message as it appeared on the wire.
#[derive(Debug)]
pub enum RawId {
    /// A number; `None` when it is not a non-negative integer that fits in
    /// 64 bits.
    Number(Option<u64>),
    Text(String),
    Null,
    /// Any other JSON value.
    Other,
}

/// Why a message id cannot be used.
#[derive(Clone, Copy, Debug, PartialEq, Eq)]
pub enum IdError {
    InvalidNumber,
    NotNumeric,
    Null,
    Unsupported,
}

pub open spec fn id_spec(id: RawId) -> Result<u64, IdError> {
    match id {
        RawId::Number(Some(n)) => Ok(n),
        RawId::Number(None) => Err(IdError::InvalidNumber),
        RawId::Text(s) => match parsed_u64(s@) {
            Some(v) => Ok(v as u64),
            None => Err(IdError::NotNumeric),
        },
        RawId::Null => Err(IdError::Null),
        RawId::Other => Err(IdError::Unsupported),
    }
}

/// The numeric value of a message id: a number, or a string of digits.
pub fn id_from(id: &RawId) -> (r: Result<u64, IdError>)
    ensures
        r == id_spec(*id),
{
    match id {
        RawId::Number(Some(n)) => Ok(*n),
        RawId::Number(None) => Err(IdError::InvalidNumber),
        RawId::Text(s) => match parse_u64(s.as_str()) {
            Some(v) => Ok(v),
            None => Err(IdError::NotNumeric),
        },
        RawId::Null => Err(IdError::Null),
        RawId::Other => Err(IdError::Unsupported),
    }
}

/// The answer to a request the server sent.
#[derive(Clone, Copy, Debug, PartialEq, Eq)]
pub enum ServerReply {
    /// An array with one `null` per requested configuration item.
    NullPerItem(usize),
    /// The list holding the workspace folder registered at startup.
    WorkspaceFolders,
    /// `null`: a progress token was registered.
    Null,
    /// `null`, for a request this client does not handle.
    Unhandled,
}

pub open spec fn reply_spec(method: Seq<char>, item_count: usize) -> ServerReply {
    if method == "workspace/configuration"@ {
        ServerReply::NullPerItem(item_count)
    } else if method == "workspace/workspaceFolders"@ {
        ServerReply::WorkspaceFolders
    } else if method == "window/workDoneProgress/create"@ {
        ServerReply::Null
    } else {
        ServerReply::Unhandled
    }
}

/// How to answer a server request; `item_count` is the number of items a
/// configuration request asks for.
pub fn reply_for(method: &String, item_count: usize) -> (r: ServerReply)
    ensures
        r == reply_spec(method@, item_count),
{
    if *method == String::from_str("workspace/configuration") {
        ServerReply::NullPerItem(item_count)
    } else if *method == String::from_str("workspace/workspaceFolders") {
        ServerReply::WorkspaceFolders
    } else if *method == String::from_str("window/workDoneProgress/create") {
        ServerReply::Null
    } else {
        ServerReply::Unhandled
    }
}

/// What to do with a server notification: all are only logged.
#[derive(Clone, Copy, Debug, PartialEq, Eq)]
pub enum NotificationAction {
    /// Log the message the server sent.
    LogPayload,
    /// Known and of no interest.
    Ignore,
    /// Log that the method is not handled.
    LogUnhandled,
}

pub open spec fn notification_spec(method: Seq<char>) -> NotificationAction {
    if method == "window/logMessage"@ {
        NotificationAction::LogPayload
    } else if method == "textDocument/publishDiagnostics"@ || method == "$/progress"@ || method
        == "telemetry/event"@ {
        NotificationAction::Ignore
    } else {
        NotificationAction::LogUnhandled
    }
}

pub fn notification_action(method: &String) -> (r: NotificationAction)
    ensures
        r == notification_spec(method@),
{
    if *method == String::from_str("window/logMessage") {
        NotificationAction::LogPayload
    } else if *method == String::from_str("textDocument/publishDiagnostics") || *method
        == String::from_str("$/progress") || *method == String::from_str("telemetry/event") {
        NotificationAction::Ignore
    } else {
        NotificationAction::LogUnhandled
    }
}

/// A message read while waiting for a response, reduced to what decides the
/// next step.
#[derive(Debug)]
pub enum Incoming {
    Response { id: RawId, is_error: bool },
    Notification { method: String },
    Request { method: String, item_count: usize },
}

/// The next step of a client waiting for the response to one request.
#[derive(Clone, Copy, Debug, PartialEq, Eq)]
pub enum WaitStep {
    /// The awaited response arrived with a result.
    Complete,
    /// The awaited response arrived with an error object.
    Failed,
    /// A response to some other request: discard it and keep waiting.
    Discard(u64),
    /// A response whose id is unusable.
    BadId(IdError),
    /// Send this reply to the server's request, then keep waiting.
    Reply(ServerReply),
    /// Handle the notification, then keep waiting.
    Notified(NotificationAction),
}

pub open spec fn wait_spec(awaited: u64, msg: Incoming) -> WaitStep {
    match msg {
        Incoming::Response { id, is_error } => match id_spec(id) {
            Err(e) => WaitStep::BadId(e),
            Ok(n) => if n != awaited {
                WaitStep::Discard(n)
            } else if is_error {
                WaitStep::Failed
            } else {
                WaitStep::Complete
            },
        },
        Incoming::Notification { method } => WaitStep::Notified(notification_spec(method@)),
        Incoming::Request { method, item_count } => WaitStep::Reply(
            reply_spec(method@, item_count),
        ),
    }
}

/// Request bookkeeping of one protocol session: fresh ids and the methods of
/// requests still awaiting their response.
pub struct ProtocolSession {
    next_request_id: u64,
    pending_requests: HashMap<u64, String>,
    state: ClientState,
}

impl ProtocolSession {
    /// The id the next request gets.
    pub closed spec fn next_id(&self) -> nat {
        self.next_request_id as nat
    }

    /// Methods of the requests sent and not yet answered, by id.
    pub closed spec fn pending(&self) -> Map<u64, String> {
        self.pending_requests@
    }

    pub closed spec fn stage(&self) -> ClientState {
        self.state
    }

    /// Ids start at 1 and every pending id was handed out before.
    pub closed spec fn wf(&self) -> bool {
        &&& self.next_request_id >= 1
        &&& forall|id: u64| #[trigger]
            self.pending_requests@.contains_key(id) ==> id < self.next_request_id
    }

    pub fn new() -> (r: ProtocolSession)
        ensures
            r.wf(),
            r.next_id() == 1,
            r.pending() == Map::<u64, String>::empty(),
            r.stage() == ClientState::Uninitialized,
    {
        ProtocolSession {
            next_request_id: 1,
            pending_requests: HashMap::new(),
            state: ClientState::Uninitialized,
        }
    }

    pub fn state(&self) -> (r: ClientState)
        ensures
            r == self.stage(),
    {
        self.state
    }

    pub fn pending_count(&self) -> (r: usize)
        ensures
            r == self.pending().len(),
    {
        self.pending_requests.len()
    }

    /// Records that `event` happened; refused, with the stage unchanged,
    /// where the event cannot happen in the current stage.
    pub fn advance(&mut self, event: LifecycleEvent) -> (r: bool)
        requires
            old(self).wf(),
        ensures
            final(self).wf(),
            r == next_state(old(self).stage(), event) is Some,
            final(self).stage() == match next_state(old(self).stage(), event) {
                Some(s) => s,
                None => old(self).stage(),
            },
            final(self).next_id() == old(self).next_id(),
            final(self).pending() == old(self).pending(),
    {
        let next = match (self.state, event) {
            (ClientState::Uninitialized, LifecycleEvent::HandshakeStarted) => Some(
                ClientState::Initializing,
            ),
            (ClientState::Initializing, LifecycleEvent::HandshakeDone) => Some(ClientState::Ready),
            (ClientState::Ready, LifecycleEvent::ShutdownRequested) => Some(
                ClientState::ShuttingDown,
            ),
            (ClientState::ShuttingDown, LifecycleEvent::ProcessExited) => Some(
                ClientState::Terminated,
            ),
            _ => None,
        };
        match next {
            Some(s) => {
                self.state = s;
                true
            },
            None => false,
        }
    }

    /// Hands out a fresh id for a request of `method` and records it as
    /// pending; `None`, with nothing changed, once ids are exhausted.
    pub fn begin_request(&mut self, method: &str) -> (r: Option<u64>)
        requires
            old(self).wf(),
        ensures
            final(self).wf(),
            final(self).stage() == old(self).stage(),
            r is None <==> old(self).next_id() == u64::MAX,
            r is None ==> *final(self) == *old(self),
            r matches Some(id) ==> {
                &&& id == old(self).next_id()
                &&& final(self).next_id() == old(self).next_id() + 1
                &&& final(self).pending() == old(self).pending().insert(id, final(self).pending()[id])
                &&& final(self).pending()[id]@ == method@
                &&& !old(self).pending().contains_key(id)
            },
    {
        if self.next_request_id == u64::MAX {
            return None;
        }
        let id = self.next_request_id;
        self.next_request_id = id + 1;
        self.pending_requests.insert(id, method.to_owned());
        Some(id)
    }

    /// Decides what a message read while waiting for request `awaited`
    /// means. When it is the awaited response, the request is no longer
    /// pending.
    pub fn on_message(&mut self, awaited: u64, msg: &Incoming) -> (r: WaitStep)
        requires
            old(self).wf(),
        ensures
            final(self).wf(),
            r == wait_spec(awaited, *msg),
            final(self).next_id() == old(self).next_id(),
            final(self).stage() == old(self).stage(),
            (r == WaitStep::Complete || r == WaitStep::Failed) ==> final(self).pending()
                == old(self).pending().remove(awaited),
            !(r == WaitStep::Complete || r == WaitStep::Failed) ==> final(self).pending()
                == old(self).pending(),
    {
        match msg {
            Incoming::Response { id, is_error } => match id_from(id) {
                Err(e) => WaitStep::BadId(e),
                Ok(n) => {
                    if n != awaited {
                        WaitStep::Discard(n)
                    } else {
                        self.pending_requests.remove(&awaited);
                        if *is_error {
                            WaitStep::Failed
                        } else {
                            WaitStep::Complete
                        }
                    }
                },
            },
            Incoming::Notification { method } => WaitStep::Notified(notification_action(method)),
            Incoming::Request { method, item_count } => WaitStep::Reply(
                reply_for(method, *item_count),
            ),
        }
    }
}

/// Attempts a reference query may take, the first included.
pub const MAX_ATTEMPTS: u32 = 3;

/// Time allowed for one reference query, in milliseconds.
pub const REQUEST_TIMEOUT_MS: u64 = 30000;

/// Wait before a failed reference query is tried again, in milliseconds.
pub const RETRY_BACKOFF_MS: u64 = 500;

/// How one attempt at a reference query ended.
#[derive(Clone, Copy, Debug, PartialEq, Eq)]
pub enum AttemptOutcome {
    /// The server answered: the number of locations, or `None` for `null`.
    Answered(Option<usize>),
    /// The answer was not a list of locations.
    Undecodable,
    /// The request failed: transport or protocol error.
    Failed,
    /// No answer within the timeout.
    TimedOut,
}

/// What a reference query does after an attempt.
#[derive(Clone, Copy, Debug, PartialEq, Eq)]
pub enum RetryStep {
    /// The query is done, with this raw location count.
    Done(usize),
    /// Wait this many milliseconds, then try again.
    Retry(u64),
    /// Report the last attempt's error.
    GiveUp,
    /// Report that the answer could not be decoded.
    Abort,
}

/// Retry bookkeeping of one reference query.
pub struct ReferenceRetry {
    attempt: u32,
}

impl ReferenceRetry {
    /// Attempts are numbered from 1 up to the last one allowed.
    #[verifier::type_invariant]
    closed spec fn attempt_in_range(&self) -> bool {
        1 <= self.attempt <= MAX_ATTEMPTS
    }

    /// The attempt under way, from 1.
    pub closed spec fn attempt_number(&self) -> nat {
        self.attempt as nat
    }

    pub fn new() -> (r: ReferenceRetry)
        ensures
            r.attempt_number() == 1,
    {
        ReferenceRetry { attempt: 1 }
    }

    pub fn attempt(&self) -> (r: u32)
        ensures
            r == self.attempt_number(),
            1 <= r <= MAX_ATTEMPTS,
    {
        proof {
            use_type_invariant(self);
        }
        self.attempt
    }

    /// Decides the next step after the current attempt ended with `outcome`:
    /// an answer ends the query; a failure or timeout is retried after the
    /// backoff until the last attempt, whose error is reported.
    pub fn on_outcome(&mut self, outcome: AttemptOutcome) -> (r: RetryStep)
        ensures
            match outcome {
                AttemptOutcome::Answered(Some(n)) => r == RetryStep::Done(n),
                AttemptOutcome::Answered(None) => r == RetryStep::Done(0),
                AttemptOutcome::Undecodable => r == RetryStep::Abort,
                _ => if old(self).attempt_number() < MAX_ATTEMPTS {
                    r == RetryStep::Retry(RETRY_BACKOFF_MS)
                } else {
                    r == RetryStep::GiveUp
                },
            },
            r is Retry ==> final(self).attempt_number() == old(self).attempt_number() + 1,
            !(r is Retry) ==> final(self).attempt_number() == old(self).attempt_number(),
    {
        match outcome {
            AttemptOutcome::Answered(Some(n)) => RetryStep::Done(n),
            AttemptOutcome::Answered(None) => RetryStep::Done(0),
            AttemptOutcome::Undecodable => RetryStep::Abort,
            _ => {
                proof {
                    use_type_invariant(&*self);
                }
                if self.attempt < MAX_ATTEMPTS {
                    self.attempt = self.attempt + 1;
                    RetryStep::Retry(RETRY_BACKOFF_MS)
                } else {
                    RetryStep::GiveUp
                }
            },
        }
    }
}

} // verus!
