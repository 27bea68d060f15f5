//! The message side of the channel between the target and the controller:
//! the event and response vocabulary, batching of outbound events, framing
//! of payloads into fixed-size segments, and the decisions of the wait for
//! a response. Reading and writing the shared segments, and encoding
//! messages, happen around this module.
use vstd::prelude::*;
use vstd::string::StringExecFns;
use crate::errors::DbugError;
use crate::text::{nat_text, push_nat};
use crate::evaluator::{eval, evaluate_expression};
use crate::flow_control::FlowControl;
use crate::variables::VariableInspector;

verus! {

/// Pending events that force a flush.
pub const MAX_BATCH_SIZE: usize = 10;

/// Size in bytes of each shared segment.
pub const MMAP_SIZE: usize = 8192;

/// Milliseconds after which a wait for a response gives up.
pub const RESPONSE_TIMEOUT_MS: u64 = 5000;

/// Milliseconds since the last flush after which queuing forces a flush.
pub const FLUSH_INTERVAL_MS: u64 = 100;

/// Milliseconds to sleep between two polls of the inbound segment.
pub const POLL_INTERVAL_MS: u64 = 10;

/// An event from the target to the controller.
#[derive(Debug)]
pub enum DebuggerMessage {
    BreakpointHit { file: String, line: u32, column: u32, function: String },
    FunctionEntered { function: String, file: String, line: u32 },
    FunctionExited { function: String },
    VariableChanged { name: String, type_label: String, value: String, is_mutable: bool },
    /// Several events sent in one payload, in the order they were queued.
    BatchedMessages(Vec<DebuggerMessage>),
    ExpressionResult { expression: String, result: String },
    AsyncTaskCreated { function_name: String, task_id: u64, parent_id: Option<u64> },
    AsyncTaskStateChanged { task_id: u64, old_state: String, new_state: String },
    AsyncFunctionEntered { function_name: String, task_id: u64 },
    AsyncFunctionExited { function_name: String, task_id: u64 },
    AsyncBreakPoint { file: String, line: u32, column: u32, task_id: u64 },
}

/// A command from the controller to the target.
#[derive(Debug)]
pub enum DebuggerResponse {
    Continue,
    StepOver,
    StepInto,
    StepOut,
    Evaluate { expression: String },
}

/// Whether `m` is the payload that one flush of `pending` sends: the event
/// itself when there is one, else a batch of all of them in order.
pub open spec fn is_payload_of(m: DebuggerMessage, pending: Seq<DebuggerMessage>) -> bool {
    if pending.len() == 1 {
        m == pending[0]
    } else {
        m matches DebuggerMessage::BatchedMessages(v) && v@ == pending
    }
}

/// Whether any of `pending` is a breakpoint hit.
pub open spec fn has_breakpoint_hit(pending: Seq<DebuggerMessage>) -> bool {
    exists|i: int| 0 <= i < pending.len() && #[trigger] pending[i] is BreakpointHit
}

/// The flush count after one more flush, held at the largest `u64`.
pub open spec fn next_count(n: u64) -> u64 {
    if n < u64::MAX {
        (n + 1) as u64
    } else {
        n
    }
}

/// Events waiting to be sent, with the state of flushing.
#[derive(Debug)]
pub struct MessageQueue {
    /// Events waiting to be sent, oldest first.
    pub pending: Vec<DebuggerMessage>,
    /// Whether the queue still accepts events.
    pub active: bool,
    /// Whether a payload was handed out and not yet written.
    pub flush_in_progress: bool,
    /// Wall-clock milliseconds of the last flush.
    pub last_flush: u64,
    /// How many flushes happened, held at the largest `u64`.
    pub flush_count: u64,
}


/// The outcome of a flush attempt from `before`: either nothing was sent and
/// the queue stayed, or the pending events left as one payload `r` and the
/// flush was counted.
pub open spec fn flush_outcome(before: MessageQueue, after: MessageQueue, now: u64, r: Option<DebuggerMessage>) -> bool {
    if before.pending@.len() == 0 || !before.active || before.flush_in_progress {
        r is None && after == before
    } else {
        &&& r matches Some(m) && is_payload_of(m, before.pending@)
        &&& after.pending@.len() == 0
        &&& after.active == before.active
        &&& after.flush_in_progress
        &&& after.last_flush == now
        &&& after.flush_count == next_count(before.flush_count)
    }
}

/// Whether queuing onto `q` at `now` asks for a flush.
pub open spec fn flush_due(pending: Seq<DebuggerMessage>, last_flush: u64, now: u64) -> bool {
    pending.len() >= MAX_BATCH_SIZE || has_breakpoint_hit(pending) || (now > last_flush
        && now - last_flush > FLUSH_INTERVAL_MS)
}

/// The outcome of queuing `msg` onto `before` at time `now`.
pub open spec fn queue_outcome(
    before: MessageQueue,
    after: MessageQueue,
    msg: DebuggerMessage,
    now: u64,
    r: Option<DebuggerMessage>,
) -> bool {
    if !before.active {
        r is None && after == before
    } else {
        let queued = before.pending@.push(msg);
        if flush_due(queued, before.last_flush, now) && !before.flush_in_progress {
            &&& r matches Some(m) && is_payload_of(m, queued)
            &&& after.pending@.len() == 0
            &&& after.active
            &&& after.flush_in_progress
            &&& after.last_flush == now
            &&& after.flush_count == next_count(before.flush_count)
        } else {
            &&& r is None
            &&& after.pending@ == queued
            &&& after.active == before.active
            &&& after.flush_in_progress == before.flush_in_progress
            &&& after.last_flush == before.last_flush
            &&& after.flush_count == before.flush_count
        }
    }
}

impl MessageQueue {
    /// An active, empty queue whose last flush was at `now`.
    pub fn new(now: u64) -> (r: Self)
        ensures
            r.pending@.len() == 0,
            r.active,
            !r.flush_in_progress,
            r.last_flush == now,
            r.flush_count == 0,
    {
        MessageQueue { pending: Vec::new(), active: true, flush_in_progress: false, last_flush: now, flush_count: 0 }
    }

    /// The number of events waiting.
    pub fn len(&self) -> (r: usize)
        ensures
            r == self.pending@.len(),
    {
        self.pending.len()
    }

    /// The number of flushes so far.
    pub fn flush_count(&self) -> (r: u64)
        ensures
            r == self.flush_count,
    {
        self.flush_count
    }

    /// Whether a payload is waiting to be written.
    pub fn is_flush_in_progress(&self) -> (r: bool)
        ensures
            r == self.flush_in_progress,
    {
        self.flush_in_progress
    }

    /// Whether the queue still accepts events.
    pub fn is_active(&self) -> (r: bool)
        ensures
            r == self.active,
    {
        self.active
    }

    /// Takes every pending event as one payload to write, unless the queue
    /// is empty, closed, or a payload is still being written.
    pub fn flush_message_queue(&mut self, now: u64) -> (r: Option<DebuggerMessage>)
        ensures
            flush_outcome(*old(self), *final(self), now, r),
    {
        if self.pending.len() == 0 || !self.active || self.flush_in_progress {
            return None;
        }
        self.flush_in_progress = true;
        let mut messages: Vec<DebuggerMessage> = Vec::new();
        std::mem::swap(&mut messages, &mut self.pending);
        let payload = if messages.len() == 1 {
            messages.pop().unwrap()
        } else {
            DebuggerMessage::BatchedMessages(messages)
        };
        self.last_flush = now;
        self.flush_count = self.flush_count.saturating_add(1);
        Some(payload)
    }

    /// Marks the payload handed out by the last flush as written.
    pub fn finish_flush(&mut self)
        ensures
            *final(self) == (MessageQueue { flush_in_progress: false, ..*old(self) }),
    {
        self.flush_in_progress = false;
    }

    /// Queues `message`; when the batch is full, a breakpoint hit waits, or
    /// the last flush is older than the flush interval, flushes and returns
    /// the payload to write. A closed queue ignores the event.
    pub fn queue_message(&mut self, message: DebuggerMessage, now: u64) -> (r: Option<DebuggerMessage>)
        ensures
            queue_outcome(*old(self), *final(self), message, now, r),
    {
        if !self.active {
            return None;
        }
        self.pending.push(message);
        let mut hit = false;
        let mut i: usize = 0;
        while i < self.pending.len()
            invariant
                i <= self.pending@.len(),
                hit == exists|j: int| 0 <= j < i && #[trigger] self.pending@[j] is BreakpointHit,
            decreases self.pending@.len() - i,
        {
            if let DebuggerMessage::BreakpointHit { .. } = &self.pending[i] {
                hit = true;
            }
            i = i + 1;
        }
        let due = self.pending.len() >= MAX_BATCH_SIZE || hit || (now > self.last_flush && now
            - self.last_flush > FLUSH_INTERVAL_MS);
        if due {
            self.flush_message_queue(now)
        } else {
            None
        }
    }

    /// Closes the queue: returns what was still pending as a last payload,
    /// and ignores all later events.
    pub fn close(&mut self, now: u64) -> (r: Option<DebuggerMessage>)
        ensures
            !final(self).active,
            old(self).active && !old(self).flush_in_progress && old(self).pending@.len() > 0 ==> (
            r matches Some(m) && is_payload_of(m, old(self).pending@)),
            (!old(self).active || old(self).flush_in_progress || old(self).pending@.len() == 0)
                ==> r is None,
    {
        let r = self.flush_message_queue(now);
        self.active = false;
        r
    }
}

/// The bytes of a segment holding `payload`, followed by zeros.
pub open spec fn framed(payload: Seq<u8>) -> Seq<u8> {
    payload + Seq::new((MMAP_SIZE - payload.len()) as nat, |i: int| 0u8)
}

/// The message of the error for a payload too large for a segment.
pub open spec fn too_large_text(n: nat) -> Seq<char> {
    "Message too large for buffer: "@ + nat_text(n) + " bytes"@
}

/// Lays `payload` out as a segment: the payload, then zeros. A payload that
/// leaves no room for a terminating zero is refused.
pub fn frame_payload(payload: &Vec<u8>) -> (r: Result<Vec<u8>, DbugError>)
    ensures
        payload@.len() + 1 <= MMAP_SIZE ==> (r matches Ok(seg) && seg@ == framed(payload@)),
        payload@.len() + 1 > MMAP_SIZE ==> (r matches Err(DbugError::CommunicationError(e)) && e@
            == too_large_text(payload@.len())),
{
    if payload.len() >= MMAP_SIZE {
        let mut e = String::from_str("Message too large for buffer: ");
        push_nat(&mut e, payload.len() as u64);
        e.append(" bytes");
        assert(e@ =~= too_large_text(payload@.len()));
        return Err(DbugError::CommunicationError(e));
    }
    let mut seg: Vec<u8> = Vec::new();
    let mut i: usize = 0;
    while i < MMAP_SIZE
        invariant
            payload@.len() < MMAP_SIZE,
            i <= MMAP_SIZE,
            seg@.len() == i,
            forall|j: int| 0 <= j < i ==> #[trigger] seg@[j] == framed(payload@)[j],
        decreases MMAP_SIZE - i,
    {
        if i < payload.len() {
            seg.push(payload[i]);
        } else {
            seg.push(0);
        }
        i = i + 1;
    }
    assert(seg@ =~= framed(payload@));
    Ok(seg)
}

/// The length of the payload held in a segment: the index of its first zero
/// byte, or zero when it holds none.
pub fn content_length(seg: &[u8]) -> (r: usize)
    ensures
        (exists|i: int| 0 <= i < seg@.len() && seg@[i] == 0) ==> r < seg@.len() && seg@[r as int] == 0
            && forall|j: int| 0 <= j < r ==> seg@[j] != 0,
        !(exists|i: int| 0 <= i < seg@.len() && seg@[i] == 0) ==> r == 0,
{
    let mut i: usize = 0;
    while i < seg.len()
        invariant
            i <= seg@.len(),
            forall|j: int| 0 <= j < i ==> seg@[j] != 0,
        decreases seg@.len() - i,
    {
        if seg[i] == 0 {
            return i;
        }
        i = i + 1;
    }
    0
}

/// What the wait for a response does next.
#[derive(Clone, Copy, Debug, PartialEq, Eq, Structural)]
pub enum PollAction {
    /// Give up: the deadline passed.
    Timeout,
    /// Nothing complete yet: sleep `POLL_INTERVAL_MS`, then poll again.
    Sleep,
    /// A payload of this many bytes is complete: decode it; if it cannot be
    /// decoded, sleep and poll again.
    Decode(usize),
}

/// The step of the wait for a response after `elapsed_ms`, when the inbound
/// segment holds a payload of `content_len` bytes.
pub fn poll_decision(elapsed_ms: u64, content_len: usize) -> (r: PollAction)
    ensures
        elapsed_ms >= RESPONSE_TIMEOUT_MS ==> r == PollAction::Timeout,
        elapsed_ms < RESPONSE_TIMEOUT_MS && content_len == 0 ==> r == PollAction::Sleep,
        elapsed_ms < RESPONSE_TIMEOUT_MS && content_len > 0 ==> r == PollAction::Decode(content_len),
{
    if elapsed_ms >= RESPONSE_TIMEOUT_MS {
        PollAction::Timeout
    } else if content_len == 0 {
        PollAction::Sleep
    } else {
        PollAction::Decode(content_len)
    }
}

/// The result of a wait for a response, given its last poll action and the
/// response decoded on a `Decode` step, if any. A timeout is an error;
/// otherwise the wait goes on (`Ok(None)`) until a response is decoded.
pub fn wait_outcome(action: PollAction, decoded: Option<DebuggerResponse>) -> (r: Result<
    Option<DebuggerResponse>,
    DbugError,
>)
    ensures
        action == PollAction::Timeout ==> r matches Err(DbugError::ResponseTimeout),
        action == PollAction::Sleep ==> r matches Ok(None),
        action is Decode ==> r == Ok::<Option<DebuggerResponse>, DbugError>(decoded),
{
    match action {
        PollAction::Timeout => Err(DbugError::ResponseTimeout),
        PollAction::Sleep => Ok(None),
        PollAction::Decode(_) => Ok(decoded),
    }
}


/// The flow action a response asks for; `Continue` and `Evaluate` leave the
/// current action as it is.
pub fn flow_for_response(response: &DebuggerResponse) -> (r: Option<FlowControl>)
    ensures
        r == match *response {
            DebuggerResponse::StepOver => Some(FlowControl::StepOver),
            DebuggerResponse::StepInto => Some(FlowControl::StepInto),
            DebuggerResponse::StepOut => Some(FlowControl::StepOut),
            _ => None::<FlowControl>,
        },
{
    match response {
        DebuggerResponse::StepOver => Some(FlowControl::StepOver),
        DebuggerResponse::StepInto => Some(FlowControl::StepInto),
        DebuggerResponse::StepOut => Some(FlowControl::StepOut),
        _ => None,
    }
}

/// The event that answers a request to evaluate `expression`.
pub fn expression_result_message(expression: &str, variables: &VariableInspector) -> (r: DebuggerMessage)
    ensures
        r matches DebuggerMessage::ExpressionResult { expression: e, result: t } && e@ == expression@
            && t@ == match eval(expression@, 0, expression@.len() as int, variables.vars()) {
            Some(v) => v,
            None => "Could not evaluate expression: "@ + expression@,
        },
{
    let result = match evaluate_expression(expression, variables) {
        Some(v) => v,
        None => {
            let mut m = String::from_str("Could not evaluate expression: ");
            m.append(expression);
            m
        },
    };
    DebuggerMessage::ExpressionResult { expression: String::from_str(expression), result }
}

/// The stem that `std::path::Path::file_stem` gives for a path, if any.
pub uninterp spec fn stem_of(path: Seq<char>) -> Option<Seq<char>>;

/// Relies on `std::path::Path::file_stem`: the file name of `path` without
/// its extension, when the path has a file name that is valid text.
#[verifier::external_body]
fn file_stem(path: &str) -> (r: Option<String>)
    ensures
        match r {
            Some(s) => stem_of(path@) == Some(s@),
            None => stem_of(path@) is None,
        },
{
    std::path::Path::new(path).file_stem().and_then(|s| s.to_str()).map(|s| s.to_string())
}

/// The stem of `path`, or `unknown`.
pub open spec fn stem_or_unknown(path: Seq<char>) -> Seq<char> {
    match stem_of(path) {
        Some(s) => s,
        None => "unknown"@,
    }
}

/// The name under which a debug point in `file` is reported.
pub fn point_function_name(file: &str) -> (r: String)
    ensures
        r@ == "function_in_"@ + stem_or_unknown(file@),
{
    let mut r = String::from_str("function_in_");
    match file_stem(file) {
        Some(s) => r.append(s.as_str()),
        None => r.append("unknown"),
    }
    r
}

/// The name under which an asynchronous debug point in `file` is reported.
pub fn async_point_function_name(file: &str) -> (r: String)
    ensures
        r@ == "async_function_in_"@ + stem_or_unknown(file@),
{
    let mut r = String::from_str("async_function_in_");
    match file_stem(file) {
        Some(s) => r.append(s.as_str()),
        None => r.append("unknown"),
    }
    r
}

} // verus!
