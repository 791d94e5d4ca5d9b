//! The shim's side of the request/response protocol.
//!
//! The shim talks to the bridge synchronously: it allocates the next
//! request id, writes the request, then reads messages until the
//! response with that id arrives.  Events that arrive meanwhile are
//! queued for the next drain; a response to another id is dropped; a
//! request from the bridge is a protocol violation.

use vstd::prelude::*;
use std::collections::VecDeque;
use crate::frame::CodecError;
use crate::schema::{Event, Message, Request, RequestOp, Response};
use crate::text::{owned, push_decimal};

verus! {

/// Failures talking to the bridge subprocess.
#[derive(Debug)]
pub enum SupervisorError {
    /// The subprocess could not be started.
    SpawnFailed(String),
    /// The subprocess closed its end of the pipe.
    SubprocessDied,
    /// The subprocess broke the IPC protocol.
    Protocol(String),
    /// Reading or writing the pipe failed.
    Io(String),
}

pub open spec fn codec_message(e: CodecError) -> Seq<char> {
    match e {
        CodecError::Io(crate::frame::IoErrorKind::UnexpectedEof) => "io error: failed to fill whole buffer"@,
        CodecError::Io(crate::frame::IoErrorKind::Other) => "io error: pipe failure"@,
        CodecError::PeerClosed => "peer closed the pipe"@,
        CodecError::FrameTooLarge { actual, limit } =>
            "frame too large: "@ + crate::text::decimal(actual as nat) + " bytes (limit "@
                + crate::text::decimal(limit as nat) + ")"@,
    }
}

impl CodecError {
    /// The human-readable description of the error.
    pub fn message(&self) -> (m: String)
        ensures
            m@ == codec_message(*self),
    {
        match self {
            CodecError::Io(crate::frame::IoErrorKind::UnexpectedEof) => owned("io error: failed to fill whole buffer"),
            CodecError::Io(crate::frame::IoErrorKind::Other) => owned("io error: pipe failure"),
            CodecError::PeerClosed => owned("peer closed the pipe"),
            CodecError::FrameTooLarge { actual, limit } => {
                let mut m = owned("frame too large: ");
                push_decimal(&mut m, *actual as u64);
                m.append(" bytes (limit ");
                push_decimal(&mut m, *limit as u64);
                m.append(")");
                m
            },
        }
    }
}

/// The supervisor error a codec error becomes: the peer closing means the
/// subprocess died; anything else is an I/O failure.
pub open spec fn supervisor_error_of(e: CodecError, r: SupervisorError) -> bool {
    match e {
        CodecError::PeerClosed => r is SubprocessDied,
        _ => r matches SupervisorError::Io(m) && m@ == codec_message(e),
    }
}

/// Converts a codec error into a supervisor error.
pub fn from_codec_error(e: CodecError) -> (r: SupervisorError)
    ensures
        supervisor_error_of(e, r),
{
    match e {
        CodecError::PeerClosed => SupervisorError::SubprocessDied,
        other => SupervisorError::Io(other.message()),
    }
}

pub open spec fn supervisor_message(e: SupervisorError) -> Seq<char> {
    match e {
        SupervisorError::SpawnFailed(m) => "could not spawn bridge subprocess: "@ + m@,
        SupervisorError::SubprocessDied => "bridge subprocess died unexpectedly"@,
        SupervisorError::Protocol(m) => "ipc protocol violation: "@ + m@,
        SupervisorError::Io(m) => "io: "@ + m@,
    }
}

impl SupervisorError {
    /// The human-readable description of the error.
    pub fn message(&self) -> (m: String)
        ensures
            m@ == supervisor_message(*self),
    {
        let mut m = match self {
            SupervisorError::SpawnFailed(_) => owned("could not spawn bridge subprocess: "),
            SupervisorError::SubprocessDied => owned("bridge subprocess died unexpectedly"),
            SupervisorError::Protocol(_) => owned("ipc protocol violation: "),
            SupervisorError::Io(_) => owned("io: "),
        };
        match self {
            SupervisorError::SpawnFailed(s) => m.append(s.as_str()),
            SupervisorError::SubprocessDied => {},
            SupervisorError::Protocol(s) => m.append(s.as_str()),
            SupervisorError::Io(s) => m.append(s.as_str()),
        }
        m
    }
}

/// What to do with one message read while waiting for a response.
pub enum Wait {
    /// Keep reading.
    Continue,
    /// The awaited response arrived.
    Done(Response),
    /// The exchange failed.
    Failed(SupervisorError),
}

/// Whether message `m` ends the wait for the response to request `id`:
/// it is that response, or a request from the subprocess (a protocol
/// violation).
pub open spec fn ends_wait(id: u64, m: Message) -> bool {
    match m {
        Message::Response(r) => r.id == id,
        Message::Request(_) => true,
        Message::Event(_) => false,
    }
}

/// The event queue after reading `m` while waiting: an event joins the
/// end; anything else leaves the queue as it was.
pub open spec fn queue_step(q: Seq<Event>, m: Message) -> Seq<Event> {
    match m {
        Message::Event(e) => q.push(e),
        _ => q,
    }
}

/// The events among `msgs`, in order.
pub open spec fn events_in(msgs: Seq<Message>) -> Seq<Event>
    decreases msgs.len(),
{
    if msgs.len() == 0 {
        seq![]
    } else {
        let first: Seq<Event> = match msgs[0] {
            Message::Event(e) => seq![e],
            _ => seq![],
        };
        first + events_in(msgs.drop_first())
    }
}

/// Reading `msgs` in order while waiting for the response to request
/// `id`, starting with the queue `q`, one message at a time as
/// [`Correlator::on_message`] does: the position of the message that
/// ended the wait (`msgs.len()` when none did), and the queue then.
pub open spec fn wait_over(id: u64, q: Seq<Event>, msgs: Seq<Message>) -> (nat, Seq<Event>)
    decreases msgs.len(),
{
    if msgs.len() == 0 || ends_wait(id, msgs[0]) {
        (0, q)
    } else {
        let (n, q2) = wait_over(id, queue_step(q, msgs[0]), msgs.drop_first());
        (n + 1, q2)
    }
}

/// Waiting for the response to request `id` ends at the first message
/// that is that response or a request from the subprocess; every event
/// read before it is queued, in arrival order, after those already
/// queued; responses to other ids are dropped.
pub proof fn lemma_wait_over(id: u64, q: Seq<Event>, msgs: Seq<Message>)
    ensures
        wait_over(id, q, msgs).0 <= msgs.len(),
        forall|i: int| 0 <= i < wait_over(id, q, msgs).0 ==> !ends_wait(id, #[trigger] msgs[i]),
        wait_over(id, q, msgs).0 < msgs.len() ==> ends_wait(id, msgs[wait_over(id, q, msgs).0 as int]),
        wait_over(id, q, msgs).1 == q + events_in(msgs.take(wait_over(id, q, msgs).0 as int)),
    decreases msgs.len(),
{
    if msgs.len() == 0 || ends_wait(id, msgs[0]) {
        assert(msgs.take(0) =~= Seq::<Message>::empty());
        assert(q + events_in(Seq::<Message>::empty()) =~= q);
    } else {
        let rest = msgs.drop_first();
        let q1 = queue_step(q, msgs[0]);
        lemma_wait_over(id, q1, rest);
        let n = wait_over(id, q1, rest).0;
        assert forall|i: int| 0 <= i < n + 1 implies !ends_wait(id, #[trigger] msgs[i]) by {
            if i > 0 {
                assert(msgs[i] == rest[i - 1]);
            }
        }
        let t = msgs.take(n + 1 as int);
        assert(t[0] == msgs[0]);
        assert(t.drop_first() =~= rest.take(n as int));
        let first: Seq<Event> = match msgs[0] {
            Message::Event(e) => seq![e],
            _ => seq![],
        };
        assert(events_in(t) == first + events_in(rest.take(n as int)));
        assert(q1 =~= q + first);
        assert(q1 + events_in(rest.take(n as int)) =~= q + (first + events_in(rest.take(n as int))));
    }
}

/// The id of the request a fresh correlator makes after `k` others.
pub open spec fn nth_request_id(k: nat) -> u64
    decreases k,
{
    if k == 0 {
        1
    } else {
        vstd::wrapping::u64_specs::wrapping_add(nth_request_id((k - 1) as nat), 1)
    }
}

/// Request ids count up from 1: the request made after `k` others has id
/// `k + 1`, so no two of the first `u64::MAX` requests share an id and
/// none of them uses the shutdown sentinel 0.
pub proof fn lemma_request_ids(k: nat)
    requires
        k < u64::MAX,
    ensures
        nth_request_id(k) == k + 1,
    decreases k,
{
    if k > 0 {
        lemma_request_ids((k - 1) as nat);
    }
}

/// Request-id allocation and the queue of events that arrived between
/// responses.
pub struct Correlator {
    next_id: u64,
    events: VecDeque<Event>,
}

impl Correlator {
    /// The id the next request gets.
    pub closed spec fn next_id(&self) -> u64 {
        self.next_id
    }

    /// The events queued so far, oldest first.
    pub closed spec fn queued(&self) -> Seq<Event> {
        self.events@
    }

    /// Request ids start at 1 (0 is the shutdown sentinel); no event is
    /// queued.
    pub fn new() -> (c: Self)
        ensures
            c.next_id() == 1,
            c.queued() == Seq::<Event>::empty(),
    {
        let c = Self { next_id: 1, events: VecDeque::new() };
        c
    }

    /// Builds the next request for `op`; ids increase by one per request
    /// (wrapping around at the end of the `u64` range).
    pub fn begin(&mut self, op: RequestOp) -> (req: Request)
        ensures
            req.id == old(self).next_id(),
            req.op == op,
            final(self).next_id() == vstd::wrapping::u64_specs::wrapping_add(old(self).next_id(), 1),
            final(self).queued() == old(self).queued(),
    {
        let id = self.next_id;
        self.next_id = self.next_id.wrapping_add(1);
        Request { id, op }
    }

    /// Decides what a message read while waiting for the response to
    /// request `id` means: that response ends the wait; a response to
    /// another id is dropped; an event is queued; a request from the
    /// subprocess is a protocol violation.
    pub fn on_message(&mut self, id: u64, msg: Message) -> (w: Wait)
        ensures
            match msg {
                Message::Response(r) => if r.id == id {
                    w == Wait::Done(r) && final(self).queued() == old(self).queued()
                } else {
                    w is Continue && final(self).queued() == old(self).queued()
                },
                Message::Event(e) => w is Continue && final(self).queued() == old(self).queued().push(e),
                Message::Request(_) => (w matches Wait::Failed(SupervisorError::Protocol(m))
                    && m@ == "subprocess sent a request to the shim"@)
                    && final(self).queued() == old(self).queued(),
            },
            final(self).next_id() == old(self).next_id(),
            (w is Continue) == !ends_wait(id, msg),
            final(self).queued() == queue_step(old(self).queued(), msg),
    {
        match msg {
            Message::Response(r) => {
                if r.id == id {
                    Wait::Done(r)
                } else {
                    Wait::Continue
                }
            },
            Message::Event(e) => {
                self.events.push_back(e);
                Wait::Continue
            },
            Message::Request(_) => Wait::Failed(SupervisorError::Protocol(owned("subprocess sent a request to the shim"))),
        }
    }

    /// Takes every queued event, oldest first.
    pub fn drain_events(&mut self) -> (evs: Vec<Event>)
        ensures
            evs@ == old(self).queued(),
            final(self).queued() == Seq::<Event>::empty(),
            final(self).next_id() == old(self).next_id(),
    {
        let ghost q0 = self.events@;
        let mut evs: Vec<Event> = Vec::new();
        while self.events.len() > 0
            invariant
                evs@ + self.events@ == q0,
                self.next_id == old(self).next_id,
            decreases self.events@.len(),
        {
            let ghost rest = self.events@;
            let e = self.events.pop_front().unwrap();
            evs.push(e);
            assert(evs@ + self.events@ =~= q0) by {
                assert(rest =~= seq![e] + self.events@);
            }
        }
        assert(evs@ =~= q0);
        evs
    }
}


/// `std::path::MAIN_SEPARATOR`: the platform's path separator, `\\` on
/// Windows and `/` elsewhere. Which one depends on the platform the
/// library was built for, so only the two possibilities are stated.
#[verifier::external_body]
fn main_separator() -> (c: char)
    ensures
        c == '/' || c == '\\',
{
    std::path::MAIN_SEPARATOR
}

/// The bridge executable's file name on a platform whose path separator
/// is `sep`: with the `.exe` suffix where it is a backslash (Windows),
/// without it elsewhere.
pub open spec fn filename_spec(sep: char) -> Seq<char> {
    if sep == '\\' { "wavecrux-sigrok-bridge.exe"@ } else { "wavecrux-sigrok-bridge"@ }
}

/// The bridge executable's file name on a platform whose path separator
/// is `sep`.
pub fn filename_for_separator(sep: char) -> (name: String)
    ensures
        name@ == filename_spec(sep),
{
    if sep == '\\' {
        owned("wavecrux-sigrok-bridge.exe")
    } else {
        owned("wavecrux-sigrok-bridge")
    }
}

/// The bridge executable's file name on this platform: the name for the
/// platform's path separator.
pub fn subprocess_filename() -> (name: String)
    ensures
        exists|sep: char| (sep == '/' || sep == '\\') && name@ == #[trigger] filename_spec(sep),
{
    let sep = main_separator();
    let name = filename_for_separator(sep);
    assert(name@ == filename_spec(sep));
    name
}

} // verus!
