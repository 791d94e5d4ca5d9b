//! The bridge subprocess's request handling: what each request is
//! answered with, given what the decoding backend did.
//!
//! The IPC loop around it reads a frame, decodes it, hands the message
//! to [`serve`], writes out what comes back (annotation events first,
//! then the response, so that the shim has buffered every annotation a
//! request produced by the time it sees the response) and exits after
//! answering a shutdown request.

use vstd::prelude::*;
use crate::schema::{
    AnnotationEvent, AnnotationEventView, CreateSessionBody, DecoderManifest, ErrCode, Event,
    FeedBody, Message, Request, RequestOp, Response, ResponseBody, ResponseStatus, SessionId,
    events_view,
};

verus! {

/// Why a backend could not do what was asked.
#[derive(Debug)]
pub enum BackendError {
    /// The decoder id is not in the catalog (`unknown_decoder`).
    UnknownDecoder(String),
    /// The session is not open (`unknown_session`).
    UnknownSession(String),
    /// Any other failure; the operation decides the error code.
    Failed(String),
}

/// The human-readable message of a backend error.
pub open spec fn error_text(e: BackendError) -> Seq<char> {
    match e {
        BackendError::UnknownDecoder(m) => m@,
        BackendError::UnknownSession(m) => m@,
        BackendError::Failed(m) => m@,
    }
}

/// The error code a backend error is answered with, where `fallback` is
/// the operation's code for a failure of no particular kind.
pub open spec fn error_code(fallback: ErrCode, e: BackendError) -> ErrCode {
    match e {
        BackendError::UnknownDecoder(_) => ErrCode::UnknownDecoder,
        BackendError::UnknownSession(_) => ErrCode::UnknownSession,
        BackendError::Failed(_) => fallback,
    }
}

impl BackendError {
    /// The error's message.
    pub fn message(&self) -> (m: String)
        ensures
            m@ == error_text(*self),
    {
        match self {
            BackendError::UnknownDecoder(m) => m.clone(),
            BackendError::UnknownSession(m) => m.clone(),
            BackendError::Failed(m) => m.clone(),
        }
    }
}

/// A decoding engine behind the IPC layer. Each operation's outcome is
/// described by a predicate of the implementation: the state before, the
/// arguments, the state after and the result.
pub trait Backend: Sized {
    /// `r` is what listing the decoders of `self` gives.
    spec fn listed(&self, r: Result<Vec<DecoderManifest>, BackendError>) -> bool;

    /// Opening a session for `body` on `self` gives `r` and leaves `after`.
    spec fn created(&self, body: CreateSessionBody, after: Self, r: Result<SessionId, BackendError>) -> bool;

    /// Feeding `body` to `self` gives `r` and leaves `after`.
    spec fn fed(&self, body: FeedBody, after: Self, r: Result<Vec<AnnotationEvent>, BackendError>) -> bool;

    /// Finalizing `session` on `self` gives `r` and leaves `after`.
    spec fn finalized(&self, session: SessionId, after: Self, r: Result<Vec<AnnotationEvent>, BackendError>) -> bool;

    /// Destroying `session` on `self` gives `r` and leaves `after`.
    spec fn destroyed(&self, session: SessionId, after: Self, r: Result<(), BackendError>) -> bool;

    /// Enumerates every decoder this backend can host.
    fn list_decoders(&self) -> (r: Result<Vec<DecoderManifest>, BackendError>)
        ensures
            self.listed(r),
    ;

    /// Opens a session for one decoder and returns its id.
    fn create_session(&mut self, body: CreateSessionBody) -> (r: Result<SessionId, BackendError>)
        ensures
            old(self).created(body, *final(self), r),
    ;

    /// Forwards samples to the named session and returns the annotations
    /// the decoder emitted while processing them.
    fn feed(&mut self, body: FeedBody) -> (r: Result<Vec<AnnotationEvent>, BackendError>)
        ensures
            old(self).fed(body, *final(self), r),
    ;

    /// Tells the named session that no more samples are coming and
    /// returns its final annotations.
    fn finalize(&mut self, session: &SessionId) -> (r: Result<Vec<AnnotationEvent>, BackendError>)
        ensures
            old(self).finalized(*session, *final(self), r),
    ;

    /// Releases the named session.
    fn destroy(&mut self, session: &SessionId) -> (r: Result<(), BackendError>)
        ensures
            old(self).destroyed(*session, *final(self), r),
    ;
}

/// What the backend did for one request.
pub enum Outcome {
    Listed(Result<Vec<DecoderManifest>, BackendError>),
    Created(Result<SessionId, BackendError>),
    Fed(SessionId, Result<Vec<AnnotationEvent>, BackendError>),
    Finalized(SessionId, Result<Vec<AnnotationEvent>, BackendError>),
    Destroyed(Result<(), BackendError>),
    ShutDown,
}

/// An annotation with no session yet is attributed to `session`.
pub open spec fn tag(session: Seq<char>, e: AnnotationEventView) -> AnnotationEventView {
    if e.session.len() == 0 {
        AnnotationEventView { session, ..e }
    } else {
        e
    }
}

/// Every annotation in `events` tagged with `session`.
pub open spec fn tagged(session: Seq<char>, events: Seq<AnnotationEventView>) -> Seq<AnnotationEventView> {
    events.map_values(|e: AnnotationEventView| tag(session, e))
}

/// `resp` is the error response with `code` and message `message` to
/// request `id`, and no annotation goes with it.
pub open spec fn is_error_reply(
    id: u64,
    code: ErrCode,
    message: Seq<char>,
    resp: Response,
    events: Seq<AnnotationEventView>,
) -> bool {
    &&& resp.id == id
    &&& resp.status matches ResponseStatus::Failed { code: c, message: m } && c == code && m@ == message
    &&& events.len() == 0
}

/// `resp` is the bodiless success response to request `id`.
pub open spec fn is_empty_ok(id: u64, resp: Response) -> bool {
    resp.id == id && resp.status matches ResponseStatus::Succeeded { body: None }
}

/// The reply to request `id` whose backend outcome was `o`: the response
/// and the annotation events that precede it.
///
///   * a decoder list is answered with the list;
///   * a created session with its id;
///   * a feed or finalize with an empty success and the annotations
///     (tagged with the session when they carry none);
///   * a destroy or a shutdown with an empty success;
///   * a failure with an error carrying its message: `unknown_decoder`
///     or `unknown_session` when that is what went wrong, else
///     `internal` for a list or destroy, `session_init_failed` for a
///     create, `decoder_failed` for a feed or finalize.
pub open spec fn replies(id: u64, o: Outcome, resp: Response, events: Seq<AnnotationEventView>) -> bool {
    match o {
        Outcome::Listed(Ok(list)) => resp == (Response {
            id,
            status: ResponseStatus::Succeeded { body: Some(ResponseBody::Decoders(list)) },
        }) && events.len() == 0,
        Outcome::Listed(Err(e)) => is_error_reply(id, error_code(ErrCode::Internal, e), error_text(e), resp, events),
        Outcome::Created(Ok(session)) => resp == (Response {
            id,
            status: ResponseStatus::Succeeded { body: Some(ResponseBody::SessionCreated { session }) },
        }) && events.len() == 0,
        Outcome::Created(Err(e)) => is_error_reply(
            id,
            error_code(ErrCode::SessionInitFailed, e),
            error_text(e),
            resp,
            events,
        ),
        Outcome::Fed(s, Ok(evs)) => is_empty_ok(id, resp) && events == tagged(s@, events_view(evs@)),
        Outcome::Fed(_, Err(e)) => is_error_reply(id, error_code(ErrCode::DecoderFailed, e), error_text(e), resp, events),
        Outcome::Finalized(s, Ok(evs)) => is_empty_ok(id, resp) && events == tagged(s@, events_view(evs@)),
        Outcome::Finalized(_, Err(e)) => is_error_reply(
            id,
            error_code(ErrCode::DecoderFailed, e),
            error_text(e),
            resp,
            events,
        ),
        Outcome::Destroyed(Ok(())) => is_empty_ok(id, resp) && events.len() == 0,
        Outcome::Destroyed(Err(e)) => is_error_reply(id, error_code(ErrCode::Internal, e), error_text(e), resp, events),
        Outcome::ShutDown => is_empty_ok(id, resp) && events.len() == 0,
    }
}

/// The error response with `code` and `message` to request `id`.
pub fn err(id: u64, code: ErrCode, message: String) -> (r: (Response, Vec<AnnotationEvent>))
    ensures
        is_error_reply(id, code, message@, r.0, events_view(r.1@)),
{
    (Response { id, status: ResponseStatus::Failed { code, message } }, Vec::new())
}

/// Attributes every annotation that carries no session to `session`.
pub fn tag_events(session: &SessionId, events: Vec<AnnotationEvent>) -> (r: Vec<AnnotationEvent>)
    ensures
        events_view(r@) == tagged(session@, events_view(events@)),
{
    let mut out: Vec<AnnotationEvent> = Vec::new();
    let mut i: usize = 0;
    while i < events.len()
        invariant
            i <= events@.len(),
            events_view(out@) == tagged(session@, events_view(events@)).take(i as int),
        decreases events@.len() - i,
    {
        let e = &events[i];
        let sess = if e.session.as_str().is_empty() { session.clone() } else { e.session.clone() };
        let t = AnnotationEvent {
            session: sess,
            start_fs: e.start_fs,
            end_fs: e.end_fs,
            ann_class: e.ann_class,
            label: e.label.clone(),
            fields: e.fields.clone(),
            is_error: e.is_error,
        };
        assert(t@ == tag(session@, e@));
        let ghost o0 = out@;
        out.push(t);
        assert(events_view(out@) =~= events_view(o0).push(t@));
        assert(events_view(events@)[i as int] == e@);
        assert(tagged(session@, events_view(events@))[i as int] == t@);
        assert(tagged(session@, events_view(events@)).take(i + 1 as int) =~= tagged(session@, events_view(events@)).take(i as int).push(t@));
        i = i + 1;
    }
    assert(tagged(session@, events_view(events@)).take(events@.len() as int) =~= tagged(session@, events_view(events@)));
    out
}

/// The error response to request `id` for the backend error `e`, where
/// `fallback` is the operation's code for a failure of no particular kind.
fn backend_err(id: u64, fallback: ErrCode, e: BackendError) -> (r: (Response, Vec<AnnotationEvent>))
    ensures
        is_error_reply(id, error_code(fallback, e), error_text(e), r.0, events_view(r.1@)),
{
    match e {
        BackendError::UnknownDecoder(m) => err(id, ErrCode::UnknownDecoder, m),
        BackendError::UnknownSession(m) => err(id, ErrCode::UnknownSession, m),
        BackendError::Failed(m) => err(id, fallback, m),
    }
}

/// The reply to request `id` for the backend outcome `o`.
pub fn respond(id: u64, o: Outcome) -> (r: (Response, Vec<AnnotationEvent>))
    ensures
        replies(id, o, r.0, events_view(r.1@)),
{
    match o {
        Outcome::Listed(Ok(list)) => (
            Response { id, status: ResponseStatus::Succeeded { body: Some(ResponseBody::Decoders(list)) } },
            Vec::new(),
        ),
        Outcome::Listed(Err(e)) => backend_err(id, ErrCode::Internal, e),
        Outcome::Created(Ok(session)) => (
            Response {
                id,
                status: ResponseStatus::Succeeded { body: Some(ResponseBody::SessionCreated { session }) },
            },
            Vec::new(),
        ),
        Outcome::Created(Err(e)) => backend_err(id, ErrCode::SessionInitFailed, e),
        Outcome::Fed(s, Ok(evs)) => (
            Response { id, status: ResponseStatus::Succeeded { body: None } },
            tag_events(&s, evs),
        ),
        Outcome::Fed(_, Err(e)) => backend_err(id, ErrCode::DecoderFailed, e),
        Outcome::Finalized(s, Ok(evs)) => (
            Response { id, status: ResponseStatus::Succeeded { body: None } },
            tag_events(&s, evs),
        ),
        Outcome::Finalized(_, Err(e)) => backend_err(id, ErrCode::DecoderFailed, e),
        Outcome::Destroyed(Ok(())) => (
            Response { id, status: ResponseStatus::Succeeded { body: None } },
            Vec::new(),
        ),
        Outcome::Destroyed(Err(e)) => backend_err(id, ErrCode::Internal, e),
        Outcome::ShutDown => (Response { id, status: ResponseStatus::Succeeded { body: None } }, Vec::new()),
    }
}

/// Request `req` was handled on a backend that was `before` and is now
/// `after`, with response `resp` preceded by the annotations `evs`: the
/// backend performed the request's operation on the request's body (or
/// session), and the reply is the one [`replies`] gives for what it
/// returned. A list or a shutdown leaves the backend as it was.
pub open spec fn handled<B: Backend>(
    before: B,
    req: Request,
    after: B,
    resp: Response,
    evs: Seq<AnnotationEventView>,
) -> bool {
    match req.op {
        RequestOp::ListDecoders => after == before && exists|res: Result<Vec<DecoderManifest>, BackendError>|
            #[trigger] before.listed(res) && replies(req.id, Outcome::Listed(res), resp, evs),
        RequestOp::CreateSession(b) => exists|res: Result<SessionId, BackendError>|
            #[trigger] before.created(b, after, res) && replies(req.id, Outcome::Created(res), resp, evs),
        RequestOp::Feed(b) => exists|res: Result<Vec<AnnotationEvent>, BackendError>|
            #[trigger] before.fed(b, after, res) && replies(req.id, Outcome::Fed(b.session, res), resp, evs),
        RequestOp::Finalize(b) => exists|res: Result<Vec<AnnotationEvent>, BackendError>|
            #[trigger] before.finalized(b.session, after, res)
                && replies(req.id, Outcome::Finalized(b.session, res), resp, evs),
        RequestOp::Destroy(b) => exists|res: Result<(), BackendError>|
            #[trigger] before.destroyed(b.session, after, res) && replies(req.id, Outcome::Destroyed(res), resp, evs),
        RequestOp::Shutdown => after == before && replies(req.id, Outcome::ShutDown, resp, evs),
    }
}

/// Handles one request: asks the backend to perform the operation on the
/// request's body and answers according to [`replies`].
pub fn handle<B: Backend>(backend: &mut B, req: Request) -> (r: (Response, Vec<AnnotationEvent>))
    ensures
        handled(*old(backend), req, *final(backend), r.0, events_view(r.1@)),
{
    let id = req.id;
    let ghost b0 = *backend;
    match req.op {
        RequestOp::ListDecoders => {
            let res = backend.list_decoders();
            let ghost g = res;
            let r = respond(id, Outcome::Listed(res));
            assert(b0.listed(g) && replies(id, Outcome::Listed(g), r.0, events_view(r.1@)));
            r
        },
        RequestOp::CreateSession(body) => {
            let ghost gb = body;
            let res = backend.create_session(body);
            let ghost g = res;
            let r = respond(id, Outcome::Created(res));
            assert(b0.created(gb, *backend, g) && replies(id, Outcome::Created(g), r.0, events_view(r.1@)));
            r
        },
        RequestOp::Feed(body) => {
            let ghost gb = body;
            let session = body.session.clone();
            let res = backend.feed(body);
            let ghost g = res;
            let r = respond(id, Outcome::Fed(session, res));
            assert(b0.fed(gb, *backend, g) && replies(id, Outcome::Fed(gb.session, g), r.0, events_view(r.1@)));
            r
        },
        RequestOp::Finalize(body) => {
            let res = backend.finalize(&body.session);
            let ghost g = res;
            let ghost s = body.session;
            let r = respond(id, Outcome::Finalized(body.session, res));
            assert(b0.finalized(s, *backend, g) && replies(id, Outcome::Finalized(s, g), r.0, events_view(r.1@)));
            r
        },
        RequestOp::Destroy(body) => {
            let res = backend.destroy(&body.session);
            let ghost g = res;
            let r = respond(id, Outcome::Destroyed(res));
            assert(b0.destroyed(body.session, *backend, g) && replies(id, Outcome::Destroyed(g), r.0, events_view(r.1@)));
            r
        },
        RequestOp::Shutdown => respond(id, Outcome::ShutDown),
    }
}

/// What the IPC loop does with one decoded incoming message.
pub enum Step {
    /// Not a request: logged and skipped.
    Ignore,
    /// Write `outgoing` in order; stop serving afterwards if `exit`.
    Reply { outgoing: Vec<Message>, exit: bool },
}

/// The messages written for a reply: one event per annotation, in
/// order, then the response.
pub open spec fn reply_messages(resp: Response, events: Seq<AnnotationEvent>, out: Seq<Message>) -> bool {
    &&& out.len() == events.len() + 1
    &&& forall|i: int| 0 <= i < events.len() ==> out[i] == Message::Event(Event::Annotation(events[i]))
    &&& out.last() == Message::Response(resp)
}

/// Request `req` was served on a backend that was `before` and is now
/// `after` by writing `outgoing`: it was [`handled`], and the reply's
/// annotations and then its response are what was written.
pub open spec fn served<B: Backend>(before: B, req: Request, after: B, outgoing: Seq<Message>) -> bool {
    exists|resp: Response, evs: Seq<AnnotationEvent>|
        handled(before, req, after, resp, events_view(evs)) && #[trigger] reply_messages(resp, evs, outgoing)
}

/// Serves one incoming message: a request is handled and answered, and
/// the loop ends after answering a shutdown; anything else is ignored.
pub fn serve<B: Backend>(backend: &mut B, msg: Message) -> (step: Step)
    ensures
        !(msg is Request) ==> step is Ignore && *final(backend) == *old(backend),
        msg matches Message::Request(req) ==> (step matches Step::Reply { outgoing, exit }
            && exit == (req.op is Shutdown)
            && served(*old(backend), req, *final(backend), outgoing@)),
{
    let req = match msg {
        Message::Request(r) => r,
        _ => return Step::Ignore,
    };
    let is_shutdown = matches!(req.op, RequestOp::Shutdown);
    let ghost greq = req;
    let ghost b0 = *backend;
    let (resp, events) = handle(backend, req);
    let ghost resp_g = resp;
    let ghost evs_g = events@;
    let mut outgoing: Vec<Message> = Vec::new();
    let mut events = events;
    let mut rev: Vec<AnnotationEvent> = Vec::new();
    while events.len() > 0
        invariant
            events@ + rev@.reverse() == evs_g,
        decreases events@.len(),
    {
        let e = events.pop().unwrap();
        let ghost r0 = rev@;
        rev.push(e);
        assert(events@ + rev@.reverse() =~= evs_g) by {
            assert(rev@.reverse() =~= seq![e] + r0.reverse());
        }
    }
    assert(rev@.reverse() =~= evs_g);
    while rev.len() > 0
        invariant
            outgoing@.len() + rev@.len() == evs_g.len(),
            rev@.reverse() == evs_g.skip(outgoing@.len() as int),
            forall|i: int| 0 <= i < outgoing@.len() ==> outgoing@[i] == Message::Event(Event::Annotation(evs_g[i])),
        decreases rev@.len(),
    {
        let ghost k = outgoing@.len();
        let ghost r0 = rev@;
        let e = rev.pop().unwrap();
        assert(r0.reverse()[0] == e);
        assert(rev@.reverse() =~= r0.reverse().drop_first());
        assert(evs_g.skip(k as int)[0] == evs_g[k as int]);
        assert(evs_g.skip(k as int).drop_first() =~= evs_g.skip(k + 1 as int));
        outgoing.push(Message::Event(Event::Annotation(e)));
    }
    outgoing.push(Message::Response(resp));
    assert(handled(b0, greq, *backend, resp_g, events_view(evs_g)));
    assert(reply_messages(resp_g, evs_g, outgoing@));
    assert(served(b0, greq, *backend, outgoing@));
    Step::Reply { outgoing, exit: is_shutdown }
}

} // verus!
