//! The bridge's request handling driven in-process: every request goes
//! through the dispatch the subprocess runs, against the mock backend;
//! the outgoing messages are read back in the order they would be
//! written to the pipe.

use wavecrux_sigrok_bridge::dispatch::{serve, Step};
use wavecrux_sigrok_bridge::mock::{current_backend, MockBackend};
use wavecrux_sigrok_bridge::schema::{
    BitValue, ChannelChange, CreateSessionBody, DecoderManifest, DestroyBody, ErrCode, Event,
    FeedBody, FinalizeBody, Message, Request, RequestOp, Response, ResponseBody, ResponseStatus,
    SampleBatch, SampleTransition, XzPolicy,
};

struct Harness {
    backend: MockBackend,
    exited: bool,
}

impl Harness {
    fn spawn() -> Self {
        Harness { backend: current_backend(), exited: false }
    }

    fn exchange(&mut self, id: u64, op: RequestOp) -> (Response, Vec<Event>) {
        assert!(!self.exited, "bridge already exited");
        let mut events = vec![];
        match serve(&mut self.backend, Message::Request(Request { id, op })) {
            Step::Ignore => panic!("request ignored"),
            Step::Reply { outgoing, exit } => {
                self.exited = exit;
                for m in outgoing {
                    match m {
                        Message::Response(resp) if resp.id == id => return (resp, events),
                        Message::Response(resp) => panic!("orphan response id={}", resp.id),
                        Message::Event(e) => events.push(e),
                        Message::Request(_) => panic!("subprocess sent a request"),
                    }
                }
                panic!("no response")
            }
        }
    }

    fn request(&mut self, id: u64, op: RequestOp) -> Response {
        self.exchange(id, op).0
    }

    fn shutdown(mut self) {
        let resp = self.request(0, RequestOp::Shutdown);
        assert_eq!(resp.id, 0);
        assert!(self.exited);
    }
}

#[test]
fn lists_the_five_reference_decoders() {
    let mut h = Harness::spawn();
    let resp = h.request(1, RequestOp::ListDecoders);
    let decoders: Vec<DecoderManifest> = match resp.status {
        ResponseStatus::Succeeded { body: Some(ResponseBody::Decoders(list)) } => list,
        other => panic!("unexpected response: {other:?}"),
    };
    let ids: Vec<_> = decoders.iter().map(|d| d.id.clone()).collect();
    assert!(ids.contains(&"sigrok.onewire".to_string()));
    assert!(ids.contains(&"sigrok.jtag".to_string()));
    assert!(ids.contains(&"sigrok.pwm".to_string()));
    assert!(ids.contains(&"sigrok.dmx512".to_string()));
    assert!(ids.contains(&"sigrok.modbus".to_string()));
    h.shutdown();
}

#[test]
fn rejects_unknown_decoder_with_error_response() {
    let mut h = Harness::spawn();
    let channels = vec![("data".to_string(), 0)];
    let resp = h.request(
        1,
        RequestOp::CreateSession(CreateSessionBody {
            decoder_id: "sigrok.nope".into(),
            channels,
            options: "{}".into(),
            xz_policy: XzPolicy::Glitch,
        }),
    );
    assert_eq!(resp.id, 1);
    match resp.status {
        ResponseStatus::Failed { code, message } => {
            assert_eq!(code, ErrCode::UnknownDecoder);
            assert_eq!(message, "unknown decoder sigrok.nope");
        }
        other => panic!("expected error, got {other:?}"),
    }
    h.shutdown();
}

#[test]
fn rejects_required_channel_missing_for_jtag() {
    let mut h = Harness::spawn();
    let resp = h.request(
        1,
        RequestOp::CreateSession(CreateSessionBody {
            decoder_id: "sigrok.jtag".into(),
            channels: Default::default(),
            options: "{}".into(),
            xz_policy: XzPolicy::Glitch,
        }),
    );
    match resp.status {
        ResponseStatus::Failed { code, message } => {
            assert_eq!(code, ErrCode::SessionInitFailed);
            assert_eq!(message, "required channel tck unbound");
        }
        other => panic!("expected error, got {other:?}"),
    }
    h.shutdown();
}

#[test]
fn full_session_roundtrip_for_onewire_emits_three_annotations() {
    let mut h = Harness::spawn();
    let channels = vec![("data".to_string(), 0)];
    let resp = h.request(
        1,
        RequestOp::CreateSession(CreateSessionBody {
            decoder_id: "sigrok.onewire".into(),
            channels,
            options: "{}".into(),
            xz_policy: XzPolicy::Glitch,
        }),
    );
    let session = match resp.status {
        ResponseStatus::Succeeded { body: Some(ResponseBody::SessionCreated { session }) } => session,
        other => panic!("create_session failed: {other:?}"),
    };

    // Feed a single transition. The mock backend emits the full
    // scripted annotation set on the first transition it sees.
    let (_, events) = h.exchange(
        2,
        RequestOp::Feed(FeedBody {
            session: session.clone(),
            samples: vec![SampleBatch {
                t: vec![SampleTransition { fs: 0, set: vec![ChannelChange { ch: 0, v: BitValue::Zero }] }],
            }],
        }),
    );
    let annotations: Vec<_> = events
        .into_iter()
        .filter_map(|e| match e {
            Event::Annotation(a) => Some(a),
            _ => None,
        })
        .collect();
    assert_eq!(annotations.len(), 3, "expected 3 mock annotations");
    assert!(annotations.iter().all(|a| a.session == session));
    assert_eq!(annotations[0].label, "RESET / Presence");
    assert!(annotations[1].label.contains("READ ROM"));
    assert!(annotations[2].label.starts_with("ROM 0x28"));

    // Finalize then destroy.
    let resp = h.request(3, RequestOp::Finalize(FinalizeBody { session: session.clone() }));
    assert!(matches!(resp.status, ResponseStatus::Succeeded { .. }));
    let resp = h.request(4, RequestOp::Destroy(DestroyBody { session }));
    assert!(matches!(resp.status, ResponseStatus::Succeeded { .. }));

    h.shutdown();
}

#[test]
fn shutdown_request_terminates_subprocess() {
    let mut h = Harness::spawn();
    // List once to confirm liveness.
    let _ = h.request(1, RequestOp::ListDecoders);
    assert!(!h.exited);
    let resp = h.request(0, RequestOp::Shutdown);
    assert!(matches!(resp.status, ResponseStatus::Succeeded { body: None }));
    assert!(h.exited, "subprocess should exit cleanly");
}

#[test]
fn non_request_messages_are_ignored() {
    let mut be = current_backend();
    let msg = Message::Response(Response { id: 3, status: ResponseStatus::Succeeded { body: None } });
    assert!(matches!(serve(&mut be, msg), Step::Ignore));
}

#[test]
fn feeding_or_finalizing_an_unknown_session_is_refused_as_such() {
    let mut h = Harness::spawn();
    let (resp, events) = h.exchange(
        5,
        RequestOp::Feed(FeedBody { session: "s42".into(), samples: vec![] }),
    );
    assert!(events.is_empty());
    assert_eq!(resp.id, 5);
    match resp.status {
        ResponseStatus::Failed { code, message } => {
            assert_eq!(code, ErrCode::UnknownSession);
            assert_eq!(message, "unknown session");
        }
        other => panic!("expected error, got {other:?}"),
    }
    let (resp, events) = h.exchange(6, RequestOp::Finalize(FinalizeBody { session: "s42".into() }));
    assert!(events.is_empty());
    assert_eq!(resp.id, 6);
    assert!(matches!(
        resp.status,
        ResponseStatus::Failed { code: ErrCode::UnknownSession, .. }
    ));
}

#[test]
fn shutdown_is_answered_under_its_own_id_and_ends_the_loop() {
    let mut h = Harness::spawn();
    let resp = h.request(42, RequestOp::Shutdown);
    assert_eq!(resp.id, 42);
    assert!(matches!(resp.status, ResponseStatus::Succeeded { body: None }));
    assert!(h.exited);
}

#[test]
fn request_id_zero_that_is_not_a_shutdown_does_not_end_the_loop() {
    let mut h = Harness::spawn();
    let resp = h.request(0, RequestOp::ListDecoders);
    assert_eq!(resp.id, 0);
    assert!(!h.exited);
    h.shutdown();
}
