use wavecrux_sigrok_bridge::supervisor::filename_for_separator;
use wavecrux_sigrok_bridge::frame::{CodecError, IoErrorKind};
use wavecrux_sigrok_bridge::schema::{
    AnnotationEvent, Event, LogEvent, LogLevel, Message, Request, RequestOp, Response,
    ResponseStatus,
};
use wavecrux_sigrok_bridge::supervisor::{
    from_codec_error, subprocess_filename, Correlator, SupervisorError, Wait,
};

#[test]
fn subprocess_filename_matches_platform() {
    let name = subprocess_filename();
    if std::path::MAIN_SEPARATOR == '\\' {
        assert!(name.ends_with(".exe"));
    } else {
        assert!(!name.contains('.'));
    }
}

fn ok_response(id: u64) -> Message {
    Message::Response(Response { id, status: ResponseStatus::Succeeded { body: None } })
}

fn annotation(session: &str) -> Event {
    Event::Annotation(AnnotationEvent {
        session: session.into(),
        start_fs: 1,
        end_fs: 2,
        ann_class: 0,
        label: "x".into(),
        fields: "{}".into(),
        is_error: false,
    })
}

#[test]
fn request_ids_start_at_one_and_increase() {
    let mut c = Correlator::new();
    assert_eq!(c.begin(RequestOp::ListDecoders).id, 1);
    assert_eq!(c.begin(RequestOp::ListDecoders).id, 2);
    assert_eq!(c.begin(RequestOp::Shutdown).id, 3);
}

#[test]
fn waits_for_the_matching_response_and_queues_events() {
    let mut c = Correlator::new();
    let req = c.begin(RequestOp::ListDecoders);
    assert!(matches!(c.on_message(req.id, ok_response(99)), Wait::Continue));
    assert!(matches!(c.on_message(req.id, Message::Event(annotation("s1"))), Wait::Continue));
    let log = Event::Log(LogEvent { session: None, level: LogLevel::Warn, message: "crc".into() });
    assert!(matches!(c.on_message(req.id, Message::Event(log)), Wait::Continue));
    match c.on_message(req.id, ok_response(req.id)) {
        Wait::Done(r) => assert_eq!(r.id, req.id),
        _ => panic!("expected the response"),
    }
    let evs = c.drain_events();
    assert_eq!(evs.len(), 2);
    assert!(matches!(&evs[0], Event::Annotation(a) if a.session == "s1"));
    assert!(matches!(&evs[1], Event::Log(_)));
    assert!(c.drain_events().is_empty());
}

#[test]
fn a_request_from_the_subprocess_is_a_protocol_violation() {
    let mut c = Correlator::new();
    let msg = Message::Request(Request { id: 5, op: RequestOp::Shutdown });
    match c.on_message(1, msg) {
        Wait::Failed(SupervisorError::Protocol(m)) => {
            assert_eq!(m, "subprocess sent a request to the shim")
        }
        _ => panic!("expected a protocol error"),
    }
}

#[test]
fn codec_errors_map_to_supervisor_errors() {
    assert!(matches!(from_codec_error(CodecError::PeerClosed), SupervisorError::SubprocessDied));
    match from_codec_error(CodecError::Io(IoErrorKind::UnexpectedEof)) {
        SupervisorError::Io(m) => assert_eq!(m, "io error: failed to fill whole buffer"),
        _ => panic!("expected an io error"),
    }
    let e = from_codec_error(CodecError::FrameTooLarge { actual: 20, limit: 10 });
    assert_eq!(e.message(), "io: frame too large: 20 bytes (limit 10)");
    assert_eq!(SupervisorError::SubprocessDied.message(), "bridge subprocess died unexpectedly");
    assert_eq!(
        SupervisorError::SpawnFailed("no binary".into()).message(),
        "could not spawn bridge subprocess: no binary"
    );
}

#[test]
fn filename_follows_the_separator() {
    assert_eq!(filename_for_separator('\\'), "wavecrux-sigrok-bridge.exe");
    assert_eq!(filename_for_separator('/'), "wavecrux-sigrok-bridge");
}
