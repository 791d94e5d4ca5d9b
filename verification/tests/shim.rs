use wavecrux_sigrok_bridge::registry::{damage_of, damage_of_transport, Damage};
use wavecrux_sigrok_bridge::supervisor::SupervisorError;
use wavecrux_sigrok_bridge::abi::{
    callback_outcome, wavecrux_decoder_plugin_description, wavecrux_decoder_plugin_name, register_outcome,
    wavecrux_decoder_abi_version, RegisterOutcome, WC_DECODER_ERR, WC_DECODER_NEED_MORE_SLOTS,
    WC_DECODER_OK,
};
use wavecrux_sigrok_bridge::registry::{
    ack_from_reply, assign_channels, decoders_from_reply, sample_to_transition, session_from_reply,
    session_request, FeedError, Inbox, InstanceConfig, OwnedTransaction, RegistryError, WcSample,
};
use wavecrux_sigrok_bridge::mock::reference_decoder_manifests;
use wavecrux_sigrok_bridge::schema::{
    AnnotationEvent, BitValue, ChannelChange, DecoderChannel, ErrCode, Event, LogEvent, LogLevel,
    Response, ResponseBody, ResponseStatus, XzPolicy,
};

#[test]
fn abi_version_is_one_one() {
    assert_eq!(wavecrux_decoder_abi_version(), 0x0001_0001);
}

#[test]
fn plugin_name_and_description_are_valid_cstrings() {
    let name = wavecrux_decoder_plugin_name();
    assert_eq!(name, "WaveCrux SigRok Bridge");
    let desc = wavecrux_decoder_plugin_description();
    assert!(desc.contains("GPLv3+"), "description must carry the GPL notice");
    assert!(!name.contains('\0') && !desc.contains('\0'));
}

#[test]
fn registration_outcomes() {
    let o = register_outcome(Ok(5), 2);
    assert_eq!((o.code, o.count, o.write_defs), (WC_DECODER_NEED_MORE_SLOTS, Some(5), false));
    let o = register_outcome(Ok(5), 5);
    assert_eq!((o.code, o.count, o.write_defs), (WC_DECODER_OK, Some(5), true));
    let o: RegisterOutcome = register_outcome(Err(RegistryError::SubprocessUnavailable("gone".into())), 9);
    assert_eq!((o.code, o.count, o.write_defs), (WC_DECODER_OK, Some(0), false));
    let o = register_outcome(Err(RegistryError::Internal("x".into())), 9);
    assert_eq!((o.code, o.count, o.write_defs), (WC_DECODER_ERR, None, false));
}

#[test]
fn callback_outcomes() {
    assert_eq!(callback_outcome(Ok(3)), (WC_DECODER_OK, Some(3)));
    assert_eq!(callback_outcome(Err(FeedError::NeedsMoreSlots(7))), (WC_DECODER_NEED_MORE_SLOTS, Some(7)));
    assert_eq!(callback_outcome(Err(FeedError::Failed)), (WC_DECODER_ERR, None));
    assert_eq!(callback_outcome(Err(FeedError::Internal("x".into()))), (WC_DECODER_ERR, None));
}

#[test]
fn sample_pairs_decode_to_channel_values() {
    // ch0 = 1 (01), ch1 = 0 (00), ch2 = X (10 or 11), ch3 = 1 (01); ch4 = X (11)
    let s = WcSample { timestamp_fs: 42, bits: vec![0b01_10_00_01, 0b0000_0011], bit_width: 5 };
    let t = sample_to_transition(&s);
    assert_eq!(t.fs, 42);
    let vals: Vec<_> = t.set.iter().map(|c| (c.ch, c.v)).collect();
    assert_eq!(
        vals,
        vec![(0, BitValue::One), (1, BitValue::Zero), (2, BitValue::X), (3, BitValue::One), (4, BitValue::X)]
    );
}

#[test]
fn sample_without_bytes_names_no_channel() {
    let t = sample_to_transition(&WcSample { timestamp_fs: 1, bits: vec![], bit_width: 8 });
    assert!(t.set.is_empty());
    let t = sample_to_transition(&WcSample { timestamp_fs: 1, bits: vec![0xff], bit_width: 0 });
    assert!(t.set.is_empty());
    // Bytes beyond the width are not read.
    let t = sample_to_transition(&WcSample { timestamp_fs: 1, bits: vec![0x01, 0x01], bit_width: 1 });
    assert_eq!(t.set, vec![ChannelChange { ch: 0, v: BitValue::One }]);
}

fn ann(session: &str, label: &str) -> AnnotationEvent {
    AnnotationEvent {
        session: session.into(),
        start_fs: 10,
        end_fs: 20,
        ann_class: 1,
        label: label.into(),
        fields: r#"{"ok":true}"#.into(),
        is_error: true,
    }
}

#[test]
fn inbox_keeps_the_session_s_annotations_and_hands_them_over_whole() {
    let mut inbox = Inbox::new();
    let evs = vec![
        Event::Annotation(ann("s1", "a")),
        Event::Annotation(ann("s2", "other")),
        Event::Log(LogEvent { session: Some("s1".into()), level: LogLevel::Info, message: "m".into() }),
        Event::Annotation(ann("s1", "b")),
    ];
    inbox.deliver(&"s1".to_string(), &evs);
    assert_eq!(inbox.len(), 2);
    match inbox.take_up_to(1) {
        Err(FeedError::NeedsMoreSlots(n)) => assert_eq!(n, 2),
        _ => panic!("expected a slot request"),
    }
    assert_eq!(inbox.len(), 2);
    let got = inbox.take_up_to(2).unwrap();
    assert_eq!(got.iter().map(|t| t.label.as_str()).collect::<Vec<_>>(), vec!["a", "b"]);
    assert_eq!(got[0].fields_json, r#"{"ok":true}"#);
    assert!(got[0].is_error && got[0].start_fs == 10 && got[0].end_fs == 20);
    assert_eq!(inbox.len(), 0);
    assert!(inbox.take_up_to(0).unwrap().is_empty());
}

#[test]
fn labels_with_nul_become_empty() {
    let mut a = ann("s1", "bad\0label");
    a.fields = "{\0}".into();
    let t = OwnedTransaction::from_annotation(&a);
    assert_eq!(t.label, "");
    assert_eq!(t.fields_json, "{}");
}

fn chan(name: &str, required: bool) -> DecoderChannel {
    DecoderChannel { name: name.into(), description: String::new(), required }
}

#[test]
fn bound_channels_take_consecutive_positions_in_manifest_order() {
    let chs = vec![chan("data", true), chan("clk", false), chan("cs", false)];
    let b = assign_channels(&chs, &vec!["cs".into(), "data".into()]).unwrap();
    assert_eq!(b, vec![("data".to_string(), 0), ("cs".to_string(), 1)]);
    let chs2 = vec![chan("clk", false), chan("data", true)];
    let b = assign_channels(&chs2, &vec!["data".into()]).unwrap();
    assert_eq!(b, vec![("data".to_string(), 0)]);
    assert_eq!(assign_channels(&chs, &vec!["clk".into()]).unwrap_err(), "data");
}

#[test]
fn session_requests_check_the_catalog() {
    let ms = reference_decoder_manifests();
    let cfg = InstanceConfig {
        decoder_id: "sigrok.onewire".into(),
        bound: vec!["data".into()],
        options: r#"{"x":1}"#.into(),
        xz_policy: XzPolicy::CoerceLast,
    };
    let body = session_request(&ms, cfg).unwrap();
    assert_eq!(body.decoder_id, "sigrok.onewire");
    assert_eq!(body.channels, vec![("data".to_string(), 0)]);
    assert_eq!(body.options, r#"{"x":1}"#);
    assert_eq!(body.xz_policy, XzPolicy::CoerceLast);
    let unknown = InstanceConfig {
        decoder_id: "sigrok.nope".into(),
        bound: vec![],
        options: "{}".into(),
        xz_policy: XzPolicy::Glitch,
    };
    match session_request(&ms, unknown) {
        Err(RegistryError::Internal(m)) => assert_eq!(m, "unknown decoder sigrok.nope"),
        _ => panic!("expected an error"),
    }
    let unbound = InstanceConfig {
        decoder_id: "sigrok.jtag".into(),
        bound: vec!["tck".into()],
        options: "{}".into(),
        xz_policy: XzPolicy::Glitch,
    };
    match session_request(&ms, unbound) {
        Err(RegistryError::Internal(m)) => assert_eq!(m, "required channel tms unbound"),
        _ => panic!("expected an error"),
    }
}

#[test]
fn replies_are_read_back() {
    let ok = |body| Response { id: 1, status: ResponseStatus::Succeeded { body } };
    let list = decoders_from_reply(ok(Some(ResponseBody::Decoders(reference_decoder_manifests())))).unwrap();
    assert_eq!(list.len(), 5);
    match decoders_from_reply(ok(None)) {
        Err(RegistryError::Internal(m)) => assert_eq!(m, "unexpected response body for list_decoders"),
        _ => panic!(),
    }
    let failed = Response {
        id: 1,
        status: ResponseStatus::Failed { code: ErrCode::Internal, message: "boom".into() },
    };
    match decoders_from_reply(failed) {
        Err(RegistryError::SubprocessUnavailable(m)) => assert_eq!(m, "list_decoders failed: Internal: boom"),
        _ => panic!(),
    }
    let bad = Response {
        id: 1,
        status: ResponseStatus::Failed { code: ErrCode::BadRequest, message: "huh".into() },
    };
    match decoders_from_reply(bad) {
        Err(RegistryError::Subprocess(m)) => assert_eq!(m, "list_decoders failed: BadRequest: huh"),
        _ => panic!(),
    }
    let created = ok(Some(ResponseBody::SessionCreated { session: "s3".into() }));
    assert_eq!(session_from_reply(created).unwrap(), "s3");
    match session_from_reply(ok(Some(ResponseBody::Empty))) {
        Err(RegistryError::Internal(m)) => assert_eq!(m, "unexpected response body for create_session"),
        _ => panic!(),
    }
    let refused = Response {
        id: 2,
        status: ResponseStatus::Failed { code: ErrCode::SessionInitFailed, message: "no".into() },
    };
    assert!(matches!(session_from_reply(refused), Err(RegistryError::Subprocess(m)) if m == "no"));
    assert!(ack_from_reply(ok(None)).is_ok());
    let nack = Response {
        id: 3,
        status: ResponseStatus::Failed { code: ErrCode::DecoderFailed, message: "bad".into() },
    };
    assert!(matches!(ack_from_reply(nack), Err(FeedError::Internal(m)) if m == "bad"));
}

#[test]
fn an_engine_that_cannot_start_registers_no_decoders() {
    let failed = Response {
        id: 1,
        status: ResponseStatus::Failed { code: ErrCode::Internal, message: "libsigrokdecode missing".into() },
    };
    let o = register_outcome(decoders_from_reply(failed).map(|l| l.len()), 9);
    assert_eq!(o.code, WC_DECODER_OK);
    assert_eq!(o.count, Some(0));
    assert!(!o.write_defs);
}

#[test]
fn failures_damage_what_the_docs_say() {
    assert_eq!(damage_of(ErrCode::DecoderFailed), Damage::Session);
    assert_eq!(damage_of(ErrCode::Internal), Damage::Subprocess);
    assert_eq!(damage_of(ErrCode::UnknownSession), Damage::Request);
    assert_eq!(damage_of(ErrCode::BadRequest), Damage::Request);
    assert_eq!(damage_of_transport(&SupervisorError::SubprocessDied), Damage::Subprocess);
    assert_eq!(damage_of_transport(&SupervisorError::Io("broken pipe".into())), Damage::Subprocess);
    assert_eq!(damage_of_transport(&SupervisorError::Protocol("bad json".into())), Damage::Request);
}
