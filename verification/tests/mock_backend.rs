use wavecrux_sigrok_bridge::dispatch::{Backend, BackendError};
use wavecrux_sigrok_bridge::mock::{current_backend, reference_decoder_manifests, MockBackend};
use wavecrux_sigrok_bridge::schema::{
    BitValue, ChannelChange, CreateSessionBody, FeedBody, OptionKind, OptionValue, SampleBatch,
    SampleTransition,
};

fn body(decoder_id: &str, channels: Vec<(String, u32)>) -> CreateSessionBody {
    CreateSessionBody {
        decoder_id: decoder_id.into(),
        channels,
        options: "{}".into(),
        xz_policy: Default::default(),
    }
}

fn edge(fs: u64, ch: u32, v: BitValue) -> FeedBody {
    FeedBody {
        session: String::new(),
        samples: vec![SampleBatch { t: vec![SampleTransition { fs, set: vec![ChannelChange { ch, v }] }] }],
    }
}

fn feed_edge(be: &mut MockBackend, session: &str, fs: u64) -> Vec<wavecrux_sigrok_bridge::schema::AnnotationEvent> {
    let mut b = edge(fs, 0, BitValue::Zero);
    b.session = session.into();
    be.feed(b).unwrap()
}

#[test]
fn advertises_five_decoders() {
    let m = reference_decoder_manifests();
    assert_eq!(m.len(), 5);
    let ids: Vec<_> = m.iter().map(|d| d.id.clone()).collect();
    assert!(ids.contains(&"sigrok.onewire".to_string()));
    assert!(ids.contains(&"sigrok.jtag".to_string()));
    assert!(ids.contains(&"sigrok.pwm".to_string()));
    assert!(ids.contains(&"sigrok.dmx512".to_string()));
    assert!(ids.contains(&"sigrok.modbus".to_string()));
}

#[test]
fn rejects_unknown_decoder_in_create_session() {
    let mut be = MockBackend::new();
    let body = body("sigrok.totallyfake", Default::default());
    assert!(be.create_session(body).is_err());
}

#[test]
fn rejects_missing_required_channel() {
    let mut be = MockBackend::new();
    let body = body("sigrok.onewire", Default::default());
    assert!(be.create_session(body).is_err());
}

#[test]
fn opens_and_feeds_a_minimal_onewire_session() {
    let mut be = MockBackend::new();
    let chans = vec![("data".to_string(), 0)];
    let id = be.create_session(body("sigrok.onewire", chans)).unwrap();
    let evs = be
        .feed(FeedBody {
            session: id.clone(),
            samples: vec![SampleBatch {
                t: vec![SampleTransition { fs: 0, set: vec![ChannelChange { ch: 0, v: BitValue::Zero }] }],
            }],
        })
        .unwrap();
    assert!(!evs.is_empty(), "mock should emit annotations on first edge");
    assert_eq!(evs[0].session, id);
}

#[test]
fn error_messages_name_the_problem() {
    let mut be = current_backend();
    let e = be.create_session(body("sigrok.nope", vec![])).unwrap_err();
    assert!(matches!(e, BackendError::UnknownDecoder(_)));
    assert_eq!(e.message(), "unknown decoder sigrok.nope");
    let partial = vec![("tck".to_string(), 0), ("tms".to_string(), 1)];
    let e = be.create_session(body("sigrok.jtag", partial)).unwrap_err();
    assert!(matches!(e, BackendError::Failed(_)));
    assert_eq!(e.message(), "required channel tdi unbound");
    let mut b = edge(0, 0, BitValue::One);
    b.session = "s9".into();
    let e = be.feed(b).unwrap_err();
    assert!(matches!(e, BackendError::UnknownSession(_)));
    assert_eq!(e.message(), "unknown session");
    let e = be.finalize(&"s9".to_string()).unwrap_err();
    assert!(matches!(e, BackendError::UnknownSession(_)));
    assert_eq!(e.message(), "unknown session");
}

#[test]
fn sessions_are_numbered_from_one() {
    let mut be = MockBackend::new();
    let a = be.create_session(body("sigrok.pwm", vec![("signal".into(), 0)])).unwrap();
    let b = be.create_session(body("sigrok.dmx512", vec![("data".into(), 3)])).unwrap();
    assert_eq!(a, "s1");
    assert_eq!(b, "s2");
    for i in 3..=12u32 {
        let s = be.create_session(body("sigrok.modbus", vec![("rx".into(), 0)])).unwrap();
        assert_eq!(s, format!("s{i}"));
    }
}

#[test]
fn script_is_emitted_once_with_offsets_from_the_first_edge() {
    let mut be = MockBackend::new();
    let id = be.create_session(body("sigrok.dmx512", vec![("data".into(), 0)])).unwrap();
    let evs = feed_edge(&mut be, &id, 1_000);
    assert_eq!(evs.len(), 5);
    assert_eq!(evs[0].label, "BREAK");
    assert_eq!((evs[0].start_fs, evs[0].end_fs), (1_000, 88_001_000));
    assert_eq!(evs[4].label, "Slot 2 = 0x80");
    assert_eq!(evs[4].fields, r#"{"slot":2,"value":128}"#);
    assert_eq!((evs[4].start_fs, evs[4].end_fs), (184_001_000, 228_001_000));
    assert!(evs.iter().all(|e| e.session == id && !e.is_error));
    assert!(feed_edge(&mut be, &id, 5_000).is_empty());
    assert!(be.finalize(&id).unwrap().is_empty());
}

#[test]
fn a_feed_without_changes_emits_nothing_yet() {
    let mut be = MockBackend::new();
    let id = be.create_session(body("sigrok.jtag", vec![
        ("tck".into(), 0), ("tms".into(), 1), ("tdi".into(), 2), ("tdo".into(), 3),
    ])).unwrap();
    let quiet = FeedBody {
        session: id.clone(),
        samples: vec![SampleBatch { t: vec![SampleTransition { fs: 7, set: vec![] }] }],
    };
    assert!(be.feed(quiet).unwrap().is_empty());
    let evs = feed_edge(&mut be, &id, 10);
    assert_eq!(evs.len(), 3);
    assert_eq!(evs[1].label, "IR=0x09 IDCODE");
    assert_eq!(evs[1].ann_class, 1);
    assert_eq!((evs[1].start_fs, evs[1].end_fs), (1_000_000_010, 2_000_000_010));
}

#[test]
fn pwm_fields_keep_their_json_numbers() {
    let mut be = MockBackend::new();
    let id = be.create_session(body("sigrok.pwm", vec![("signal".into(), 0)])).unwrap();
    let evs = feed_edge(&mut be, &id, 0);
    assert_eq!(evs.len(), 2);
    assert_eq!(evs[0].label, "duty=25.0%");
    assert_eq!(evs[0].fields, r#"{"duty_pct":25.0,"frequency_hz":1000.0}"#);
    assert_eq!(evs[1].end_fs, 10_000_000_000);
}

#[test]
fn timestamps_near_the_end_of_the_range_wrap() {
    let mut be = MockBackend::new();
    let id = be.create_session(body("sigrok.onewire", vec![("data".into(), 0)])).unwrap();
    let evs = feed_edge(&mut be, &id, u64::MAX);
    assert_eq!(evs[0].start_fs, u64::MAX);
    assert_eq!(evs[0].end_fs, 480_000_000 - 1);
}

#[test]
fn destroyed_session_is_forgotten() {
    let mut be = MockBackend::new();
    let id = be.create_session(body("sigrok.modbus", vec![("rx".into(), 0)])).unwrap();
    be.destroy(&id).unwrap();
    assert_eq!(be.finalize(&id).unwrap_err().message(), "unknown session");
    // Destroying an unknown session is not an error.
    be.destroy(&id).unwrap();
    // The counter does not go back.
    let next = be.create_session(body("sigrok.modbus", vec![("rx".into(), 0)])).unwrap();
    assert_eq!(next, "s2");
}

#[test]
fn catalog_options_are_advertised() {
    let m = reference_decoder_manifests();
    let pwm = &m[2];
    assert_eq!(pwm.options.len(), 1);
    assert_eq!(pwm.options[0].kind, OptionKind::Enum);
    assert!(matches!(&pwm.options[0].default, OptionValue::Str(s) if s == "active-high"));
    assert_eq!(pwm.options[0].choices.len(), 2);
    let modbus = &m[4];
    assert!(matches!(&modbus.options[0].default, OptionValue::Number(t) if t == "9600"));
    assert_eq!(m[1].channels.len(), 4);
    assert!(m.iter().all(|d| d.channels.iter().all(|c| c.required)));
}
