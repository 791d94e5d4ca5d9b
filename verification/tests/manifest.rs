use wavecrux_sigrok_bridge::dispatch::tag_events;
use wavecrux_sigrok_bridge::manifest::wavecrux_manifest;
use wavecrux_sigrok_bridge::schema::{
    AnnotationEvent, DecoderAnnotationClass, DecoderChannel, DecoderManifest, DecoderOption,
    OptionKind, OptionValue,
};

#[test]
fn manifest_includes_gpl_notice() {
    let m = DecoderManifest {
        id: "sigrok.onewire".into(),
        display_name: "1-Wire".into(),
        description: "Maxim 1-Wire bus".into(),
        channels: vec![DecoderChannel { name: "data".into(), description: "Data line".into(), required: true }],
        options: vec![],
        annotations: vec![DecoderAnnotationClass { id: "rom".into(), description: "ROM commands".into() }],
        tags: vec!["embedded".into()],
    };
    let w = wavecrux_manifest(&m);
    assert!(w.description.contains("GPLv3+"));
    assert!(w.description.contains("libsigrokdecode"));
    assert!(w.description.starts_with("Maxim 1-Wire bus\n\n"));
    assert_eq!(w.id, "sigrok.onewire");
    assert_eq!(w.license, "GPL-3.0-or-later");
    assert_eq!((w.category.as_str(), w.source.as_str()), ("user", "sigrok"));
    assert_eq!(w.annotations[0].id, "rom");
    assert_eq!(w.tags, vec!["embedded".to_string()]);
}

#[test]
fn manifest_serializes_options() {
    let m = DecoderManifest {
        id: "sigrok.uart".into(),
        display_name: "UART".into(),
        description: "Asynchronous serial".into(),
        channels: vec![DecoderChannel { name: "rx".into(), description: "Receive line".into(), required: true }],
        options: vec![DecoderOption {
            name: "baudrate".into(),
            description: "Baud rate".into(),
            kind: OptionKind::Int,
            default: OptionValue::Number("115200".into()),
            choices: vec![],
        }],
        annotations: vec![],
        tags: vec![],
    };
    let w = wavecrux_manifest(&m);
    assert_eq!(w.parameters.len(), 1);
    assert_eq!(w.parameters[0].name, "baudrate");
    assert_eq!(w.parameters[0].kind, "integer");
    assert!(matches!(&w.parameters[0].default, OptionValue::Number(t) if t == "115200"));
}

#[test]
fn manifest_uses_wavecrux_keys_for_optional_channels_and_enum_values() {
    let m = DecoderManifest {
        id: "sigrok.pwm".into(),
        display_name: "PWM".into(),
        description: "Pulse-width modulation analyzer.".into(),
        channels: vec![
            DecoderChannel { name: "data".into(), description: "Signal".into(), required: true },
            DecoderChannel { name: "clk".into(), description: "Clock".into(), required: false },
        ],
        options: vec![DecoderOption {
            name: "polarity".into(),
            description: "Active level".into(),
            kind: OptionKind::Enum,
            default: OptionValue::Str("active-high".into()),
            choices: vec![OptionValue::Str("active-high".into()), OptionValue::Str("active-low".into())],
        }],
        annotations: vec![],
        tags: vec![],
    };
    let w = wavecrux_manifest(&m);
    assert_eq!(w.signals.len(), 1);
    assert_eq!(w.signals[0].name, "data");
    assert_eq!(w.optional_signals.len(), 1);
    assert_eq!(w.optional_signals[0].name, "clk");
    assert_eq!(w.optional_signals[0].bit_width, 1);
    assert_eq!(w.parameters[0].enum_values, vec!["active-high".to_string(), "active-low".to_string()]);
    assert_eq!(w.parameters[0].kind, "enumeration");
}

#[test]
fn non_string_choices_are_labelled_by_their_json() {
    let m = DecoderManifest {
        id: "sigrok.x".into(),
        display_name: "X".into(),
        description: String::new(),
        channels: vec![],
        options: vec![
            DecoderOption {
                name: "rate".into(),
                description: String::new(),
                kind: OptionKind::Float,
                default: OptionValue::Number("2.5".into()),
                choices: vec![
                    OptionValue::Number("1.5".into()),
                    OptionValue::Bool(true),
                    OptionValue::Null,
                    OptionValue::Compound("[1,2]".into()),
                ],
            },
            DecoderOption {
                name: "flag".into(),
                description: String::new(),
                kind: OptionKind::Bool,
                default: OptionValue::Bool(false),
                choices: vec![],
            },
        ],
        annotations: vec![],
        tags: vec![],
    };
    let w = wavecrux_manifest(&m);
    assert_eq!(w.parameters[0].kind, "string");
    assert_eq!(w.parameters[0].enum_values, vec!["1.5", "true", "null", "[1,2]"]);
    assert_eq!(w.parameters[1].kind, "boolean");
    assert!(w.signals.is_empty() && w.optional_signals.is_empty());
}

#[test]
fn tag_events_fills_only_missing_sessions() {
    let e = |session: &str| AnnotationEvent {
        session: session.into(),
        start_fs: 0,
        end_fs: 1,
        ann_class: 0,
        label: "l".into(),
        fields: "{}".into(),
        is_error: false,
    };
    let out = tag_events(&"s7".to_string(), vec![e(""), e("s2"), e("")]);
    let sessions: Vec<_> = out.iter().map(|a| a.session.as_str()).collect();
    assert_eq!(sessions, vec!["s7", "s2", "s7"]);
}
