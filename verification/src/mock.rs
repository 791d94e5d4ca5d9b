//! Mock decoder backend.
//!
//! The mock advertises the five reference decoders and replays
//! deterministic, scripted annotations: on the first transition of a
//! session that records a channel level, the session emits its
//! decoder's full annotation set, and never again.  It exists so that
//! the IPC path can be exercised end to end without the real decoding
//! engine installed.

use vstd::prelude::*;
use std::collections::HashMap;
use crate::schema::{
    ErrCode, Request, RequestOp, Response, ResponseStatus, SessionId,
    AnnotationEvent, AnnotationEventView, BitValue, ChannelChange, CreateSessionBody,
    DecoderAnnotationClass, DecoderAnnotationClassView, DecoderChannel, DecoderChannelView,
    DecoderManifest, DecoderManifestView, DecoderOption, DecoderOptionView, FeedBody, OptionKind,
    OptionValue, OptionValueView, SampleBatch, SampleTransition, bindings_view, events_view,
    manifests_view,
};
use crate::text::{decimal, owned, push_decimal};
use crate::dispatch::{Backend, BackendError, Outcome, error_text, handled, replies};

verus! {

broadcast use vstd::std_specs::hash::group_hash_axioms;

// ── The reference catalog ────────────────────────────────────────────

pub open spec fn required_channel(name: &str, description: &str) -> DecoderChannelView {
    DecoderChannelView { name: name@, description: description@, required: true }
}

pub open spec fn ann_class_view(id: &str, description: &str) -> DecoderAnnotationClassView {
    DecoderAnnotationClassView { id: id@, description: description@ }
}

pub open spec fn onewire_view() -> DecoderManifestView {
    DecoderManifestView {
        id: "sigrok.onewire"@,
        display_name: "1-Wire"@,
        description: "Maxim Integrated 1-Wire serial bus."@,
        channels: seq![required_channel("data", "1-Wire bidirectional data line.")],
        options: seq![],
        annotations: seq![
            ann_class_view("reset", "Reset / presence pulse"),
            ann_class_view("rom", "ROM command"),
            ann_class_view("data", "Data byte"),
        ],
        tags: seq!["embedded"@, "serial"@],
    }
}

pub open spec fn jtag_view() -> DecoderManifestView {
    DecoderManifestView {
        id: "sigrok.jtag"@,
        display_name: "JTAG"@,
        description: "IEEE 1149.1 JTAG TAP controller."@,
        channels: seq![
            required_channel("tck", "Test clock"),
            required_channel("tms", "Test mode select"),
            required_channel("tdi", "Test data in"),
            required_channel("tdo", "Test data out"),
        ],
        options: seq![],
        annotations: seq![
            ann_class_view("tap_state", "TAP controller state"),
            ann_class_view("ir", "IR scan"),
            ann_class_view("dr", "DR scan"),
        ],
        tags: seq!["debug"@, "test"@],
    }
}

pub open spec fn pwm_view() -> DecoderManifestView {
    DecoderManifestView {
        id: "sigrok.pwm"@,
        display_name: "PWM"@,
        description: "Pulse-width modulation analyzer."@,
        channels: seq![required_channel("signal", "Pulse-width-modulated signal")],
        options: seq![
            DecoderOptionView {
                name: "polarity"@,
                description: "Active level (active-high or active-low)"@,
                kind: OptionKind::Enum,
                default: OptionValueView::Str("active-high"@),
                choices: seq![OptionValueView::Str("active-high"@), OptionValueView::Str("active-low"@)],
            },
        ],
        annotations: seq![
            ann_class_view("duty", "Duty cycle"),
            ann_class_view("frequency", "Frequency"),
        ],
        tags: seq!["analog"@, "embedded"@],
    }
}

pub open spec fn dmx512_view() -> DecoderManifestView {
    DecoderManifestView {
        id: "sigrok.dmx512"@,
        display_name: "DMX512"@,
        description: "USITT DMX512 stage lighting protocol."@,
        channels: seq![required_channel("data", "DMX data line")],
        options: seq![],
        annotations: seq![
            ann_class_view("break", "BREAK"),
            ann_class_view("mab", "Mark after break"),
            ann_class_view("slot", "DMX slot"),
        ],
        tags: seq!["lighting"@, "serial"@],
    }
}

pub open spec fn modbus_view() -> DecoderManifestView {
    DecoderManifestView {
        id: "sigrok.modbus"@,
        display_name: "Modbus"@,
        description: "Modbus RTU serial protocol."@,
        channels: seq![required_channel("rx", "Receive line")],
        options: seq![
            DecoderOptionView {
                name: "baudrate"@,
                description: "UART baud rate"@,
                kind: OptionKind::Int,
                default: OptionValueView::Number("9600"@),
                choices: seq![],
            },
        ],
        annotations: seq![
            ann_class_view("frame", "Frame"),
            ann_class_view("function", "Function code"),
            ann_class_view("crc", "CRC"),
        ],
        tags: seq!["industrial"@, "serial"@],
    }
}

/// The five reference decoders, in the order they are advertised.
pub open spec fn reference_catalog() -> Seq<DecoderManifestView> {
    seq![onewire_view(), jtag_view(), pwm_view(), dmx512_view(), modbus_view()]
}

/// What every catalog entry keeps: an id of the form `sigrok.<protocol>`,
/// a display name, at least one annotation class with no two classes
/// sharing an id, and options whose default is among their choices when
/// they are enumerations and that have no choices otherwise.
pub open spec fn entry_well_formed(m: DecoderManifestView) -> bool {
    &&& "sigrok."@.is_prefix_of(m.id) && m.id.len() > 7
    &&& m.display_name.len() > 0
    &&& m.annotations.len() > 0
    &&& forall|i: int, j: int| 0 <= i < j < m.annotations.len()
        ==> (#[trigger] m.annotations[i]).id != (#[trigger] m.annotations[j]).id
    &&& forall|k: int| 0 <= k < m.options.len() ==> {
        let o = #[trigger] m.options[k];
        &&& o.kind == OptionKind::Enum ==> o.choices.contains(o.default)
        &&& o.kind != OptionKind::Enum ==> o.choices.len() == 0
    }
}

/// The reference catalog advertises no id twice, and every entry is well
/// formed.
pub proof fn lemma_catalog_well_formed()
    ensures
        forall|i: int, j: int| 0 <= i < j < reference_catalog().len()
            ==> (#[trigger] reference_catalog()[i]).id != (#[trigger] reference_catalog()[j]).id,
        forall|i: int| 0 <= i < reference_catalog().len() ==> entry_well_formed(#[trigger] reference_catalog()[i]),
{
    reveal_strlit("sigrok.");
    reveal_strlit("sigrok.onewire");
    reveal_strlit("sigrok.jtag");
    reveal_strlit("sigrok.pwm");
    reveal_strlit("sigrok.dmx512");
    reveal_strlit("sigrok.modbus");
    reveal_strlit("1-Wire");
    reveal_strlit("JTAG");
    reveal_strlit("PWM");
    reveal_strlit("DMX512");
    reveal_strlit("Modbus");
    reveal_strlit("reset");
    reveal_strlit("rom");
    reveal_strlit("data");
    reveal_strlit("tap_state");
    reveal_strlit("ir");
    reveal_strlit("dr");
    reveal_strlit("duty");
    reveal_strlit("frequency");
    reveal_strlit("break");
    reveal_strlit("mab");
    reveal_strlit("slot");
    reveal_strlit("frame");
    reveal_strlit("function");
    reveal_strlit("crc");
    let cat = reference_catalog();
    let ids = seq!["sigrok.onewire"@, "sigrok.jtag"@, "sigrok.pwm"@, "sigrok.dmx512"@, "sigrok.modbus"@];
    assert(forall|i: int| 0 <= i < 5 ==> cat[i].id == #[trigger] ids[i]);
    assert("sigrok.dmx512"@[7] != "sigrok.modbus"@[7]);
    assert("ir"@[0] != "dr"@[0]);
    assert forall|i: int| 0 <= i < 5 implies "sigrok."@.is_prefix_of(#[trigger] ids[i]) by {
        assert("sigrok."@ =~= ids[i].subrange(0, 7));
    }
    assert(entry_well_formed(onewire_view())) by {
        assert("sigrok."@.is_prefix_of(ids[0]));
        assert("reset"@.len() == 5 && "rom"@.len() == 3 && "data"@.len() == 4);
    }
    assert(entry_well_formed(jtag_view()));
    assert(entry_well_formed(pwm_view())) by {
        let o = pwm_view().options[0];
        assert(o.choices[0] == o.default);
        assert("duty"@.len() == 4 && "frequency"@.len() == 9);
    }
    assert(entry_well_formed(dmx512_view())) by {
        assert("sigrok."@.is_prefix_of(ids[3]));
        assert("break"@.len() == 5 && "mab"@.len() == 3 && "slot"@.len() == 4);
    }
    assert(entry_well_formed(modbus_view())) by {
        assert("frame"@.len() == 5 && "function"@.len() == 8 && "crc"@.len() == 3);
    }
}

fn channel(name: &str, description: &str, required: bool) -> (c: DecoderChannel)
    ensures
        c@ == (DecoderChannelView { name: name@, description: description@, required }),
{
    DecoderChannel { name: owned(name), description: owned(description), required }
}

fn ann_class(id: &str, description: &str) -> (a: DecoderAnnotationClass)
    ensures
        a@ == ann_class_view(id, description),
{
    DecoderAnnotationClass { id: owned(id), description: owned(description) }
}

fn onewire_manifest() -> (m: DecoderManifest)
    ensures
        m@ == onewire_view(),
{
    let channels = vec![channel("data", "1-Wire bidirectional data line.", true)];
    let annotations = vec![
        ann_class("reset", "Reset / presence pulse"),
        ann_class("rom", "ROM command"),
        ann_class("data", "Data byte"),
    ];
    let tags = vec![owned("embedded"), owned("serial")];
    let m = DecoderManifest {
        id: owned("sigrok.onewire"),
        display_name: owned("1-Wire"),
        description: owned("Maxim Integrated 1-Wire serial bus."),
        channels,
        options: Vec::new(),
        annotations,
        tags,
    };
    assert(m@ =~= onewire_view());
    m
}

fn jtag_manifest() -> (m: DecoderManifest)
    ensures
        m@ == jtag_view(),
{
    let channels = vec![
        channel("tck", "Test clock", true),
        channel("tms", "Test mode select", true),
        channel("tdi", "Test data in", true),
        channel("tdo", "Test data out", true),
    ];
    let annotations = vec![
        ann_class("tap_state", "TAP controller state"),
        ann_class("ir", "IR scan"),
        ann_class("dr", "DR scan"),
    ];
    let tags = vec![owned("debug"), owned("test")];
    let m = DecoderManifest {
        id: owned("sigrok.jtag"),
        display_name: owned("JTAG"),
        description: owned("IEEE 1149.1 JTAG TAP controller."),
        channels,
        options: Vec::new(),
        annotations,
        tags,
    };
    assert(m@ =~= jtag_view());
    m
}

fn pwm_manifest() -> (m: DecoderManifest)
    ensures
        m@ == pwm_view(),
{
    let channels = vec![channel("signal", "Pulse-width-modulated signal", true)];
    let polarity = DecoderOption {
        name: owned("polarity"),
        description: owned("Active level (active-high or active-low)"),
        kind: OptionKind::Enum,
        default: OptionValue::Str(owned("active-high")),
        choices: vec![OptionValue::Str(owned("active-high")), OptionValue::Str(owned("active-low"))],
    };
    assert(polarity@ =~= pwm_view().options[0]);
    let options = vec![polarity];
    let annotations = vec![ann_class("duty", "Duty cycle"), ann_class("frequency", "Frequency")];
    let tags = vec![owned("analog"), owned("embedded")];
    let m = DecoderManifest {
        id: owned("sigrok.pwm"),
        display_name: owned("PWM"),
        description: owned("Pulse-width modulation analyzer."),
        channels,
        options,
        annotations,
        tags,
    };
    assert(m@ =~= pwm_view());
    m
}

fn dmx512_manifest() -> (m: DecoderManifest)
    ensures
        m@ == dmx512_view(),
{
    let channels = vec![channel("data", "DMX data line", true)];
    let annotations = vec![
        ann_class("break", "BREAK"),
        ann_class("mab", "Mark after break"),
        ann_class("slot", "DMX slot"),
    ];
    let tags = vec![owned("lighting"), owned("serial")];
    let m = DecoderManifest {
        id: owned("sigrok.dmx512"),
        display_name: owned("DMX512"),
        description: owned("USITT DMX512 stage lighting protocol."),
        channels,
        options: Vec::new(),
        annotations,
        tags,
    };
    assert(m@ =~= dmx512_view());
    m
}

fn modbus_manifest() -> (m: DecoderManifest)
    ensures
        m@ == modbus_view(),
{
    let channels = vec![channel("rx", "Receive line", true)];
    let baudrate = DecoderOption {
        name: owned("baudrate"),
        description: owned("UART baud rate"),
        kind: OptionKind::Int,
        default: OptionValue::Number(owned("9600")),
        choices: Vec::new(),
    };
    assert(baudrate@ =~= modbus_view().options[0]);
    let options = vec![baudrate];
    let annotations = vec![
        ann_class("frame", "Frame"),
        ann_class("function", "Function code"),
        ann_class("crc", "CRC"),
    ];
    let tags = vec![owned("industrial"), owned("serial")];
    let m = DecoderManifest {
        id: owned("sigrok.modbus"),
        display_name: owned("Modbus"),
        description: owned("Modbus RTU serial protocol."),
        channels,
        options,
        annotations,
        tags,
    };
    assert(m@ =~= modbus_view());
    m
}

/// The five reference decoders the bridge advertises. Channel and option
/// layouts mirror the real engine's so that swapping backends is a
/// drop-in replacement at the IPC layer.
pub fn reference_decoder_manifests() -> (ms: Vec<DecoderManifest>)
    ensures
        manifests_view(ms@) == reference_catalog(),
{
    let ms = vec![onewire_manifest(), jtag_manifest(), pwm_manifest(), dmx512_manifest(), modbus_manifest()];
    assert(manifests_view(ms@) =~= reference_catalog());
    ms
}


// ── Scripted annotations ─────────────────────────────────────────────

/// Which scripted decoder a session runs.
#[derive(Clone, Copy, Debug, PartialEq, Eq, Structural)]
pub enum MockDecoder {
    /// A catalog entry without a script: never emits.
    Idle,
    OneWire,
    Jtag,
    Pwm,
    Dmx512,
    Modbus,
}

/// The script a decoder id selects.
pub open spec fn decoder_for(id: Seq<char>) -> MockDecoder {
    if id == "sigrok.onewire"@ {
        MockDecoder::OneWire
    } else if id == "sigrok.jtag"@ {
        MockDecoder::Jtag
    } else if id == "sigrok.pwm"@ {
        MockDecoder::Pwm
    } else if id == "sigrok.dmx512"@ {
        MockDecoder::Dmx512
    } else if id == "sigrok.modbus"@ {
        MockDecoder::Modbus
    } else {
        MockDecoder::Idle
    }
}

/// One scripted annotation: offsets from the triggering timestamp, class,
/// label and the JSON text of its fields.
pub struct ScriptedAnnotation {
    pub start: u64,
    pub end: u64,
    pub ann_class: u32,
    pub label: Seq<char>,
    pub fields: Seq<char>,
}

pub open spec fn scripted(start: u64, end: u64, ann_class: u32, label: &str, fields: &str) -> ScriptedAnnotation {
    ScriptedAnnotation { start, end, ann_class, label: label@, fields: fields@ }
}

/// The annotations each decoder emits, as offsets from the first edge.
pub open spec fn script(d: MockDecoder) -> Seq<ScriptedAnnotation> {
    match d {
        MockDecoder::Idle => seq![],
        MockDecoder::OneWire => seq![
            scripted(0, 480000000, 0, "RESET / Presence", "{}"),
            scripted(480000000, 540000000, 1, "READ ROM (0x33)", "{\"opcode\":\"0x33\"}"),
            scripted(540000000, 1020000000, 2, "ROM 0x28 0xFF 0x46 0x9D 0x01 0x16 0x03 0xC2",
                "{\"crc\":\"0xC2\",\"family\":\"0x28\",\"ok\":true}"),
        ],
        MockDecoder::Jtag => seq![
            scripted(0, 1000000000, 0, "TEST-LOGIC-RESET", "{}"),
            scripted(1000000000, 2000000000, 1, "IR=0x09 IDCODE", "{\"opcode\":\"0x09\"}"),
            scripted(2000000000, 3000000000, 2, "DR=0x1234ABCD", "{\"value\":\"0x1234abcd\"}"),
        ],
        MockDecoder::Pwm => seq![
            scripted(0, 5000000000, 0, "duty=25.0%", "{\"duty_pct\":25.0,\"frequency_hz\":1000.0}"),
            scripted(5000000000, 10000000000, 0, "duty=75.0%", "{\"duty_pct\":75.0,\"frequency_hz\":1000.0}"),
        ],
        MockDecoder::Dmx512 => seq![
            scripted(0, 88000000, 0, "BREAK", "{}"),
            scripted(88000000, 96000000, 1, "MAB", "{}"),
            scripted(96000000, 140000000, 2, "Slot 0 = 0x00 (start code)", "{\"slot\":0,\"value\":0}"),
            scripted(140000000, 184000000, 2, "Slot 1 = 0xFF", "{\"slot\":1,\"value\":255}"),
            scripted(184000000, 228000000, 2, "Slot 2 = 0x80", "{\"slot\":2,\"value\":128}"),
        ],
        MockDecoder::Modbus => seq![
            scripted(0, 4000000000, 0, "Read Holding Registers",
                "{\"count\":2,\"function\":3,\"slave\":1,\"start\":1}"),
            scripted(0, 1000000000, 1, "fn=0x03", "{\"function\":3}"),
            scripted(3500000000, 4000000000, 2, "CRC ok", "{\"crc\":\"0xAABB\",\"ok\":true}"),
        ],
    }
}

/// A scripted annotation placed at `fs` for `session`. Timestamps wrap
/// around at the end of the `u64` range, as unchecked addition does.
pub open spec fn scripted_event(session: Seq<char>, fs: u64, a: ScriptedAnnotation) -> AnnotationEventView {
    AnnotationEventView {
        session,
        start_fs: vstd::wrapping::u64_specs::wrapping_add(fs, a.start),
        end_fs: vstd::wrapping::u64_specs::wrapping_add(fs, a.end),
        ann_class: a.ann_class,
        label: a.label,
        fields: a.fields,
        is_error: false,
    }
}

/// Decoder `d`'s full annotation set, triggered at `fs`.
pub open spec fn script_events(d: MockDecoder, session: Seq<char>, fs: u64) -> Seq<AnnotationEventView> {
    script(d).map_values(|a: ScriptedAnnotation| scripted_event(session, fs, a))
}

fn emit(
    out: &mut Vec<AnnotationEvent>,
    session: &String,
    fs: u64,
    start: u64,
    end: u64,
    ann_class: u32,
    label: &str,
    fields: &str,
)
    ensures
        events_view(final(out)@) == events_view(old(out)@).push(
            scripted_event(session@, fs, scripted(start, end, ann_class, label, fields)),
        ),
{
    let e = AnnotationEvent {
        session: session.clone(),
        start_fs: fs.wrapping_add(start),
        end_fs: fs.wrapping_add(end),
        ann_class,
        label: owned(label),
        fields: owned(fields),
        is_error: false,
    };
    out.push(e);
    assert(events_view(out@) =~= events_view(old(out)@).push(
        scripted_event(session@, fs, scripted(start, end, ann_class, label, fields)),
    ));
}

/// Appends decoder `d`'s annotation set, triggered at `fs`, to `out`.
fn emit_script(out: &mut Vec<AnnotationEvent>, d: MockDecoder, session: &String, fs: u64)
    ensures
        events_view(final(out)@) =~= events_view(old(out)@) + script_events(d, session@, fs),
{
    let ghost e0 = events_view(out@);
    let ghost sid = session@;
    match d {
        MockDecoder::Idle => {},
        MockDecoder::OneWire => {
            emit(out, session, fs, 0, 480000000, 0, "RESET / Presence", "{}");
            emit(out, session, fs, 480000000, 540000000, 1, "READ ROM (0x33)", "{\"opcode\":\"0x33\"}");
            emit(out, session, fs, 540000000, 1020000000, 2, "ROM 0x28 0xFF 0x46 0x9D 0x01 0x16 0x03 0xC2",
                "{\"crc\":\"0xC2\",\"family\":\"0x28\",\"ok\":true}");
        },
        MockDecoder::Jtag => {
            emit(out, session, fs, 0, 1000000000, 0, "TEST-LOGIC-RESET", "{}");
            emit(out, session, fs, 1000000000, 2000000000, 1, "IR=0x09 IDCODE", "{\"opcode\":\"0x09\"}");
            emit(out, session, fs, 2000000000, 3000000000, 2, "DR=0x1234ABCD", "{\"value\":\"0x1234abcd\"}");
        },
        MockDecoder::Pwm => {
            emit(out, session, fs, 0, 5000000000, 0, "duty=25.0%", "{\"duty_pct\":25.0,\"frequency_hz\":1000.0}");
            emit(out, session, fs, 5000000000, 10000000000, 0, "duty=75.0%",
                "{\"duty_pct\":75.0,\"frequency_hz\":1000.0}");
        },
        MockDecoder::Dmx512 => {
            emit(out, session, fs, 0, 88000000, 0, "BREAK", "{}");
            emit(out, session, fs, 88000000, 96000000, 1, "MAB", "{}");
            emit(out, session, fs, 96000000, 140000000, 2, "Slot 0 = 0x00 (start code)", "{\"slot\":0,\"value\":0}");
            emit(out, session, fs, 140000000, 184000000, 2, "Slot 1 = 0xFF", "{\"slot\":1,\"value\":255}");
            emit(out, session, fs, 184000000, 228000000, 2, "Slot 2 = 0x80", "{\"slot\":2,\"value\":128}");
        },
        MockDecoder::Modbus => {
            emit(out, session, fs, 0, 4000000000, 0, "Read Holding Registers",
                "{\"count\":2,\"function\":3,\"slave\":1,\"start\":1}");
            emit(out, session, fs, 0, 1000000000, 1, "fn=0x03", "{\"function\":3}");
            emit(out, session, fs, 3500000000, 4000000000, 2, "CRC ok", "{\"crc\":\"0xAABB\",\"ok\":true}");
        },
    }
    assert(events_view(out@) =~= e0 + script_events(d, sid, fs));
}


// ── Sessions ─────────────────────────────────────────────────────────

/// The name of the `n`-th session: `s` followed by `n` in decimal.
pub open spec fn session_name(n: nat) -> Seq<char> {
    seq!['s'] + decimal(n)
}

/// Different counters give different session names.
pub proof fn lemma_session_names_distinct(a: nat, b: nat)
    requires
        a != b,
    ensures
        session_name(a) != session_name(b),
{
    if session_name(a) == session_name(b) {
        assert(decimal(a) =~= session_name(a).drop_first());
        assert(decimal(b) =~= session_name(b).drop_first());
        crate::text::lemma_decimal_injective(a, b);
    }
}

/// Records that channel `c.ch` now holds `c.v`.
pub open spec fn set_level(levels: Map<u32, BitValue>, c: ChannelChange) -> Map<u32, BitValue> {
    levels.insert(c.ch, c.v)
}

/// The recorded levels after a transition's changes.
pub open spec fn levels_after(levels: Map<u32, BitValue>, set: Seq<ChannelChange>) -> Map<u32, BitValue>
    decreases set.len(),
{
    if set.len() == 0 {
        levels
    } else {
        set_level(levels_after(levels, set.drop_last()), set.last())
    }
}

/// A session as the contracts see it.
pub struct MockSessionView {
    pub id: Seq<char>,
    pub decoder_id: Seq<char>,
    pub channels: Seq<(Seq<char>, u32)>,
    pub levels: Map<u32, BitValue>,
    pub decoder: MockDecoder,
    pub emitted: bool,
}

/// One transition of a session: record the changes; the first time a
/// scripted session has any level recorded it emits its script at the
/// transition's timestamp.
pub open spec fn step(sv: MockSessionView, tr: SampleTransition) -> (MockSessionView, Seq<AnnotationEventView>) {
    let levels = levels_after(sv.levels, tr.set@);
    if !sv.emitted && !levels.is_empty() && sv.decoder != MockDecoder::Idle {
        (MockSessionView { levels, emitted: true, ..sv }, script_events(sv.decoder, sv.id, tr.fs))
    } else {
        (MockSessionView { levels, ..sv }, seq![])
    }
}

/// A run of transitions, in order, with the annotations they produce.
pub open spec fn run(sv: MockSessionView, trs: Seq<SampleTransition>) -> (MockSessionView, Seq<AnnotationEventView>)
    decreases trs.len(),
{
    if trs.len() == 0 {
        (sv, seq![])
    } else {
        let (s1, e1) = run(sv, trs.drop_last());
        let (s2, e2) = step(s1, trs.last());
        (s2, e1 + e2)
    }
}

/// A session emits its script at most once over its lifetime: once it has
/// emitted, no later transition produces an annotation; and whatever a
/// run of transitions produces is either nothing or the whole script,
/// placed at one timestamp.
pub proof fn lemma_script_emitted_once(sv: MockSessionView, trs: Seq<SampleTransition>)
    ensures
        sv.emitted ==> run(sv, trs).1.len() == 0 && run(sv, trs).0.emitted,
        run(sv, trs).1.len() == 0 || exists|fs: u64| run(sv, trs).1 == script_events(sv.decoder, sv.id, fs),
        run(sv, trs).0.id == sv.id && run(sv, trs).0.decoder == sv.decoder,
        run(sv, trs).0.decoder_id == sv.decoder_id,
    decreases trs.len(),
{
    if trs.len() > 0 {
        lemma_script_emitted_once(sv, trs.drop_last());
        let (s1, e1) = run(sv, trs.drop_last());
        let (s2, e2) = step(s1, trs.last());
        if e1.len() > 0 {
            assert(s1.emitted) by {
                lemma_emits_only_when_flagged(sv, trs.drop_last());
            }
            assert(e2.len() == 0);
            assert(e1 + e2 =~= e1);
        } else {
            assert(e1 + e2 =~= e2);
            if e2.len() > 0 {
                assert(e2 == script_events(sv.decoder, sv.id, trs.last().fs));
            }
        }
    }
}

proof fn lemma_emits_only_when_flagged(sv: MockSessionView, trs: Seq<SampleTransition>)
    ensures
        run(sv, trs).1.len() > 0 ==> run(sv, trs).0.emitted,
        sv.emitted ==> run(sv, trs).0.emitted,
    decreases trs.len(),
{
    if trs.len() > 0 {
        lemma_emits_only_when_flagged(sv, trs.drop_last());
    }
}

/// The script a catalog decoder runs only uses annotation classes its
/// manifest declares.
pub proof fn lemma_script_classes_in_manifest(id: Seq<char>, m: DecoderManifestView)
    requires
        first_manifest(reference_catalog(), id) == Some(m),
    ensures
        forall|k: int| 0 <= k < script(decoder_for(id)).len()
            ==> (#[trigger] script(decoder_for(id))[k]).ann_class < m.annotations.len(),
{
    let cat = reference_catalog();
    assert(cat.drop_first() =~= seq![jtag_view(), pwm_view(), dmx512_view(), modbus_view()]);
    assert(cat.drop_first().drop_first() =~= seq![pwm_view(), dmx512_view(), modbus_view()]);
    assert(cat.drop_first().drop_first().drop_first() =~= seq![dmx512_view(), modbus_view()]);
    assert(cat.drop_first().drop_first().drop_first().drop_first() =~= seq![modbus_view()]);
    assert(cat.drop_first().drop_first().drop_first().drop_first().drop_first() =~= Seq::<DecoderManifestView>::empty());
    reveal_with_fuel(first_manifest, 6);
    if id == "sigrok.onewire"@ {
        assert(m == onewire_view());
    } else if id == "sigrok.jtag"@ {
        assert(m == jtag_view());
    } else if id == "sigrok.pwm"@ {
        assert(m == pwm_view());
    } else if id == "sigrok.dmx512"@ {
        assert(m == dmx512_view());
    } else if id == "sigrok.modbus"@ {
        assert(m == modbus_view());
    } else {
        assert(first_manifest(cat, id) is None);
    }
}

/// Whatever a session emits over a run of transitions uses only the
/// annotation classes of its decoder's manifest.
pub proof fn lemma_emitted_classes_in_manifest(sv: MockSessionView, trs: Seq<SampleTransition>, m: DecoderManifestView)
    requires
        sv.decoder == decoder_for(sv.decoder_id),
        first_manifest(reference_catalog(), sv.decoder_id) == Some(m),
    ensures
        forall|i: int| 0 <= i < run(sv, trs).1.len() ==> (#[trigger] run(sv, trs).1[i]).ann_class < m.annotations.len(),
{
    lemma_script_emitted_once(sv, trs);
    lemma_script_classes_in_manifest(sv.decoder_id, m);
    let evs = run(sv, trs).1;
    if evs.len() > 0 {
        let fs = choose|fs: u64| evs == script_events(sv.decoder, sv.id, fs);
        assert forall|i: int| 0 <= i < evs.len() implies (#[trigger] evs[i]).ann_class < m.annotations.len() by {
            assert(evs[i] == scripted_event(sv.id, fs, script(sv.decoder)[i]));
        }
    }
}

/// Every catalog decoder runs a script of its own that emits something:
/// no catalog entry is left idle, and no two entries share a script.
pub proof fn lemma_catalog_decoders_script()
    ensures
        forall|i: int| 0 <= i < reference_catalog().len()
            ==> #[trigger] decoder_for(reference_catalog()[i].id) != MockDecoder::Idle
                && script(decoder_for(reference_catalog()[i].id)).len() > 0,
        forall|i: int, j: int| 0 <= i < j < reference_catalog().len()
            ==> #[trigger] decoder_for(reference_catalog()[i].id) != #[trigger] decoder_for(reference_catalog()[j].id),
{
    reveal_strlit("sigrok.onewire");
    reveal_strlit("sigrok.jtag");
    reveal_strlit("sigrok.pwm");
    reveal_strlit("sigrok.dmx512");
    reveal_strlit("sigrok.modbus");
    assert("sigrok.dmx512"@[7] != "sigrok.modbus"@[7]);
    assert("sigrok.onewire"@.len() == 14 && "sigrok.jtag"@.len() == 11 && "sigrok.pwm"@.len() == 10);
    assert("sigrok.dmx512"@.len() == 13 && "sigrok.modbus"@.len() == 13);
    let cat = reference_catalog();
    assert(decoder_for(cat[0].id) == MockDecoder::OneWire);
    assert(decoder_for(cat[1].id) == MockDecoder::Jtag);
    assert(decoder_for(cat[2].id) == MockDecoder::Pwm);
    assert(decoder_for(cat[3].id) == MockDecoder::Dmx512);
    assert(decoder_for(cat[4].id) == MockDecoder::Modbus);
}

/// The first transition that records a level on a fresh session of a
/// catalog decoder emits that decoder's whole script, at the transition's
/// timestamp, for the session; later transitions emit nothing more.
pub proof fn lemma_first_edge_emits(sv: MockSessionView, tr: SampleTransition)
    requires
        sv.decoder == decoder_for(sv.decoder_id),
        first_manifest(reference_catalog(), sv.decoder_id) is Some,
        !sv.emitted,
        sv.levels.is_empty(),
        tr.set@.len() > 0,
    ensures
        step(sv, tr).1.len() == script(sv.decoder).len(),
        step(sv, tr).1.len() > 0,
        forall|k: int| 0 <= k < step(sv, tr).1.len() ==> {
            &&& (#[trigger] step(sv, tr).1[k]).session == sv.id
            &&& step(sv, tr).1[k].ann_class == script(sv.decoder)[k].ann_class
            &&& step(sv, tr).1[k].label == script(sv.decoder)[k].label
            &&& step(sv, tr).1[k].start_fs == vstd::wrapping::u64_specs::wrapping_add(tr.fs, script(sv.decoder)[k].start)
        },
        step(sv, tr).0.emitted,
{
    lemma_catalog_decoders_script();
    let cat = reference_catalog();
    reveal_with_fuel(first_manifest, 6);
    let m = first_manifest(cat, sv.decoder_id)->Some_0;
    let i: int = if sv.decoder_id == cat[0].id { 0 } else if sv.decoder_id == cat[1].id { 1 }
        else if sv.decoder_id == cat[2].id { 2 } else if sv.decoder_id == cat[3].id { 3 } else { 4 };
    assert(cat.drop_first() =~= seq![jtag_view(), pwm_view(), dmx512_view(), modbus_view()]);
    assert(cat.drop_first().drop_first() =~= seq![pwm_view(), dmx512_view(), modbus_view()]);
    assert(cat.drop_first().drop_first().drop_first() =~= seq![dmx512_view(), modbus_view()]);
    assert(cat.drop_first().drop_first().drop_first().drop_first() =~= seq![modbus_view()]);
    assert(cat.drop_first().drop_first().drop_first().drop_first().drop_first() =~= Seq::<DecoderManifestView>::empty());
    assert(sv.decoder_id == cat[i].id);
    assert(decoder_for(cat[i].id) != MockDecoder::Idle);
    let set = tr.set@;
    let last = set.last();
    assert(levels_after(sv.levels, set) == set_level(levels_after(sv.levels, set.drop_last()), last));
    assert(levels_after(sv.levels, set).dom().contains(last.ch));
    assert(!levels_after(sv.levels, set).is_empty()) by {
        if levels_after(sv.levels, set).is_empty() {
            assert(levels_after(sv.levels, set).dom() =~= Set::<u32>::empty());
        }
    }
}

/// The transitions of a feed's batches, in order.
pub open spec fn transitions_of(batches: Seq<SampleBatch>) -> Seq<SampleTransition>
    decreases batches.len(),
{
    if batches.len() == 0 {
        seq![]
    } else {
        transitions_of(batches.drop_last()) + batches.last().t@
    }
}

/// The first catalog entry with id `id`.
pub open spec fn first_manifest(cat: Seq<DecoderManifestView>, id: Seq<char>) -> Option<DecoderManifestView>
    decreases cat.len(),
{
    if cat.len() == 0 {
        None
    } else if cat[0].id == id {
        Some(cat[0])
    } else {
        first_manifest(cat.drop_first(), id)
    }
}

proof fn lemma_first_manifest_step(cat: Seq<DecoderManifestView>, k: int, id: Seq<char>)
    requires
        0 <= k < cat.len(),
        cat[k].id != id,
    ensures
        first_manifest(cat.skip(k), id) == first_manifest(cat.skip(k + 1), id),
{
    assert(cat.skip(k).drop_first() =~= cat.skip(k + 1));
    assert(cat.skip(k)[0] == cat[k]);
}

/// Whether `name` is bound in a channel binding.
pub open spec fn is_bound(bindings: Seq<(Seq<char>, u32)>, name: Seq<char>) -> bool {
    exists|i: int| 0 <= i < bindings.len() && (#[trigger] bindings[i]).0 == name
}

/// The first required channel left unbound.
pub open spec fn first_unbound(chs: Seq<DecoderChannelView>, bindings: Seq<(Seq<char>, u32)>) -> Option<Seq<char>>
    decreases chs.len(),
{
    if chs.len() == 0 {
        None
    } else if chs[0].required && !is_bound(bindings, chs[0].name) {
        Some(chs[0].name)
    } else {
        first_unbound(chs.drop_first(), bindings)
    }
}

/// Why a session cannot be created, as the message the backend reports:
/// an unknown decoder, or a required channel that is not bound.
pub open spec fn create_error(decoder_id: Seq<char>, bindings: Seq<(Seq<char>, u32)>) -> Option<Seq<char>> {
    match first_manifest(reference_catalog(), decoder_id) {
        None => Some("unknown decoder "@ + decoder_id),
        Some(m) => match first_unbound(m.channels, bindings) {
            Some(name) => Some("required channel "@ + name + " unbound"@),
            None => None,
        },
    }
}

/// What [`first_unbound`] finds, stated over the bindings' names.
proof fn lemma_first_unbound(chs: Seq<DecoderChannelView>, bindings: Seq<(Seq<char>, u32)>)
    ensures
        first_unbound(chs, bindings) is None <==> forall|k: int| 0 <= k < chs.len() && (#[trigger] chs[k]).required
            ==> exists|j: int| 0 <= j < bindings.len() && (#[trigger] bindings[j]).0 == chs[k].name,
        first_unbound(chs, bindings) matches Some(name) ==> exists|k: int| {
            &&& 0 <= k < chs.len()
            &&& #[trigger] chs[k].required
            &&& chs[k].name == name
            &&& forall|j: int| 0 <= j < bindings.len() ==> (#[trigger] bindings[j]).0 != name
            &&& forall|k2: int| 0 <= k2 < k && (#[trigger] chs[k2]).required
                ==> exists|j: int| 0 <= j < bindings.len() && (#[trigger] bindings[j]).0 == chs[k2].name
        },
    decreases chs.len(),
{
    if chs.len() > 0 {
        let rest = chs.drop_first();
        lemma_first_unbound(rest, bindings);
        assert forall|k: int| 0 < k < chs.len() implies chs[k] == rest[k - 1] by {}
        if chs[0].required && !is_bound(bindings, chs[0].name) {
            assert forall|j: int| 0 <= j < bindings.len() implies (#[trigger] bindings[j]).0 != chs[0].name by {
                if bindings[j].0 == chs[0].name {
                    assert(is_bound(bindings, chs[0].name));
                }
            }
            assert(chs[0].required);
        } else {
            if first_unbound(rest, bindings) is None {
                assert forall|k: int| 0 <= k < chs.len() && (#[trigger] chs[k]).required
                    implies exists|j: int| 0 <= j < bindings.len() && (#[trigger] bindings[j]).0 == chs[k].name by {
                    if k == 0 {
                        let j = choose|j: int| 0 <= j < bindings.len() && (#[trigger] bindings[j]).0 == chs[0].name;
                    } else {
                        assert(rest[k - 1].required);
                    }
                }
            } else {
                let name = first_unbound(rest, bindings)->Some_0;
                let k = choose|k: int| {
                    &&& 0 <= k < rest.len()
                    &&& #[trigger] rest[k].required
                    &&& rest[k].name == name
                    &&& forall|j: int| 0 <= j < bindings.len() ==> (#[trigger] bindings[j]).0 != name
                    &&& forall|k2: int| 0 <= k2 < k && (#[trigger] rest[k2]).required
                        ==> exists|j: int| 0 <= j < bindings.len() && (#[trigger] bindings[j]).0 == rest[k2].name
                };
                assert(chs[k + 1] == rest[k]);
                assert(chs[k + 1].required);
                assert forall|k2: int| 0 <= k2 < k + 1 && (#[trigger] chs[k2]).required
                    implies exists|j: int| 0 <= j < bindings.len() && (#[trigger] bindings[j]).0 == chs[k2].name by {
                    if k2 == 0 {
                        let j = choose|j: int| 0 <= j < bindings.len() && (#[trigger] bindings[j]).0 == chs[0].name;
                    } else {
                        assert(chs[k2] == rest[k2 - 1]);
                        assert(rest[k2 - 1].required);
                    }
                }
                assert(!(forall|k: int| 0 <= k < chs.len() && (#[trigger] chs[k]).required
                    ==> exists|j: int| 0 <= j < bindings.len() && (#[trigger] bindings[j]).0 == chs[k].name)) by {
                    assert(chs[k + 1].required);
                }
            }
        }
    }
}

/// A session for a catalog decoder is refused exactly when one of the
/// decoder's required channels is named by no binding, however many
/// bindings the request carries; the refusal names the first such
/// channel in manifest order. A decoder not in the catalog is refused as
/// unknown.
pub proof fn lemma_refused_iff_required_unbound(decoder_id: Seq<char>, bindings: Seq<(Seq<char>, u32)>)
    ensures
        first_manifest(reference_catalog(), decoder_id) is None
            ==> create_error(decoder_id, bindings) == Some("unknown decoder "@ + decoder_id),
        first_manifest(reference_catalog(), decoder_id) matches Some(m) ==> {
            &&& create_error(decoder_id, bindings) is None <==> forall|k: int|
                0 <= k < m.channels.len() && (#[trigger] m.channels[k]).required
                    ==> exists|j: int| 0 <= j < bindings.len() && (#[trigger] bindings[j]).0 == m.channels[k].name
            &&& create_error(decoder_id, bindings) matches Some(msg) ==> exists|k: int| {
                &&& 0 <= k < m.channels.len()
                &&& #[trigger] m.channels[k].required
                &&& msg == "required channel "@ + m.channels[k].name + " unbound"@
                &&& forall|j: int| 0 <= j < bindings.len() ==> (#[trigger] bindings[j]).0 != m.channels[k].name
                &&& forall|k2: int| 0 <= k2 < k && (#[trigger] m.channels[k2]).required
                    ==> exists|j: int| 0 <= j < bindings.len() && (#[trigger] bindings[j]).0 == m.channels[k2].name
            }
        },
{
    if first_manifest(reference_catalog(), decoder_id) is Some {
        let m = first_manifest(reference_catalog(), decoder_id)->Some_0;
        lemma_first_unbound(m.channels, bindings);
    }
}

/// `e` is how the backend refuses a session for `decoder_id` with
/// `bindings`: an unknown decoder as such, a required channel left
/// unbound as a failure of no particular kind, each with the message of
/// [`create_error`].
pub open spec fn refused_as(decoder_id: Seq<char>, bindings: Seq<(Seq<char>, u32)>, e: BackendError) -> bool {
    &&& create_error(decoder_id, bindings) == Some(error_text(e))
    &&& if first_manifest(reference_catalog(), decoder_id) is None {
        e is UnknownDecoder
    } else {
        e is Failed
    }
}

/// Position of the first session with id `id`, or -1.
pub open spec fn session_pos(ss: Seq<MockSessionView>, id: Seq<char>) -> int
    decreases ss.len(),
{
    if ss.len() == 0 {
        -1
    } else if ss[0].id == id {
        0
    } else {
        let p = session_pos(ss.drop_first(), id);
        if p < 0 { -1 } else { p + 1 }
    }
}

/// No two sessions share an id.
pub open spec fn ids_distinct(ss: Seq<MockSessionView>) -> bool {
    forall|i: int, j: int| 0 <= i < j < ss.len() ==> (#[trigger] ss[i]).id != (#[trigger] ss[j]).id
}

/// Every session runs the script its decoder id selects.
pub open spec fn scripts_match(ss: Seq<MockSessionView>) -> bool {
    forall|i: int| 0 <= i < ss.len() ==> (#[trigger] ss[i]).decoder == decoder_for(ss[i].decoder_id)
}

/// Every session is named after a counter value in `1..next`.
pub open spec fn named_below(ss: Seq<MockSessionView>, next: u64) -> bool {
    forall|i: int| 0 <= i < ss.len() ==> exists|k: nat| 1 <= k < next && (#[trigger] ss[i]).id == session_name(k)
}

/// Once a session is destroyed, its id no longer names a session.
pub proof fn lemma_destroyed_session_forgotten(ss: Seq<MockSessionView>, id: Seq<char>)
    requires
        ids_distinct(ss),
        session_pos(ss, id) >= 0,
    ensures
        session_pos(ss.remove(session_pos(ss, id)), id) < 0,
{
    let p = session_pos(ss, id);
    lemma_session_pos_finds(ss, id);
    let r = ss.remove(p);
    if session_pos(r, id) >= 0 {
        lemma_session_pos_finds(r, id);
        let q = session_pos(r, id);
        if q < p {
            assert(r[q] == ss[q]);
        } else {
            assert(r[q] == ss[q + 1]);
        }
    }
}

/// A non-negative session position is that of a session with the id, and
/// no earlier session has it.
pub proof fn lemma_session_pos_finds(ss: Seq<MockSessionView>, id: Seq<char>)
    ensures
        session_pos(ss, id) < ss.len(),
        session_pos(ss, id) >= 0 ==> ss[session_pos(ss, id)].id == id,
        session_pos(ss, id) < 0 ==> forall|i: int| 0 <= i < ss.len() ==> (#[trigger] ss[i]).id != id,
    decreases ss.len(),
{
    if ss.len() > 0 && ss[0].id != id {
        lemma_session_pos_finds(ss.drop_first(), id);
        if session_pos(ss, id) < 0 {
            assert forall|i: int| 0 <= i < ss.len() implies (#[trigger] ss[i]).id != id by {
                if i > 0 {
                    assert(ss[i] == ss.drop_first()[i - 1]);
                }
            }
        }
    }
}

struct MockSession {
    id: String,
    decoder_id: String,
    channels: Vec<(String, u32)>,
    levels: HashMap<u32, BitValue>,
    decoder: MockDecoder,
    emitted: bool,
}

impl View for MockSession {
    type V = MockSessionView;

    closed spec fn view(&self) -> MockSessionView {
        MockSessionView {
            id: self.id@,
            decoder_id: self.decoder_id@,
            channels: bindings_view(self.channels@),
            levels: self.levels@,
            decoder: self.decoder,
            emitted: self.emitted,
        }
    }
}

fn step_exec(sess: &mut MockSession, tr: &SampleTransition, out: &mut Vec<AnnotationEvent>)
    ensures
        final(sess)@ == step(old(sess)@, *tr).0,
        events_view(final(out)@) == events_view(old(out)@) + step(old(sess)@, *tr).1,
{
    let ghost l0 = sess.levels@;
    let mut i: usize = 0;
    while i < tr.set.len()
        invariant
            i <= tr.set@.len(),
            sess.levels@ == levels_after(l0, tr.set@.take(i as int)),
            sess.id == old(sess).id,
            sess.decoder_id == old(sess).decoder_id,
            sess.channels == old(sess).channels,
            sess.decoder == old(sess).decoder,
            sess.emitted == old(sess).emitted,
        decreases tr.set@.len() - i,
    {
        let c = tr.set[i];
        sess.levels.insert(c.ch, c.v);
        assert(tr.set@.take(i + 1 as int).drop_last() =~= tr.set@.take(i as int));
        i = i + 1;
    }
    assert(tr.set@.take(tr.set@.len() as int) =~= tr.set@);
    if !sess.emitted && !sess.levels.is_empty() && sess.decoder != MockDecoder::Idle {
        sess.emitted = true;
        emit_script(out, sess.decoder, &sess.id, tr.fs);
    } else {
        assert(events_view(out@) =~= events_view(old(out)@) + seq![]);
    }
}

fn decoder_of(id: &String) -> (d: MockDecoder)
    ensures
        d == decoder_for(id@),
{
    if *id == owned("sigrok.onewire") {
        MockDecoder::OneWire
    } else if *id == owned("sigrok.jtag") {
        MockDecoder::Jtag
    } else if *id == owned("sigrok.pwm") {
        MockDecoder::Pwm
    } else if *id == owned("sigrok.dmx512") {
        MockDecoder::Dmx512
    } else if *id == owned("sigrok.modbus") {
        MockDecoder::Modbus
    } else {
        MockDecoder::Idle
    }
}

fn bound(bindings: &Vec<(String, u32)>, name: &String) -> (b: bool)
    ensures
        b == is_bound(bindings_view(bindings@), name@),
{
    let ghost bv = bindings_view(bindings@);
    let mut i: usize = 0;
    while i < bindings.len()
        invariant
            i <= bindings@.len(),
            bv == bindings_view(bindings@),
            forall|k: int| 0 <= k < i ==> (#[trigger] bv[k]).0 != name@,
        decreases bindings@.len() - i,
    {
        if bindings[i].0 == *name {
            assert(bv[i as int].0 == name@);
            return true;
        }
        i = i + 1;
    }
    false
}

/// Checks a session request against the catalog: `None` when it can be
/// opened, else why not.
fn check_create(body: &CreateSessionBody) -> (r: Option<BackendError>)
    ensures
        match r {
            None => create_error(body.decoder_id@, bindings_view(body.channels@)) is None,
            Some(e) => refused_as(body.decoder_id@, bindings_view(body.channels@), e),
        },
{
    let manifests = reference_decoder_manifests();
    let ghost cat = manifests_view(manifests@);
    let ghost id = body.decoder_id@;
    assert(cat.skip(0) =~= cat);
    let mut k: usize = 0;
    while k < manifests.len()
        invariant
            k <= manifests@.len(),
            cat == reference_catalog(),
            id == body.decoder_id@,
            cat == manifests_view(manifests@),
            first_manifest(cat, id) == first_manifest(cat.skip(k as int), id),
        decreases manifests@.len() - k,
    {
        assert(cat.len() == manifests@.len());
        assert(cat[k as int] == manifests@[k as int]@);
        assert(cat.skip(k as int)[0] == manifests@[k as int]@);
        if manifests[k].id == body.decoder_id {
            let m = &manifests[k];
            let ghost chs = m@.channels;
            assert(chs.skip(0) =~= chs);
            assert(first_manifest(cat, id) == Some(m@));
            let mut j: usize = 0;
            while j < m.channels.len()
                invariant
                    j <= m.channels@.len(),
                    chs == m.channels@.map_values(|c: DecoderChannel| c@),
                    cat == reference_catalog(),
                    first_manifest(cat, id) == Some(m@),
                    id == body.decoder_id@,
                    first_unbound(chs, bindings_view(body.channels@)) == first_unbound(chs.skip(j as int), bindings_view(body.channels@)),
                decreases m.channels@.len() - j,
            {
                let c = &m.channels[j];
                assert(chs.skip(j as int)[0] == c@);
                assert(chs.skip(j as int).drop_first() =~= chs.skip(j + 1 as int));
                if c.required && !bound(&body.channels, &c.name) {
                    let mut msg = owned("required channel ");
                    msg.append(c.name.as_str());
                    msg.append(" unbound");
                    return Some(BackendError::Failed(msg));
                }
                j = j + 1;
            }
            assert(chs.skip(j as int) =~= Seq::<DecoderChannelView>::empty());
            return None;
        }
        proof {
            lemma_first_manifest_step(cat, k as int, id);
        }
        k = k + 1;
    }
    assert(cat.skip(k as int) =~= Seq::<DecoderManifestView>::empty());
    let mut msg = owned("unknown decoder ");
    msg.append(body.decoder_id.as_str());
    Some(BackendError::UnknownDecoder(msg))
}

/// A session request the catalog refuses is answered, with no
/// annotation and no session opened, by an error carrying the refusal's
/// message: `unknown_decoder` for a decoder not in the catalog,
/// `session_init_failed` for a required channel left unbound.
pub proof fn lemma_refused_session_reply(
    before: MockBackend,
    id: u64,
    body: CreateSessionBody,
    after: MockBackend,
    resp: Response,
    events: Seq<AnnotationEventView>,
)
    requires
        create_error(body.decoder_id@, bindings_view(body.channels@)) is Some,
        handled(before, Request { id, op: RequestOp::CreateSession(body) }, after, resp, events),
    ensures
        resp.id == id,
        events.len() == 0,
        after.sessions() == before.sessions(),
        resp.status matches ResponseStatus::Failed { code, message }
            && Some(message@) == create_error(body.decoder_id@, bindings_view(body.channels@))
            && code == (if first_manifest(reference_catalog(), body.decoder_id@) is None {
                ErrCode::UnknownDecoder
            } else {
                ErrCode::SessionInitFailed
            }),
{
    let res = choose|res: Result<SessionId, BackendError>|
        #[trigger] before.created(body, after, res) && replies(id, Outcome::Created(res), resp, events);
    assert(res is Err);
}

/// The mock decoding backend: open sessions and the counter that names
/// the next one.
pub struct MockBackend {
    sessions: Vec<MockSession>,
    next_session: u64,
}

impl MockBackend {
    /// The open sessions, oldest first.
    pub closed spec fn sessions(&self) -> Seq<MockSessionView> {
        self.sessions@.map_values(|s: MockSession| s@)
    }

    /// The counter the next session is named after.
    pub closed spec fn next_session(&self) -> u64 {
        self.next_session
    }

    /// Every session has its own id, named after a counter value the
    /// backend has already handed out, and runs the script of its
    /// decoder id.
    pub closed spec fn well_numbered(&self) -> bool {
        &&& self.next_session >= 1
        &&& ids_distinct(self.sessions())
        &&& named_below(self.sessions(), self.next_session)
        &&& scripts_match(self.sessions())
    }

    /// A backend with no sessions; the first one is named `s1`.
    pub fn new() -> (b: Self)
        ensures
            b.sessions() == Seq::<MockSessionView>::empty(),
            b.next_session() == 1,
            b.well_numbered(),
    {
        let b = Self { sessions: Vec::new(), next_session: 1 };
        assert(b.sessions() =~= Seq::<MockSessionView>::empty());
        b
    }

    fn find(&self, id: &String) -> (r: Option<usize>)
        ensures
            match r {
                None => session_pos(self.sessions(), id@) < 0,
                Some(i) => session_pos(self.sessions(), id@) == i && i < self.sessions().len(),
            },
    {
        let ghost ss = self.sessions();
        assert(ss.skip(0) =~= ss);
        let mut i: usize = 0;
        while i < self.sessions.len()
            invariant
                i <= self.sessions@.len(),
                ss == self.sessions(),
                session_pos(ss, id@) == (if session_pos(ss.skip(i as int), id@) < 0 { -1 } else { session_pos(ss.skip(i as int), id@) + i }),
            decreases self.sessions@.len() - i,
        {
            assert(ss.skip(i as int)[0] == self.sessions@[i as int]@);
            if self.sessions[i].id == *id {
                return Some(i);
            }
            assert(ss.skip(i as int).drop_first() =~= ss.skip(i + 1 as int));
            i = i + 1;
        }
        assert(ss.skip(i as int) =~= Seq::<MockSessionView>::empty());
        None
    }
}

/// The active decoder backend: the mock, with no session open.
pub fn current_backend() -> (b: MockBackend)
    ensures
        b.sessions() == Seq::<MockSessionView>::empty(),
        b.next_session() == 1,
        b.well_numbered(),
{
    MockBackend::new()
}

impl Backend for MockBackend {
    /// Listing gives the five reference decoders.
    open spec fn listed(&self, r: Result<Vec<DecoderManifest>, BackendError>) -> bool {
        r is Ok && manifests_view(r->Ok_0@) == reference_catalog()
    }

    /// A catalog decoder whose required channels are all bound gets a
    /// session named after the counter, which moves on; a refused
    /// request, or one arriving when the counter is exhausted, changes
    /// nothing.
    open spec fn created(&self, body: CreateSessionBody, after: Self, r: Result<String, BackendError>) -> bool {
        &&& self.well_numbered() ==> after.well_numbered()
        &&& match create_error(body.decoder_id@, bindings_view(body.channels@)) {
            Some(msg) => r matches Err(e) && refused_as(body.decoder_id@, bindings_view(body.channels@), e)
                && after.sessions() == self.sessions()
                && after.next_session() == self.next_session(),
            None => if self.next_session() == u64::MAX {
                r matches Err(BackendError::Failed(m)) && m@ == "session ids exhausted"@
                    && after.sessions() == self.sessions()
                    && after.next_session() == self.next_session()
            } else {
                &&& r is Ok
                &&& r->Ok_0@ == session_name(self.next_session() as nat)
                &&& after.next_session() == self.next_session() + 1
                &&& after.sessions() == self.sessions().push(MockSessionView {
                    id: session_name(self.next_session() as nat),
                    decoder_id: body.decoder_id@,
                    channels: bindings_view(body.channels@),
                    levels: Map::empty(),
                    decoder: decoder_for(body.decoder_id@),
                    emitted: false,
                })
            },
        }
    }

    /// The named session runs the feed's transitions in order and
    /// reports the annotations its script emitted; an unknown session
    /// is refused as such.
    open spec fn fed(&self, body: FeedBody, after: Self, r: Result<Vec<AnnotationEvent>, BackendError>) -> bool {
        &&& self.well_numbered() ==> after.well_numbered()
        &&& after.next_session() == self.next_session()
        &&& {
            let p = session_pos(self.sessions(), body.session@);
            if p < 0 {
                r matches Err(BackendError::UnknownSession(m)) && m@ == "unknown session"@
                    && after.sessions() == self.sessions()
            } else {
                let (sv, evs) = run(self.sessions()[p], transitions_of(body.samples@));
                &&& r is Ok
                &&& events_view(r->Ok_0@) == evs
                &&& after.sessions() == self.sessions().update(p, sv)
            }
        }
    }

    /// The scripts keep nothing pending: an open session finalizes with
    /// no annotation; an unknown session is refused as such.
    open spec fn finalized(&self, session: String, after: Self, r: Result<Vec<AnnotationEvent>, BackendError>) -> bool {
        &&& self.well_numbered() ==> after.well_numbered()
        &&& session_pos(self.sessions(), session@) < 0 ==> (r matches Err(BackendError::UnknownSession(m))
            && m@ == "unknown session"@)
        &&& session_pos(self.sessions(), session@) >= 0 ==> r is Ok && r->Ok_0@.len() == 0
        &&& after.sessions() == self.sessions()
        &&& after.next_session() == self.next_session()
    }

    /// The named session is released if it is open; destroying always
    /// succeeds.
    open spec fn destroyed(&self, session: String, after: Self, r: Result<(), BackendError>) -> bool {
        &&& self.well_numbered() ==> after.well_numbered()
        &&& r is Ok
        &&& {
            let p = session_pos(self.sessions(), session@);
            after.sessions() == if p < 0 { self.sessions() } else { self.sessions().remove(p) }
        }
        &&& after.next_session() == self.next_session()
    }

    /// The five reference decoders.
    fn list_decoders(&self) -> (r: Result<Vec<DecoderManifest>, BackendError>) {
        Ok(reference_decoder_manifests())
    }

    /// Opens a session for a catalog decoder whose required channels are
    /// all bound; the session is named after the counter, which moves on.
    fn create_session(&mut self, body: CreateSessionBody) -> (r: Result<String, BackendError>) {
        if let Some(e) = check_create(&body) {
            return Err(e);
        }
        if self.next_session == u64::MAX {
            return Err(BackendError::Failed(owned("session ids exhausted")));
        }
        let mut id = owned("s");
        proof {
            reveal_strlit("s");
        }
        push_decimal(&mut id, self.next_session);
        assert(id@ =~= session_name(self.next_session as nat));
        self.next_session = self.next_session + 1;
        let decoder = decoder_of(&body.decoder_id);
        let sess = MockSession {
            id: id.clone(),
            decoder_id: body.decoder_id,
            channels: body.channels,
            levels: HashMap::new(),
            decoder,
            emitted: false,
        };
        self.sessions.push(sess);
        assert(self.sessions() =~= old(self).sessions().push(sess@));
        proof {
            if old(self).well_numbered() {
                let ss0 = old(self).sessions();
                let n0 = old(self).next_session();
                let ss1 = self.sessions();
                assert forall|i: int| 0 <= i < ss0.len() implies (#[trigger] ss0[i]).id != session_name(n0 as nat) by {
                    let k = choose|k: nat| 1 <= k < n0 && ss0[i].id == session_name(k);
                    lemma_session_names_distinct(k, n0 as nat);
                }
                assert forall|i: int, j: int| 0 <= i < j < ss1.len() implies (#[trigger] ss1[i]).id != (#[trigger] ss1[j]).id by {
                    if j == ss0.len() {
                        assert(ss1[i] == ss0[i]);
                        assert(ss0[i].id != session_name(n0 as nat));
                    } else {
                        assert(ss1[i] == ss0[i]);
                        assert(ss1[j] == ss0[j]);
                    }
                }
                assert forall|i: int| 0 <= i < ss1.len() implies (#[trigger] ss1[i]).decoder == decoder_for(ss1[i].decoder_id) by {
                    if i < ss0.len() {
                        assert(ss1[i] == ss0[i]);
                    }
                }
                assert forall|i: int| 0 <= i < ss1.len() implies exists|k: nat| 1 <= k < self.next_session && (#[trigger] ss1[i]).id == session_name(k) by {
                    if i == ss0.len() {
                        assert(ss1[i].id == session_name(n0 as nat));
                    } else {
                        assert(ss1[i] == ss0[i]);
                        let k = choose|k: nat| 1 <= k < n0 && ss0[i].id == session_name(k);
                        assert(1 <= k < self.next_session && ss1[i].id == session_name(k));
                    }
                }
            }
        }
        Ok(id)
    }

    /// Forwards samples to the named session and returns the annotations
    /// its script emitted, each tagged with the session id.
    fn feed(&mut self, body: FeedBody) -> (r: Result<Vec<AnnotationEvent>, BackendError>) {
        let idx = match self.find(&body.session) {
            None => return Err(BackendError::UnknownSession(owned("unknown session"))),
            Some(i) => i,
        };
        let ghost ss0 = self.sessions();
        let ghost sv0 = ss0[idx as int];
        let mut sess = self.sessions.remove(idx);
        assert(sess@ == sv0);
        let mut out: Vec<AnnotationEvent> = Vec::new();
        let mut b: usize = 0;
        while b < body.samples.len()
            invariant
                b <= body.samples@.len(),
                (sess@, events_view(out@)) == run(sv0, transitions_of(body.samples@.take(b as int))),
            decreases body.samples@.len() - b,
        {
            let batch = &body.samples[b];
            let ghost before = transitions_of(body.samples@.take(b as int));
            let mut t: usize = 0;
            while t < batch.t.len()
                invariant
                    t <= batch.t@.len(),
                    batch == body.samples@[b as int],
                    (sess@, events_view(out@)) == run(sv0, before + batch.t@.take(t as int)),
                decreases batch.t@.len() - t,
            {
                let ghost trs = before + batch.t@.take(t as int);
                let ghost ev0 = events_view(out@);
                step_exec(&mut sess, &batch.t[t], &mut out);
                assert((before + batch.t@.take(t + 1 as int)).drop_last() =~= trs);
                assert((before + batch.t@.take(t + 1 as int)).last() == batch.t@[t as int]);
                t = t + 1;
            }
            assert(body.samples@.take(b + 1 as int).drop_last() =~= body.samples@.take(b as int));
            assert(batch.t@.take(batch.t@.len() as int) =~= batch.t@);
            b = b + 1;
        }
        assert(body.samples@.take(body.samples@.len() as int) =~= body.samples@);
        self.sessions.insert(idx, sess);
        assert(self.sessions() =~= ss0.update(idx as int, sess@));
        proof {
            lemma_script_emitted_once(sv0, transitions_of(body.samples@));
            if old(self).well_numbered() {
                let ss1 = self.sessions();
                assert(ss1[idx as int].id == ss0[idx as int].id);
                assert forall|i: int, j: int| 0 <= i < j < ss1.len() implies (#[trigger] ss1[i]).id != (#[trigger] ss1[j]).id by {
                    assert(ss1[i].id == ss0[i].id);
                    assert(ss1[j].id == ss0[j].id);
                }
                assert forall|i: int| 0 <= i < ss1.len() implies (#[trigger] ss1[i]).decoder == decoder_for(ss1[i].decoder_id) by {
                    assert(ss1[i].decoder == ss0[i].decoder && ss1[i].decoder_id == ss0[i].decoder_id);
                }
                assert forall|i: int| 0 <= i < ss1.len() implies exists|k: nat| 1 <= k < self.next_session && (#[trigger] ss1[i]).id == session_name(k) by {
                    assert(ss1[i].id == ss0[i].id);
                    let k = choose|k: nat| 1 <= k < self.next_session && ss0[i].id == session_name(k);
                }
            }
        }
        Ok(out)
    }

    /// Tells the named session that no more samples are coming. The
    /// scripts keep nothing pending, so no annotation follows.
    fn finalize(&mut self, session_id: &String) -> (r: Result<Vec<AnnotationEvent>, BackendError>) {
        match self.find(session_id) {
            None => Err(BackendError::UnknownSession(owned("unknown session"))),
            Some(_) => Ok(Vec::new()),
        }
    }

    /// Releases the named session, if it is open.
    fn destroy(&mut self, session_id: &String) -> (r: Result<(), BackendError>) {
        match self.find(session_id) {
            None => {},
            Some(i) => {
                let ghost ss0 = self.sessions();
                let _ = self.sessions.remove(i);
                assert(self.sessions() =~= ss0.remove(i as int));
            },
        }
        Ok(())
    }
}

} // verus!
