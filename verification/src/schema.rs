//! Wire-format types for the IPC protocol.
//!
//! Three top-level message kinds flow over the pipe, each one frame:
//!
//!   * [`Request`] — shim → bridge (synchronous; the bridge replies with
//!     a [`Response`] carrying the same `id`);
//!   * [`Response`] — bridge → shim (status and body, or an error);
//!   * [`Event`] — bridge → shim (unsolicited, for streaming annotations
//!     between blocking calls).
//!
//! [`Message`] is the union both ends decode to.  Free-form JSON that
//! the logic only carries through (decoder option overrides, the
//! structured fields of an annotation) is held as its compact JSON text.

use vstd::prelude::*;

verus! {

/// Top-level message envelope.
#[derive(Debug)]
pub enum Message {
    Request(Request),
    Response(Response),
    Event(Event),
}

// ── Requests (shim → bridge) ─────────────────────────────────────────

/// A request from the shim to the bridge subprocess. The bridge's
/// response echoes the same `id`; `id` 0 is the shutdown sentinel.
#[derive(Debug)]
pub struct Request {
    pub id: u64,
    pub op: RequestOp,
}

/// The operations the shim can ask the bridge to perform.
#[derive(Debug)]
pub enum RequestOp {
    /// Returns the manifest of every protocol decoder the bridge hosts.
    ListDecoders,
    /// Creates a decoder session; the reply carries its session id.
    CreateSession(CreateSessionBody),
    /// Feeds a batch of samples to one session.
    Feed(FeedBody),
    /// Flushes pending state at end-of-stream.
    Finalize(FinalizeBody),
    /// Releases a session.
    Destroy(DestroyBody),
    /// Asks the subprocess to shut down.
    Shutdown,
}

/// Opaque session identifier, allocated by the bridge.
pub type SessionId = String;

#[derive(Debug)]
pub struct CreateSessionBody {
    /// Decoder id, in the form `sigrok.<protocol>`.
    pub decoder_id: String,
    /// Decoder channel name → zero-based channel index in the sample
    /// frames. Required channels missing here are an error; optional
    /// channels missing here are unused. On the wire this is a JSON
    /// object, so no name occurs twice; a list that repeats a name is
    /// still accepted, every pair counting: a channel is bound when any
    /// pair names it, and the frame is wide enough for every index.
    pub channels: Vec<(String, u32)>,
    /// Decoder option overrides, as the compact JSON text of an object
    /// (`{}` when there are none).
    pub options: String,
    /// Policy for indeterminate (X/Z) samples.
    pub xz_policy: XzPolicy,
}

#[derive(Clone, Copy, Debug, PartialEq, Eq, Structural)]
pub enum XzPolicy {
    /// Emit a `glitch` annotation and skip the sample (the default).
    Glitch,
    /// Coerce an indeterminate bit to its previous determinate value.
    CoerceLast,
}

impl Default for XzPolicy {
    fn default() -> (p: Self)
        ensures
            p == XzPolicy::Glitch,
    {
        XzPolicy::Glitch
    }
}

#[derive(Debug)]
pub struct FeedBody {
    pub session: SessionId,
    /// Per-channel transitions in this batch.
    pub samples: Vec<SampleBatch>,
}

#[derive(Debug)]
pub struct FinalizeBody {
    pub session: SessionId,
}

#[derive(Debug)]
pub struct DestroyBody {
    pub session: SessionId,
}

/// Transitions in time order.
#[derive(Debug)]
pub struct SampleBatch {
    pub t: Vec<SampleTransition>,
}

#[derive(Debug)]
pub struct SampleTransition {
    /// Femtoseconds since the session origin.
    pub fs: u64,
    /// Channels that changed at this timestamp; the others keep their
    /// previous level.
    pub set: Vec<ChannelChange>,
}

/// One channel moving to a new bit value.
#[derive(Clone, Copy, Debug, PartialEq, Eq, Structural)]
pub struct ChannelChange {
    pub ch: u32,
    pub v: BitValue,
}

#[derive(Clone, Copy, Debug, PartialEq, Eq, Structural)]
pub enum BitValue {
    Zero,
    One,
    /// Indeterminate (X or Z).
    X,
}

// ── Responses (bridge → shim) ────────────────────────────────────────

#[derive(Debug)]
pub struct Response {
    pub id: u64,
    pub status: ResponseStatus,
}

#[derive(Debug)]
pub enum ResponseStatus {
    /// `status: "ok"` on the wire.
    Succeeded { body: Option<ResponseBody> },
    /// `status: "err"` on the wire.
    Failed { code: ErrCode, message: String },
}

#[derive(Debug)]
pub enum ResponseBody {
    Decoders(Vec<DecoderManifest>),
    SessionCreated { session: SessionId },
    Empty,
}

#[derive(Clone, Copy, Debug, PartialEq, Eq, Structural)]
pub enum ErrCode {
    /// The decoder id was not found in the bridge's catalog.
    UnknownDecoder,
    /// The session id was not found.
    UnknownSession,
    /// The bridge could not build the requested session.
    SessionInitFailed,
    /// The decoder rejected a sample.
    DecoderFailed,
    /// The bridge entered an unrecoverable internal state.
    Internal,
    /// The request parsed but was semantically invalid.
    BadRequest,
}

// ── Events (bridge → shim, unsolicited) ──────────────────────────────

#[derive(Debug)]
pub enum Event {
    /// One decoded annotation.
    Annotation(AnnotationEvent),
    /// A non-fatal anomaly.
    Log(LogEvent),
}

#[derive(Debug)]
pub struct AnnotationEvent {
    pub session: SessionId,
    /// Femtoseconds on the WaveCrux timeline.
    pub start_fs: u64,
    pub end_fs: u64,
    /// Index in the decoder manifest's `annotations` list.
    pub ann_class: u32,
    /// Short user-facing label.
    pub label: String,
    /// Structured fields, as the compact JSON text of an object.
    pub fields: String,
    /// Whether the decoder flagged a protocol violation.
    pub is_error: bool,
}

#[derive(Debug)]
pub struct LogEvent {
    pub session: Option<SessionId>,
    pub level: LogLevel,
    pub message: String,
}

#[derive(Clone, Copy, Debug, PartialEq, Eq, Structural)]
pub enum LogLevel {
    Debug,
    Info,
    Warn,
    Error,
}

// ── Decoder manifest (returned by ListDecoders) ──────────────────────

/// One entry in the bridge's decoder catalog.
#[derive(Debug)]
pub struct DecoderManifest {
    /// Decoder id, in the form `sigrok.<protocol>`.
    pub id: String,
    /// Short user-facing name.
    pub display_name: String,
    /// One-paragraph description.
    pub description: String,
    /// Channels the decoder needs.
    pub channels: Vec<DecoderChannel>,
    /// Configurable options.
    pub options: Vec<DecoderOption>,
    /// Annotation classes; the index is the event's `ann_class`.
    pub annotations: Vec<DecoderAnnotationClass>,
    /// Free-form tags.
    pub tags: Vec<String>,
}

#[derive(Debug)]
pub struct DecoderChannel {
    /// Decoder-internal short name.
    pub name: String,
    /// User-facing description.
    pub description: String,
    /// Whether the channel must be bound.
    pub required: bool,
}

#[derive(Debug)]
pub struct DecoderOption {
    pub name: String,
    pub description: String,
    pub kind: OptionKind,
    pub default: OptionValue,
    /// Discrete choices; empty for free-form options.
    pub choices: Vec<OptionValue>,
}

/// A JSON value in an option's default or choices. Strings, booleans
/// and `null` are held as such; a number is held by its JSON text, and
/// an array or object by its compact JSON text.
#[derive(Debug)]
pub enum OptionValue {
    Null,
    Bool(bool),
    Number(String),
    Str(String),
    Compound(String),
}

#[derive(Clone, Copy, Debug, PartialEq, Eq, Structural)]
pub enum OptionKind {
    String,
    Int,
    Float,
    Bool,
    Enum,
}

#[derive(Debug)]
pub struct DecoderAnnotationClass {
    /// Stable short id.
    pub id: String,
    /// User-facing description.
    pub description: String,
}


// ── Mathematical models ──────────────────────────────────────────────

/// A channel binding as names and indices.
pub open spec fn bindings_view(channels: Seq<(String, u32)>) -> Seq<(Seq<char>, u32)> {
    channels.map_values(|p: (String, u32)| (p.0@, p.1))
}

/// The views of a list of strings.
pub open spec fn strings_view(v: Seq<String>) -> Seq<Seq<char>> {
    v.map_values(|s: String| s@)
}

pub struct DecoderChannelView {
    pub name: Seq<char>,
    pub description: Seq<char>,
    pub required: bool,
}

impl View for DecoderChannel {
    type V = DecoderChannelView;

    open spec fn view(&self) -> DecoderChannelView {
        DecoderChannelView { name: self.name@, description: self.description@, required: self.required }
    }
}

pub struct DecoderAnnotationClassView {
    pub id: Seq<char>,
    pub description: Seq<char>,
}

impl View for DecoderAnnotationClass {
    type V = DecoderAnnotationClassView;

    open spec fn view(&self) -> DecoderAnnotationClassView {
        DecoderAnnotationClassView { id: self.id@, description: self.description@ }
    }
}

pub enum OptionValueView {
    Null,
    Bool(bool),
    Number(Seq<char>),
    Str(Seq<char>),
    Compound(Seq<char>),
}

impl View for OptionValue {
    type V = OptionValueView;

    open spec fn view(&self) -> OptionValueView {
        match self {
            OptionValue::Null => OptionValueView::Null,
            OptionValue::Bool(b) => OptionValueView::Bool(*b),
            OptionValue::Number(t) => OptionValueView::Number(t@),
            OptionValue::Str(t) => OptionValueView::Str(t@),
            OptionValue::Compound(t) => OptionValueView::Compound(t@),
        }
    }
}

#[verifier::ext_equal]
pub struct DecoderOptionView {
    pub name: Seq<char>,
    pub description: Seq<char>,
    pub kind: OptionKind,
    pub default: OptionValueView,
    pub choices: Seq<OptionValueView>,
}

impl View for DecoderOption {
    type V = DecoderOptionView;

    open spec fn view(&self) -> DecoderOptionView {
        DecoderOptionView {
            name: self.name@,
            description: self.description@,
            kind: self.kind,
            default: self.default@,
            choices: self.choices@.map_values(|v: OptionValue| v@),
        }
    }
}

#[verifier::ext_equal]
pub struct DecoderManifestView {
    pub id: Seq<char>,
    pub display_name: Seq<char>,
    pub description: Seq<char>,
    pub channels: Seq<DecoderChannelView>,
    pub options: Seq<DecoderOptionView>,
    pub annotations: Seq<DecoderAnnotationClassView>,
    pub tags: Seq<Seq<char>>,
}

impl View for DecoderManifest {
    type V = DecoderManifestView;

    open spec fn view(&self) -> DecoderManifestView {
        DecoderManifestView {
            id: self.id@,
            display_name: self.display_name@,
            description: self.description@,
            channels: self.channels@.map_values(|c: DecoderChannel| c@),
            options: self.options@.map_values(|o: DecoderOption| o@),
            annotations: self.annotations@.map_values(|a: DecoderAnnotationClass| a@),
            tags: strings_view(self.tags@),
        }
    }
}

#[verifier::ext_equal]
pub struct AnnotationEventView {
    pub session: Seq<char>,
    pub start_fs: u64,
    pub end_fs: u64,
    pub ann_class: u32,
    pub label: Seq<char>,
    pub fields: Seq<char>,
    pub is_error: bool,
}

impl View for AnnotationEvent {
    type V = AnnotationEventView;

    open spec fn view(&self) -> AnnotationEventView {
        AnnotationEventView {
            session: self.session@,
            start_fs: self.start_fs,
            end_fs: self.end_fs,
            ann_class: self.ann_class,
            label: self.label@,
            fields: self.fields@,
            is_error: self.is_error,
        }
    }
}

/// The views of a list of annotation events.
pub open spec fn events_view(v: Seq<AnnotationEvent>) -> Seq<AnnotationEventView> {
    v.map_values(|e: AnnotationEvent| e@)
}

/// The views of a list of decoder manifests.
pub open spec fn manifests_view(v: Seq<DecoderManifest>) -> Seq<DecoderManifestView> {
    v.map_values(|m: DecoderManifest| m@)
}

} // verus!
