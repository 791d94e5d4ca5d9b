//! Builds, from a decoder manifest of the IPC layer, the shape
//! WaveCrux's decoder loader reads: required channels under `signals`,
//! optional ones under `optional_signals`, options as `parameters` with
//! WaveCrux's kind names and the labels of their choices, and the GPL
//! notice appended to the description so that it shows in the decoder
//! picker.  Serializing the result to JSON is left to the caller.

use vstd::prelude::*;
use crate::schema::{
    DecoderAnnotationClass, DecoderAnnotationClassView, DecoderChannel, DecoderChannelView,
    DecoderManifest, DecoderManifestView, DecoderOption, DecoderOptionView, OptionKind, OptionValue,
    OptionValueView, strings_view,
};
use crate::text::owned;

verus! {

/// The notice appended to every bridged decoder's description.
pub open spec fn gpl_notice() -> Seq<char> {
    "\n\nProvided by libsigrokdecode (GPLv3+) via the WaveCrux SigRok bridge plugin. https://sigrok.org"@
}

/// One channel as a WaveCrux signal (always one bit wide).
pub struct Signal {
    pub name: String,
    pub description: String,
    pub bit_width: u32,
}

/// One option as a WaveCrux parameter.
pub struct Parameter {
    pub name: String,
    pub description: String,
    /// WaveCrux's kind name: `boolean`, `integer`, `enumeration` or
    /// `string` (WaveCrux has no float kind; floats are typed as text).
    pub kind: String,
    pub default: OptionValue,
    pub choices: Vec<OptionValue>,
    /// The labels WaveCrux shows for the choices.
    pub enum_values: Vec<String>,
}

/// The WaveCrux-side manifest of one bridged decoder.
pub struct WaveCruxManifest {
    pub id: String,
    pub display_name: String,
    pub description: String,
    pub category: String,
    pub license: String,
    pub source: String,
    pub signals: Vec<Signal>,
    pub optional_signals: Vec<Signal>,
    pub parameters: Vec<Parameter>,
    pub annotations: Vec<DecoderAnnotationClass>,
    pub tags: Vec<String>,
}

pub struct SignalView {
    pub name: Seq<char>,
    pub description: Seq<char>,
    pub bit_width: u32,
}

impl View for Signal {
    type V = SignalView;

    open spec fn view(&self) -> SignalView {
        SignalView { name: self.name@, description: self.description@, bit_width: self.bit_width }
    }
}

#[verifier::ext_equal]
pub struct ParameterView {
    pub name: Seq<char>,
    pub description: Seq<char>,
    pub kind: Seq<char>,
    pub default: OptionValueView,
    pub choices: Seq<OptionValueView>,
    pub enum_values: Seq<Seq<char>>,
}

impl View for Parameter {
    type V = ParameterView;

    open spec fn view(&self) -> ParameterView {
        ParameterView {
            name: self.name@,
            description: self.description@,
            kind: self.kind@,
            default: self.default@,
            choices: self.choices@.map_values(|v: OptionValue| v@),
            enum_values: strings_view(self.enum_values@),
        }
    }
}

#[verifier::ext_equal]
pub struct WaveCruxManifestView {
    pub id: Seq<char>,
    pub display_name: Seq<char>,
    pub description: Seq<char>,
    pub category: Seq<char>,
    pub license: Seq<char>,
    pub source: Seq<char>,
    pub signals: Seq<SignalView>,
    pub optional_signals: Seq<SignalView>,
    pub parameters: Seq<ParameterView>,
    pub annotations: Seq<DecoderAnnotationClassView>,
    pub tags: Seq<Seq<char>>,
}

impl View for WaveCruxManifest {
    type V = WaveCruxManifestView;

    open spec fn view(&self) -> WaveCruxManifestView {
        WaveCruxManifestView {
            id: self.id@,
            display_name: self.display_name@,
            description: self.description@,
            category: self.category@,
            license: self.license@,
            source: self.source@,
            signals: self.signals@.map_values(|s: Signal| s@),
            optional_signals: self.optional_signals@.map_values(|s: Signal| s@),
            parameters: self.parameters@.map_values(|p: Parameter| p@),
            annotations: self.annotations@.map_values(|a: DecoderAnnotationClass| a@),
            tags: strings_view(self.tags@),
        }
    }
}

/// The channels with the given `required` flag, as signals, in order.
pub open spec fn signals_of(chs: Seq<DecoderChannelView>, required: bool) -> Seq<SignalView>
    decreases chs.len(),
{
    if chs.len() == 0 {
        seq![]
    } else {
        let rest = signals_of(chs.drop_last(), required);
        let c = chs.last();
        if c.required == required {
            rest.push(SignalView { name: c.name, description: c.description, bit_width: 1 })
        } else {
            rest
        }
    }
}

/// Every channel becomes exactly one signal: the required ones under
/// `signals`, the optional ones under `optional_signals`.
pub proof fn lemma_signals_partition_channels(chs: Seq<DecoderChannelView>)
    ensures
        signals_of(chs, true).len() + signals_of(chs, false).len() == chs.len(),
    decreases chs.len(),
{
    if chs.len() > 0 {
        lemma_signals_partition_channels(chs.drop_last());
    }
}

/// The signals for one requiredness are that kind of channel, each as a
/// one-bit signal with its name and description, kept in manifest order:
/// the `k`-th signal is the `k`-th such channel. Every such channel is
/// there, and nothing else is.
pub proof fn lemma_signals_in_manifest_order(chs: Seq<DecoderChannelView>, required: bool)
    ensures
        signals_of(chs, required) == chs.filter_map(
            |c: DecoderChannelView|
                if c.required == required {
                    Some(SignalView { name: c.name, description: c.description, bit_width: 1 })
                } else {
                    None
                },
        ),
        forall|i: int| 0 <= i < chs.len() && (#[trigger] chs[i]).required == required
            ==> signals_of(chs, required).contains(
                SignalView { name: chs[i].name, description: chs[i].description, bit_width: 1 },
            ),
    decreases chs.len(),
{
    if chs.len() > 0 {
        let rest = chs.drop_last();
        lemma_signals_in_manifest_order(rest, required);
        let r0 = signals_of(rest, required);
        let r = signals_of(chs, required);
        assert forall|i: int| 0 <= i < chs.len() && (#[trigger] chs[i]).required == required
            implies r.contains(SignalView { name: chs[i].name, description: chs[i].description, bit_width: 1 }) by {
            let sv = SignalView { name: chs[i].name, description: chs[i].description, bit_width: 1 };
            if i < chs.len() - 1 {
                assert(chs[i] == rest[i]);
                assert(r0.contains(sv));
                let k = choose|k: int| 0 <= k < r0.len() && r0[k] == sv;
                assert(r[k] == sv);
            } else {
                assert(r[r.len() - 1] == sv);
            }
        }
        if chs.last().required == required {
            assert(r =~= r0.push(SignalView { name: chs.last().name, description: chs.last().description, bit_width: 1 }));
        }
    }
}

/// WaveCrux's name for an option kind.
pub open spec fn kind_name(k: OptionKind) -> Seq<char> {
    match k {
        OptionKind::Bool => "boolean"@,
        OptionKind::Int => "integer"@,
        OptionKind::Float => "string"@,
        OptionKind::Enum => "enumeration"@,
        OptionKind::String => "string"@,
    }
}

/// The label of a choice: a string as itself, anything else as its JSON
/// text.
pub open spec fn choice_label(v: OptionValueView) -> Seq<char> {
    match v {
        OptionValueView::Null => "null"@,
        OptionValueView::Bool(b) => if b { "true"@ } else { "false"@ },
        OptionValueView::Number(t) => t,
        OptionValueView::Str(s) => s,
        OptionValueView::Compound(t) => t,
    }
}

/// An option as a WaveCrux parameter.
pub open spec fn parameter_of(o: DecoderOptionView) -> ParameterView {
    ParameterView {
        name: o.name,
        description: o.description,
        kind: kind_name(o.kind),
        default: o.default,
        choices: o.choices,
        enum_values: o.choices.map_values(|v: OptionValueView| choice_label(v)),
    }
}

/// The WaveCrux-side manifest of decoder `m`.
pub open spec fn wavecrux_manifest_spec(m: DecoderManifestView) -> WaveCruxManifestView {
    WaveCruxManifestView {
        id: m.id,
        display_name: m.display_name,
        description: m.description + gpl_notice(),
        category: "user"@,
        license: "GPL-3.0-or-later"@,
        source: "sigrok"@,
        signals: signals_of(m.channels, true),
        optional_signals: signals_of(m.channels, false),
        parameters: m.options.map_values(|o: DecoderOptionView| parameter_of(o)),
        annotations: m.annotations,
        tags: m.tags,
    }
}

fn copy_value(v: &OptionValue) -> (r: OptionValue)
    ensures
        r@ == v@,
{
    match v {
        OptionValue::Null => OptionValue::Null,
        OptionValue::Bool(b) => OptionValue::Bool(*b),
        OptionValue::Number(t) => OptionValue::Number(t.clone()),
        OptionValue::Str(t) => OptionValue::Str(t.clone()),
        OptionValue::Compound(t) => OptionValue::Compound(t.clone()),
    }
}

fn label_of(v: &OptionValue) -> (r: String)
    ensures
        r@ == choice_label(v@),
{
    match v {
        OptionValue::Null => owned("null"),
        OptionValue::Bool(b) => if *b { owned("true") } else { owned("false") },
        OptionValue::Number(t) => t.clone(),
        OptionValue::Str(t) => t.clone(),
        OptionValue::Compound(t) => t.clone(),
    }
}

fn kind_str(k: OptionKind) -> (s: &'static str)
    ensures
        s@ == kind_name(k),
{
    match k {
        OptionKind::Bool => "boolean",
        OptionKind::Int => "integer",
        OptionKind::Float => "string",
        OptionKind::Enum => "enumeration",
        OptionKind::String => "string",
    }
}

fn parameter(o: &DecoderOption) -> (p: Parameter)
    ensures
        p@ == parameter_of(o@),
{
    let mut choices: Vec<OptionValue> = Vec::new();
    let mut enum_values: Vec<String> = Vec::new();
    let ghost cv = o.choices@.map_values(|v: OptionValue| v@);
    let mut i: usize = 0;
    while i < o.choices.len()
        invariant
            i <= o.choices@.len(),
            cv == o.choices@.map_values(|v: OptionValue| v@),
            choices@.map_values(|v: OptionValue| v@) == cv.take(i as int),
            strings_view(enum_values@) == cv.take(i as int).map_values(|v: OptionValueView| choice_label(v)),
        decreases o.choices@.len() - i,
    {
        let v = &o.choices[i];
        let ghost c0 = choices@;
        let ghost e0 = enum_values@;
        let cv_i = copy_value(v);
        let lbl = label_of(v);
        choices.push(cv_i);
        enum_values.push(lbl);
        assert(cv[i as int] == v@);
        assert(cv.take(i + 1 as int) =~= cv.take(i as int).push(v@));
        assert(choices@.map_values(|v: OptionValue| v@) =~= c0.map_values(|v: OptionValue| v@).push(v@));
        assert(choices@.map_values(|v: OptionValue| v@) =~= cv.take(i + 1 as int));
        assert(strings_view(enum_values@) =~= strings_view(e0).push(choice_label(v@)));
        assert(cv.take(i + 1 as int).map_values(|v: OptionValueView| choice_label(v))
            =~= cv.take(i as int).map_values(|v: OptionValueView| choice_label(v)).push(choice_label(v@)));
        i = i + 1;
    }
    assert(cv.take(o.choices@.len() as int) =~= cv);
    let p = Parameter {
        name: o.name.clone(),
        description: o.description.clone(),
        kind: owned(kind_str(o.kind)),
        default: copy_value(&o.default),
        choices,
        enum_values,
    };
    assert(p@ =~= parameter_of(o@));
    p
}

fn signals(chs: &Vec<DecoderChannel>, required: bool) -> (r: Vec<Signal>)
    ensures
        r@.map_values(|s: Signal| s@) == signals_of(chs@.map_values(|c: DecoderChannel| c@), required),
{
    let ghost cv = chs@.map_values(|c: DecoderChannel| c@);
    let mut out: Vec<Signal> = Vec::new();
    let mut i: usize = 0;
    assert(out@.map_values(|s: Signal| s@) =~= signals_of(cv.take(0), required));
    while i < chs.len()
        invariant
            i <= chs@.len(),
            cv == chs@.map_values(|c: DecoderChannel| c@),
            out@.map_values(|s: Signal| s@) == signals_of(cv.take(i as int), required),
        decreases chs@.len() - i,
    {
        let c = &chs[i];
        assert(cv.take(i + 1 as int).drop_last() =~= cv.take(i as int));
        assert(cv.take(i + 1 as int).last() == c@);
        if c.required == required {
            let ghost o0 = out@;
            let s = Signal { name: c.name.clone(), description: c.description.clone(), bit_width: 1 };
            out.push(s);
            assert(out@.map_values(|s: Signal| s@) =~= o0.map_values(|s: Signal| s@).push(s@));
        }
        i = i + 1;
    }
    assert(cv.take(chs@.len() as int) =~= cv);
    out
}

/// Builds the WaveCrux-side manifest for one bridged decoder.
pub fn wavecrux_manifest(m: &DecoderManifest) -> (w: WaveCruxManifest)
    ensures
        w@ == wavecrux_manifest_spec(m@),
{
    let mut description = m.description.clone();
    description.append("\n\nProvided by libsigrokdecode (GPLv3+) via the WaveCrux SigRok bridge plugin. https://sigrok.org");
    let ghost ov = m.options@.map_values(|o: DecoderOption| o@);
    let mut parameters: Vec<Parameter> = Vec::new();
    let mut i: usize = 0;
    while i < m.options.len()
        invariant
            i <= m.options@.len(),
            ov == m.options@.map_values(|o: DecoderOption| o@),
            parameters@.map_values(|p: Parameter| p@) == ov.take(i as int).map_values(|o: DecoderOptionView| parameter_of(o)),
        decreases m.options@.len() - i,
    {
        let ghost p0 = parameters@;
        let p = parameter(&m.options[i]);
        let ghost pv = p@;
        parameters.push(p);
        assert(ov[i as int] == m.options@[i as int]@);
        assert(parameters@.map_values(|p: Parameter| p@) =~= p0.map_values(|p: Parameter| p@).push(pv));
        assert(ov.take(i + 1 as int).map_values(|o: DecoderOptionView| parameter_of(o))
            =~= ov.take(i as int).map_values(|o: DecoderOptionView| parameter_of(o)).push(parameter_of(ov[i as int])));
        assert(parameters@.map_values(|p: Parameter| p@) =~= ov.take(i + 1 as int).map_values(|o: DecoderOptionView| parameter_of(o)));
        i = i + 1;
    }
    assert(ov.take(m.options@.len() as int) =~= ov);
    let mut annotations: Vec<DecoderAnnotationClass> = Vec::new();
    let mut j: usize = 0;
    while j < m.annotations.len()
        invariant
            j <= m.annotations@.len(),
            annotations@.map_values(|a: DecoderAnnotationClass| a@)
                == m.annotations@.map_values(|a: DecoderAnnotationClass| a@).take(j as int),
        decreases m.annotations@.len() - j,
    {
        let a = &m.annotations[j];
        let ghost a0 = annotations@;
        let na = DecoderAnnotationClass { id: a.id.clone(), description: a.description.clone() };
        annotations.push(na);
        assert(annotations@.map_values(|a: DecoderAnnotationClass| a@) =~= a0.map_values(|a: DecoderAnnotationClass| a@).push(a@));
        assert(m.annotations@.map_values(|a: DecoderAnnotationClass| a@)[j as int] == a@);
        assert(annotations@.map_values(|a: DecoderAnnotationClass| a@)
            =~= m.annotations@.map_values(|a: DecoderAnnotationClass| a@).take(j + 1 as int));
        j = j + 1;
    }
    assert(m.annotations@.map_values(|a: DecoderAnnotationClass| a@).take(m.annotations@.len() as int)
        =~= m.annotations@.map_values(|a: DecoderAnnotationClass| a@));
    let mut tags: Vec<String> = Vec::new();
    let mut k: usize = 0;
    while k < m.tags.len()
        invariant
            k <= m.tags@.len(),
            strings_view(tags@) == strings_view(m.tags@).take(k as int),
        decreases m.tags@.len() - k,
    {
        let ghost t0 = tags@;
        tags.push(m.tags[k].clone());
        assert(strings_view(tags@) =~= strings_view(t0).push(m.tags@[k as int]@));
        assert(strings_view(m.tags@)[k as int] == m.tags@[k as int]@);
        assert(strings_view(tags@) =~= strings_view(m.tags@).take(k + 1 as int));
        k = k + 1;
    }
    assert(strings_view(m.tags@).take(m.tags@.len() as int) =~= strings_view(m.tags@));
    let w = WaveCruxManifest {
        id: m.id.clone(),
        display_name: m.display_name.clone(),
        description,
        category: owned("user"),
        license: owned("GPL-3.0-or-later"),
        source: owned("sigrok"),
        signals: signals(&m.channels, true),
        optional_signals: signals(&m.channels, false),
        parameters,
        annotations,
        tags,
    };
    assert(w@ =~= wavecrux_manifest_spec(m@));
    w
}

} // verus!
