//! The logic around the real decoding engine that does not touch it:
//! how decoder ids map to the engine's protocol names, how the engine's
//! option types map to option kinds, and how its annotations (in sample
//! numbers) become IPC annotation events (in femtoseconds).

use vstd::prelude::*;
use crate::replay::FS_PER_SAMPLE;
use crate::schema::{AnnotationEvent, AnnotationEventView, OptionKind, SessionId};
use crate::text::owned;

verus! {

/// The prefix of every bridged decoder id.
pub open spec fn id_prefix() -> Seq<char> {
    "sigrok."@
}

/// The decoder id for an engine protocol name: `sigrok.<protocol>`.
pub fn decoder_id_for(protocol: &String) -> (id: String)
    ensures
        id@ == id_prefix() + protocol@,
{
    let mut id = owned("sigrok.");
    id.append(protocol.as_str());
    id
}

/// The engine protocol name in a decoder id, when the id has the form
/// `sigrok.<protocol>`.
pub open spec fn protocol_of_spec(id: Seq<char>) -> Option<Seq<char>> {
    if id.len() >= 7 && id.subrange(0, 7) == id_prefix() {
        Some(id.skip(7))
    } else {
        None
    }
}

/// The engine protocol name in a decoder id.
pub fn protocol_of(id: &String) -> (p: Option<String>)
    ensures
        match protocol_of_spec(id@) {
            Some(q) => p matches Some(s) && s@ == q,
            None => p is None,
        },
{
    proof {
        reveal_strlit("sigrok.");
    }
    let t = id.as_str();
    let n = t.unicode_len();
    if n < 7 {
        return None;
    }
    let head = String::from_str(t.substring_char(0, 7));
    if head == owned("sigrok.") {
        let rest = String::from_str(t.substring_char(7, n));
        assert(rest@ =~= id@.skip(7));
        Some(rest)
    } else {
        None
    }
}

/// The protocol name of the id built for a protocol is that protocol.
pub proof fn lemma_protocol_of_decoder_id(protocol: Seq<char>)
    ensures
        protocol_of_spec(id_prefix() + protocol) == Some(protocol),
{
    reveal_strlit("sigrok.");
    let id = id_prefix() + protocol;
    assert(id.subrange(0, 7) =~= id_prefix());
    assert(id.skip(7) =~= protocol);
}

/// The display name of an engine decoder: its long name, or its short
/// name when the long one is empty.
pub fn display_name_for(longname: String, name: String) -> (d: String)
    ensures
        d@ == if longname@.len() == 0 { name@ } else { longname@ },
{
    if longname.as_str().is_empty() {
        name
    } else {
        longname
    }
}

/// The option kind for an engine option whose default value has type
/// string `ts`: a string is an enumeration when it has choices, the
/// integer types are integers, `d` a float, `b` a boolean, and anything
/// else (or no default) free text.
pub open spec fn kind_for_type(ts: Option<Seq<char>>, has_choices: bool) -> OptionKind {
    match ts {
        Some(t) => if t == seq!['s'] {
            if has_choices { OptionKind::Enum } else { OptionKind::String }
        } else if t == seq!['x'] || t == seq!['i'] || t == seq!['t'] || t == seq!['u'] || t == seq!['n']
            || t == seq!['q'] || t == seq!['y'] {
            OptionKind::Int
        } else if t == seq!['d'] {
            OptionKind::Float
        } else if t == seq!['b'] {
            OptionKind::Bool
        } else {
            OptionKind::String
        },
        None => OptionKind::String,
    }
}

/// Maps an engine option's default-value type to an option kind.
pub fn option_kind(ts: Option<&str>, has_choices: bool) -> (k: OptionKind)
    ensures
        k == kind_for_type(
            match ts {
                Some(t) => Some(t@),
                None => None,
            },
            has_choices,
        ),
{
    let t = match ts {
        None => return OptionKind::String,
        Some(t) => t,
    };
    if t.unicode_len() != 1 {
        return OptionKind::String;
    }
    let c = t.get_char(0);
    assert(t@ =~= seq![c]);
    if c == 's' {
        if has_choices { OptionKind::Enum } else { OptionKind::String }
    } else if c == 'x' || c == 'i' || c == 't' || c == 'u' || c == 'n' || c == 'q' || c == 'y' {
        OptionKind::Int
    } else if c == 'd' {
        OptionKind::Float
    } else if c == 'b' {
        OptionKind::Bool
    } else {
        OptionKind::String
    }
}

/// An annotation class index reported by the engine; a negative class
/// counts as class 0.
pub fn class_index(c: i32) -> (r: u32)
    ensures
        r == if c < 0 { 0 } else { c as int },
{
    if c < 0 {
        0
    } else {
        c as u32
    }
}

/// A sample number in femtoseconds, saturating at the end of the `u64`
/// range.
pub open spec fn sample_to_fs_spec(n: u64) -> u64 {
    if n * FS_PER_SAMPLE <= u64::MAX { (n * FS_PER_SAMPLE) as u64 } else { u64::MAX }
}

/// Converts a sample number to femtoseconds.
pub fn sample_to_fs(n: u64) -> (fs: u64)
    ensures
        fs == sample_to_fs_spec(n),
{
    match n.checked_mul(FS_PER_SAMPLE) {
        Some(v) => v,
        None => u64::MAX,
    }
}

/// One annotation captured from the engine, in its sample-number domain.
pub struct RawAnnotation {
    pub start_sample: u64,
    pub end_sample: u64,
    pub ann_class: u32,
    pub text: String,
}

/// The IPC event for a captured annotation of `session`: timestamps in
/// femtoseconds, no structured fields, not flagged as an error.
pub fn annotation_from_raw(raw: RawAnnotation, session: &SessionId) -> (e: AnnotationEvent)
    ensures
        e@ == (AnnotationEventView {
            session: session@,
            start_fs: sample_to_fs_spec(raw.start_sample),
            end_fs: sample_to_fs_spec(raw.end_sample),
            ann_class: raw.ann_class,
            label: raw.text@,
            fields: "{}"@,
            is_error: false,
        }),
{
    AnnotationEvent {
        session: session.clone(),
        start_fs: sample_to_fs(raw.start_sample),
        end_fs: sample_to_fs(raw.end_sample),
        ann_class: raw.ann_class,
        label: raw.text,
        fields: owned("{}"),
        is_error: false,
    }
}


/// Fails every engine operation once the engine could not be
/// initialized.
pub fn require_init(initialized: bool) -> (r: Result<(), String>)
    ensures
        initialized ==> r is Ok,
        !initialized ==> (r matches Err(m) && m@ == "libsigrokdecode failed to initialize (see stderr log)"@),
{
    if !initialized {
        return Err(owned("libsigrokdecode failed to initialize (see stderr log)"));
    }
    Ok(())
}

} // verus!
