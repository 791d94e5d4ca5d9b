//! The shim's per-instance bookkeeping: turning the loader's packed
//! samples into transitions, holding annotations until the loader takes
//! them, binding a configured instance to the bridge's channels, and
//! reading the bridge's replies.

use vstd::prelude::*;
use std::collections::VecDeque;
use crate::schema::{
    AnnotationEvent, AnnotationEventView, BitValue, ChannelChange, CreateSessionBody,
    DecoderChannel, DecoderChannelView, DecoderManifest, DecoderManifestView, ErrCode, Event,
    Response, ResponseBody, ResponseStatus, SampleTransition, SessionId, XzPolicy, bindings_view,
    events_view, manifests_view, strings_view,
};
use crate::supervisor::SupervisorError;
use crate::text::owned;

verus! {

/// One sample from the WaveCrux loader: `bit_width` channels packed as
/// two-bit pairs, four to a byte starting at the least significant bits;
/// in each pair the low bit is the level and the high bit flags an
/// unknown (X/Z) value.
pub struct WcSample {
    pub timestamp_fs: u64,
    /// The packed pairs (`ceil(2 * bit_width / 8)` bytes).
    pub bits: Vec<u8>,
    pub bit_width: u32,
}

/// The value of pair `k` (0..4) of byte `b`.
pub open spec fn pair_value(b: u8, k: nat) -> BitValue {
    if (b >> ((2 * k + 1) as u8)) & 1u8 == 1u8 {
        BitValue::X
    } else if (b >> ((2 * k) as u8)) & 1u8 == 1u8 {
        BitValue::One
    } else {
        BitValue::Zero
    }
}

/// The bytes that hold a sample's pairs: at most `ceil(2 * bit_width / 8)`
/// of them.
pub open spec fn sample_bytes(s: WcSample) -> Seq<u8> {
    let need = (s.bit_width as nat + 3) / 4;
    if s.bits@.len() <= need { s.bits@ } else { s.bits@.take(need as int) }
}

/// The number of channels a sample carries: its width, as far as its
/// bytes reach.
pub open spec fn sample_channels(s: WcSample) -> nat {
    let avail = 4 * sample_bytes(s).len();
    if (s.bit_width as nat) < avail { s.bit_width as nat } else { avail }
}

/// Turns one loader sample into a transition naming every channel it
/// carries, with its value.
pub fn sample_to_transition(s: &WcSample) -> (t: SampleTransition)
    ensures
        t.fs == s.timestamp_fs,
        t.set@.len() == sample_channels(*s),
        forall|i: int| 0 <= i < t.set@.len() ==> #[trigger] t.set@[i] == (ChannelChange {
            ch: i as u32,
            v: pair_value(sample_bytes(*s)[i / 4], (i % 4) as nat),
        }),
{
    let need: u64 = (s.bit_width as u64 + 3) / 4;
    let n_bytes: usize = if (s.bits.len() as u64) <= need { s.bits.len() } else { need as usize };
    assert(sample_bytes(*s) =~= s.bits@.take(n_bytes as int));
    let mut set: Vec<ChannelChange> = Vec::new();
    let mut ch: u32 = 0;
    while ch < s.bit_width
        invariant
            ch <= s.bit_width,
            n_bytes == sample_bytes(*s).len(),
            n_bytes <= s.bits@.len(),
            sample_bytes(*s) =~= s.bits@.take(n_bytes as int),
            set@.len() == ch,
            (ch as nat) <= sample_channels(*s),
            forall|i: int| 0 <= i < set@.len() ==> #[trigger] set@[i] == (ChannelChange {
                ch: i as u32,
                v: pair_value(sample_bytes(*s)[i / 4], (i % 4) as nat),
            }),
        ensures
            set@.len() == sample_channels(*s),
            forall|i: int| 0 <= i < set@.len() ==> #[trigger] set@[i] == (ChannelChange {
                ch: i as u32,
                v: pair_value(sample_bytes(*s)[i / 4], (i % 4) as nat),
            }),
        decreases s.bit_width - ch,
    {
        let byte = (ch / 4) as usize;
        if byte >= n_bytes {
            break;
        }
        let lo: u8 = ((ch % 4) * 2) as u8;
        let b = s.bits[byte];
        let level = (b >> lo) & 1u8;
        let unknown = (b >> (lo + 1)) & 1u8;
        let v = if unknown == 1 {
            BitValue::X
        } else if level == 1 {
            BitValue::One
        } else {
            BitValue::Zero
        };
        assert(v == pair_value(sample_bytes(*s)[ch as int / 4], (ch as int % 4) as nat));
        set.push(ChannelChange { ch, v });
        ch = ch + 1;
    }
    SampleTransition { fs: s.timestamp_fs, set }
}


// ── Errors ───────────────────────────────────────────────────────────

/// Failures registering decoders or creating instances.
#[derive(Debug)]
pub enum RegistryError {
    /// The bridge subprocess cannot be started; the plugin contributes
    /// no decoders.
    SubprocessUnavailable(String),
    /// The bridge subprocess answered with an error.
    Subprocess(String),
    /// Anything else.
    Internal(String),
}

/// Failures feeding or flushing an instance.
#[derive(Debug)]
pub enum FeedError {
    /// The instance is in a failed state.
    Failed,
    /// The loader must retry with this many slots.
    NeedsMoreSlots(usize),
    /// Talking to the bridge failed.
    Supervisor(SupervisorError),
    /// Anything else.
    Internal(String),
}

// ── Transactions handed to the loader ────────────────────────────────

/// Whether `s` contains a NUL character (which a C string cannot hold).
pub open spec fn has_nul(s: Seq<char>) -> bool {
    exists|i: int| 0 <= i < s.len() && s[i] == '\0'
}

fn contains_nul(s: &String) -> (b: bool)
    ensures
        b == has_nul(s@),
{
    let t = s.as_str();
    let n = t.unicode_len();
    let mut i: usize = 0;
    while i < n
        invariant
            i <= n,
            n == t@.len(),
            t@ == s@,
            forall|k: int| 0 <= k < i ==> t@[k] != '\0',
        decreases n - i,
    {
        if t.get_char(i) == '\0' {
            return true;
        }
        i = i + 1;
    }
    false
}

/// An annotation as the loader receives it, with C-string-safe texts.
pub struct OwnedTransaction {
    pub label: String,
    pub fields_json: String,
    pub start_fs: u64,
    pub end_fs: u64,
    pub is_error: bool,
}

pub struct TransactionView {
    pub label: Seq<char>,
    pub fields_json: Seq<char>,
    pub start_fs: u64,
    pub end_fs: u64,
    pub is_error: bool,
}

impl View for OwnedTransaction {
    type V = TransactionView;

    open spec fn view(&self) -> TransactionView {
        TransactionView {
            label: self.label@,
            fields_json: self.fields_json@,
            start_fs: self.start_fs,
            end_fs: self.end_fs,
            is_error: self.is_error,
        }
    }
}

/// The transaction for an annotation: a label holding a NUL becomes
/// empty, fields holding one become `{}`.
pub open spec fn transaction_of(a: AnnotationEventView) -> TransactionView {
    TransactionView {
        label: if has_nul(a.label) { Seq::empty() } else { a.label },
        fields_json: if has_nul(a.fields) { "{}"@ } else { a.fields },
        start_fs: a.start_fs,
        end_fs: a.end_fs,
        is_error: a.is_error,
    }
}

impl OwnedTransaction {
    /// The transaction for annotation `a`.
    pub fn from_annotation(a: &AnnotationEvent) -> (t: Self)
        ensures
            t@ == transaction_of(a@),
    {
        let label = if contains_nul(&a.label) { String::new() } else { a.label.clone() };
        let fields_json = if contains_nul(&a.fields) { owned("{}") } else { a.fields.clone() };
        OwnedTransaction { label, fields_json, start_fs: a.start_fs, end_fs: a.end_fs, is_error: a.is_error }
    }
}

/// The annotation events for `session`, in order.
pub open spec fn annotations_for(session: Seq<char>, evs: Seq<Event>) -> Seq<AnnotationEventView>
    decreases evs.len(),
{
    if evs.len() == 0 {
        seq![]
    } else {
        let rest = annotations_for(session, evs.drop_last());
        match evs.last() {
            Event::Annotation(a) => if a.session@ == session { rest.push(a@) } else { rest },
            Event::Log(_) => rest,
        }
    }
}

/// The session's annotations are exactly the events that are annotations
/// addressed to it, in the order they came: every one of them is kept,
/// whatever else it carries (its error flag, class, label, fields or
/// times), and no other event is.
pub proof fn lemma_annotations_for_session(session: Seq<char>, evs: Seq<Event>)
    ensures
        annotations_for(session, evs) == evs.filter_map(
            |e: Event|
                match e {
                    Event::Annotation(a) => if a.session@ == session { Some(a@) } else { None },
                    Event::Log(_) => None,
                },
        ),
        forall|i: int| 0 <= i < evs.len() ==> match #[trigger] evs[i] {
            Event::Annotation(a) => a.session@ == session ==> annotations_for(session, evs).contains(a@),
            Event::Log(_) => true,
        },
        forall|k: int| 0 <= k < annotations_for(session, evs).len()
            ==> (#[trigger] annotations_for(session, evs)[k]).session == session,
    decreases evs.len(),
{
    if evs.len() > 0 {
        let rest = evs.drop_last();
        lemma_annotations_for_session(session, rest);
        let r0 = annotations_for(session, rest);
        let r = annotations_for(session, evs);
        assert forall|i: int| 0 <= i < evs.len() implies match #[trigger] evs[i] {
            Event::Annotation(a) => a.session@ == session ==> r.contains(a@),
            Event::Log(_) => true,
        } by {
            if i < evs.len() - 1 {
                assert(evs[i] == rest[i]);
                match evs[i] {
                    Event::Annotation(a) => {
                        if a.session@ == session {
                            assert(r0.contains(a@));
                            let k = choose|k: int| 0 <= k < r0.len() && r0[k] == a@;
                            assert(r[k] == a@);
                        }
                    },
                    Event::Log(_) => {},
                }
            } else {
                match evs[i] {
                    Event::Annotation(a) => {
                        if a.session@ == session {
                            assert(r[r.len() - 1] == a@);
                        }
                    },
                    Event::Log(_) => {},
                }
            }
        }
        assert forall|k: int| 0 <= k < r.len() implies (#[trigger] r[k]).session == session by {
            if k < r0.len() {
                assert(r[k] == r0[k]);
            }
        }
    }
}

/// Annotations the bridge delivered between blocking calls that the
/// loader has not taken yet.
pub struct Inbox {
    queue: VecDeque<OwnedTransaction>,
}

impl Inbox {
    /// The pending transactions, oldest first.
    pub closed spec fn pending(&self) -> Seq<TransactionView> {
        self.queue@.map_values(|t: OwnedTransaction| t@)
    }

    /// An empty inbox.
    pub fn new() -> (b: Self)
        ensures
            b.pending() == Seq::<TransactionView>::empty(),
    {
        let b = Inbox { queue: VecDeque::new() };
        assert(b.pending() =~= Seq::<TransactionView>::empty());
        b
    }

    /// Number of pending transactions.
    pub fn len(&self) -> (n: usize)
        ensures
            n == self.pending().len(),
    {
        self.queue.len()
    }

    /// Queues the annotations among `evs` that belong to `session`;
    /// other sessions' annotations and log events are dropped.
    pub fn deliver(&mut self, session: &SessionId, evs: &Vec<Event>)
        ensures
            final(self).pending() == old(self).pending()
                + annotations_for(session@, evs@).map_values(|a: AnnotationEventView| transaction_of(a)),
    {
        let ghost p0 = self.pending();
        let mut i: usize = 0;
        while i < evs.len()
            invariant
                i <= evs@.len(),
                self.pending() == p0 + annotations_for(session@, evs@.take(i as int)).map_values(
                    |a: AnnotationEventView| transaction_of(a),
                ),
            decreases evs@.len() - i,
        {
            let ghost before = self.pending();
            assert(evs@.take(i + 1 as int).drop_last() =~= evs@.take(i as int));
            assert(evs@.take(i + 1 as int).last() == evs@[i as int]);
            match &evs[i] {
                Event::Annotation(a) => {
                    if a.session == *session {
                        let t = OwnedTransaction::from_annotation(a);
                        self.queue.push_back(t);
                        assert(self.pending() =~= before.push(t@));
                    }
                },
                Event::Log(_) => {},
            }
            assert(self.pending() =~= p0 + annotations_for(session@, evs@.take(i + 1 as int)).map_values(
                |a: AnnotationEventView| transaction_of(a),
            ));
            i = i + 1;
        }
        assert(evs@.take(evs@.len() as int) =~= evs@);
    }

    /// Hands every pending transaction to the loader when it provided at
    /// least that many slots; otherwise reports how many it needs and
    /// keeps them.
    pub fn take_up_to(&mut self, max: usize) -> (r: Result<Vec<OwnedTransaction>, FeedError>)
        ensures
            old(self).pending().len() > max ==> (r matches Err(FeedError::NeedsMoreSlots(n))
                && n == old(self).pending().len() && final(self).pending() == old(self).pending()),
            old(self).pending().len() <= max ==> (r matches Ok(v)
                && v@.map_values(|t: OwnedTransaction| t@) == old(self).pending()
                && final(self).pending() == Seq::<TransactionView>::empty()),
    {
        if self.queue.len() > max {
            return Err(FeedError::NeedsMoreSlots(self.queue.len()));
        }
        let ghost q0 = self.queue@;
        let mut out: Vec<OwnedTransaction> = Vec::new();
        while self.queue.len() > 0
            invariant
                out@ + self.queue@ == q0,
            decreases self.queue@.len(),
        {
            let ghost rest = self.queue@;
            let t = self.queue.pop_front().unwrap();
            out.push(t);
            assert(out@ + self.queue@ =~= q0) by {
                assert(rest =~= seq![t] + self.queue@);
            }
        }
        assert(out@ =~= q0);
        assert(self.pending() =~= Seq::<TransactionView>::empty());
        Ok(out)
    }
}

// ── Binding an instance to the bridge ────────────────────────────────

/// An instance configuration from the WaveCrux loader: the decoder, the
/// channel names it bound to signals, option overrides (compact JSON
/// text of an object) and the X/Z policy.
pub struct InstanceConfig {
    pub decoder_id: String,
    pub bound: Vec<String>,
    pub options: String,
    pub xz_policy: XzPolicy,
}

/// Position of the last binding for `name`, or -1.
pub open spec fn binding_pos(b: Seq<(Seq<char>, u32)>, name: Seq<char>) -> int
    decreases b.len(),
{
    if b.len() == 0 {
        -1
    } else if b.last().0 == name {
        b.len() - 1
    } else {
        binding_pos(b.drop_last(), name)
    }
}

/// `name` bound to index `idx`, replacing an earlier binding of it.
pub open spec fn bind(b: Seq<(Seq<char>, u32)>, name: Seq<char>, idx: u32) -> Seq<(Seq<char>, u32)> {
    let p = binding_pos(b, name);
    if p >= 0 { b.update(p, (name, idx)) } else { b.push((name, idx)) }
}

/// How many of the channels `chs` are bound.
pub open spec fn bound_count(chs: Seq<DecoderChannelView>, bound: Seq<Seq<char>>) -> nat
    decreases chs.len(),
{
    if chs.len() == 0 {
        0
    } else {
        bound_count(chs.drop_last(), bound) + if bound.contains(chs.last().name) { 1nat } else { 0nat }
    }
}

/// The bridge-side binding for a decoder's channels. The loader packs the
/// bound signals, in manifest order, into consecutive bit positions of
/// the sample frames, so a bound channel is bound at the number of
/// channels bound before it; an unbound optional channel is left out; an
/// unbound required channel is an error naming it.
pub open spec fn assign_spec(chs: Seq<DecoderChannelView>, bound: Seq<Seq<char>>) -> Result<Seq<(Seq<char>, u32)>, Seq<char>>
    decreases chs.len(),
{
    if chs.len() == 0 {
        Ok(seq![])
    } else {
        match assign_spec(chs.drop_last(), bound) {
            Err(name) => Err(name),
            Ok(b) => {
                let c = chs.last();
                if bound.contains(c.name) {
                    Ok(bind(b, c.name, bound_count(chs.drop_last(), bound) as u32))
                } else if c.required {
                    Err(c.name)
                } else {
                    Ok(b)
                }
            },
        }
    }
}

proof fn lemma_binding_pos_absent(b: Seq<(Seq<char>, u32)>, name: Seq<char>)
    requires
        forall|i: int| 0 <= i < b.len() ==> (#[trigger] b[i]).0 != name,
    ensures
        binding_pos(b, name) < 0,
    decreases b.len(),
{
    if b.len() > 0 {
        lemma_binding_pos_absent(b.drop_last(), name);
    }
}

/// For a manifest whose channels have distinct names, the binding lists
/// the bound channels in manifest order, the `k`-th of them at index `k`:
/// no two bound channels share an index, and the indices run from 0 up
/// with no gap.
pub proof fn lemma_bound_channels_numbered(chs: Seq<DecoderChannelView>, bound: Seq<Seq<char>>)
    requires
        chs.len() <= u32::MAX as nat + 1,
        forall|i: int, j: int| 0 <= i < j < chs.len() ==> (#[trigger] chs[i]).name != (#[trigger] chs[j]).name,
    ensures
        assign_spec(chs, bound) matches Ok(b) ==> {
            &&& b.len() == bound_count(chs, bound)
            &&& forall|k: int| 0 <= k < b.len() ==> (#[trigger] b[k]).1 == k
            &&& forall|k1: int, k2: int| 0 <= k1 < k2 < b.len() ==> (#[trigger] b[k1]).1 != (#[trigger] b[k2]).1
            &&& b.map_values(|p: (Seq<char>, u32)| p.0) == chs.filter_map(
                |c: DecoderChannelView| if bound.contains(c.name) { Some(c.name) } else { None },
            )
        },
    decreases chs.len(),
{
    if chs.len() > 0 {
        let rest = chs.drop_last();
        assert forall|i: int, j: int| 0 <= i < j < rest.len() implies (#[trigger] rest[i]).name != (#[trigger] rest[j]).name by {
            assert(rest[i] == chs[i] && rest[j] == chs[j]);
        }
        lemma_bound_channels_numbered(rest, bound);
        if let Ok(b0) = assign_spec(rest, bound) {
            let c = chs.last();
            if bound.contains(c.name) {
                let f = |c: DecoderChannelView| if bound.contains(c.name) { Some(c.name) } else { None };
                assert forall|i: int| 0 <= i < b0.len() implies (#[trigger] b0[i]).0 != c.name by {
                    assert(b0.map_values(|p: (Seq<char>, u32)| p.0)[i] == b0[i].0);
                    lemma_filter_map_from(rest, f, i);
                    let j = choose|j: int| 0 <= j < rest.len() && f(rest[j]) == Some(b0[i].0);
                    assert(rest[j] == chs[j]);
                }
                lemma_binding_pos_absent(b0, c.name);
                lemma_filter_map_len(rest, f);
                let b = b0.push((c.name, bound_count(rest, bound) as u32));
                assert(assign_spec(chs, bound) == Ok::<Seq<(Seq<char>, u32)>, Seq<char>>(b));
                assert(bound_count(rest, bound) == b0.len());
                assert(b0.len() < chs.len());
                assert forall|k: int| 0 <= k < b.len() implies (#[trigger] b[k]).1 == k by {
                    if k < b0.len() {
                        assert(b[k] == b0[k]);
                    }
                }
                assert(b.map_values(|p: (Seq<char>, u32)| p.0) =~= b0.map_values(|p: (Seq<char>, u32)| p.0).push(c.name));
            } else {
            }
        }
    }
}

proof fn lemma_filter_map_len<A, B>(s: Seq<A>, f: spec_fn(A) -> Option<B>)
    ensures
        s.filter_map(f).len() <= s.len(),
    decreases s.len(),
{
    if s.len() > 0 {
        lemma_filter_map_len(s.drop_last(), f);
    }
}

/// Each element of a `filter_map` comes from an element of the sequence.
proof fn lemma_filter_map_from<A, B>(s: Seq<A>, f: spec_fn(A) -> Option<B>, i: int)
    requires
        0 <= i < s.filter_map(f).len(),
    ensures
        exists|j: int| 0 <= j < s.len() && f(s[j]) == Some(s.filter_map(f)[i]),
    decreases s.len(),
{
    let rest = s.drop_last();
    match f(s.last()) {
        Some(x) => {
            if i < rest.filter_map(f).len() {
                lemma_filter_map_from(rest, f, i);
                let j = choose|j: int| 0 <= j < rest.len() && f(rest[j]) == Some(rest.filter_map(f)[i]);
                assert(s[j] == rest[j]);
                assert(s.filter_map(f)[i] == rest.filter_map(f)[i]);
            } else {
                assert(s.filter_map(f)[i] == x);
                assert(f(s[s.len() - 1]) == Some(x));
            }
        },
        None => {
            lemma_filter_map_from(rest, f, i);
            let j = choose|j: int| 0 <= j < rest.len() && f(rest[j]) == Some(rest.filter_map(f)[i]);
            assert(s[j] == rest[j]);
        },
    }
}

/// The first manifest with id `id`.
pub open spec fn manifest_pos(ms: Seq<DecoderManifestView>, id: Seq<char>) -> int
    decreases ms.len(),
{
    if ms.len() == 0 {
        -1
    } else if ms[0].id == id {
        0
    } else {
        let p = manifest_pos(ms.drop_first(), id);
        if p < 0 { -1 } else { p + 1 }
    }
}

fn bind_exec(b: &mut Vec<(String, u32)>, name: &String, idx: u32)
    ensures
        bindings_view(final(b)@) == bind(bindings_view(old(b)@), name@, idx),
{
    let ghost bv = bindings_view(b@);
    let mut i = b.len();
    assert(bv.take(i as int) =~= bv);
    while i > 0
        invariant
            i <= b@.len(),
            b@ == old(b)@,
            bv == bindings_view(b@),
            binding_pos(bv, name@) == binding_pos(bv.take(i as int), name@),
        decreases i,
    {
        if b[i - 1].0 == *name {
            assert(bv.take(i as int).last() == bv[i - 1]);
            b.set(i - 1, (name.clone(), idx));
            assert(bindings_view(b@) =~= bv.update(i - 1, (name@, idx)));
            return;
        }
        assert(bv.take(i as int).drop_last() =~= bv.take(i - 1 as int));
        i = i - 1;
    }
    assert(bv.take(0) =~= Seq::<(Seq<char>, u32)>::empty());
    b.push((name.clone(), idx));
    assert(bindings_view(b@) =~= bv.push((name@, idx)));
}

fn is_bound_name(bound: &Vec<String>, name: &String) -> (r: bool)
    ensures
        r == strings_view(bound@).contains(name@),
{
    let mut i: usize = 0;
    while i < bound.len()
        invariant
            i <= bound@.len(),
            forall|k: int| 0 <= k < i ==> bound@[k]@ != name@,
        decreases bound@.len() - i,
    {
        if bound[i] == *name {
            assert(strings_view(bound@)[i as int] == name@);
            return true;
        }
        i = i + 1;
    }
    assert forall|k: int| 0 <= k < strings_view(bound@).len() implies strings_view(bound@)[k] != name@ by {
        assert(strings_view(bound@)[k] == bound@[k]@);
    }
    false
}

/// The bridge-side binding for `chs` given the bound channel names.
pub fn assign_channels(chs: &Vec<DecoderChannel>, bound: &Vec<String>) -> (r: Result<Vec<(String, u32)>, String>)
    requires
        chs@.len() <= u32::MAX as nat + 1,
    ensures
        match assign_spec(chs@.map_values(|c: DecoderChannel| c@), strings_view(bound@)) {
            Ok(b) => r matches Ok(v) && bindings_view(v@) == b,
            Err(name) => r matches Err(n) && n@ == name,
        },
{
    let ghost cv = chs@.map_values(|c: DecoderChannel| c@);
    let mut out: Vec<(String, u32)> = Vec::new();
    let mut i: usize = 0;
    let mut next: u64 = 0;
    assert(cv.take(0) =~= Seq::<DecoderChannelView>::empty());
    assert(bindings_view(out@) =~= Seq::<(Seq<char>, u32)>::empty());
    while i < chs.len()
        invariant
            i <= chs@.len(),
            chs@.len() <= u32::MAX as nat + 1,
            cv == chs@.map_values(|c: DecoderChannel| c@),
            next == bound_count(cv.take(i as int), strings_view(bound@)),
            next <= i,
            assign_spec(cv.take(i as int), strings_view(bound@)) == Ok::<Seq<(Seq<char>, u32)>, Seq<char>>(bindings_view(out@)),
        decreases chs@.len() - i,
    {
        let c = &chs[i];
        assert(cv.take(i + 1 as int).drop_last() =~= cv.take(i as int));
        assert(cv.take(i + 1 as int).last() == c@);
        if is_bound_name(bound, &c.name) {
            bind_exec(&mut out, &c.name, next as u32);
            next = next + 1;
        } else if c.required {
            let mut n = String::new();
            n.append(c.name.as_str());
            assert(n@ =~= c.name@);
            proof {
                lemma_assign_err_persists(cv, strings_view(bound@), i + 1 as int);
            }
            return Err(n);
        }
        i = i + 1;
    }
    assert(cv.take(chs@.len() as int) =~= cv);
    Ok(out)
}

proof fn lemma_assign_err_persists(chs: Seq<DecoderChannelView>, bound: Seq<Seq<char>>, k: int)
    requires
        0 <= k <= chs.len(),
        assign_spec(chs.take(k), bound) is Err,
    ensures
        assign_spec(chs, bound) == assign_spec(chs.take(k), bound),
    decreases chs.len() - k,
{
    if k < chs.len() {
        assert(chs.take(k + 1).drop_last() =~= chs.take(k));
        lemma_assign_err_persists(chs, bound, k + 1);
    } else {
        assert(chs.take(k) =~= chs);
    }
}

/// The message for an unbound required channel.
pub open spec fn unbound_message(name: Seq<char>) -> Seq<char> {
    "required channel "@ + name + " unbound"@
}

/// The session request for a configured instance: the decoder must be
/// among the advertised `manifests`, and its required channels bound.
pub fn session_request(manifests: &Vec<DecoderManifest>, cfg: InstanceConfig) -> (r: Result<CreateSessionBody, RegistryError>)
    requires
        forall|i: int| 0 <= i < manifests@.len() ==> (#[trigger] manifests@[i]).channels@.len() <= u32::MAX as nat + 1,
    ensures
        ({
            let p = manifest_pos(manifests_view(manifests@), cfg.decoder_id@);
            if p < 0 {
                r matches Err(RegistryError::Internal(m)) && m@ == "unknown decoder "@ + cfg.decoder_id@
            } else {
                match assign_spec(manifests_view(manifests@)[p].channels, strings_view(cfg.bound@)) {
                    Err(name) => r matches Err(RegistryError::Internal(m)) && m@ == unbound_message(name),
                    Ok(b) => r matches Ok(body) && body.decoder_id == cfg.decoder_id
                        && bindings_view(body.channels@) == b && body.options == cfg.options
                        && body.xz_policy == cfg.xz_policy,
                }
            }
        }),
{
    let ghost mv = manifests_view(manifests@);
    let mut k: usize = 0;
    assert(mv.skip(0) =~= mv);
    while k < manifests.len()
        invariant
            k <= manifests@.len(),
            mv == manifests_view(manifests@),
            forall|i: int| 0 <= i < manifests@.len() ==> (#[trigger] manifests@[i]).channels@.len() <= u32::MAX as nat + 1,
            manifest_pos(mv, cfg.decoder_id@) == (if manifest_pos(mv.skip(k as int), cfg.decoder_id@) < 0 { -1 } else { manifest_pos(mv.skip(k as int), cfg.decoder_id@) + k }),
        decreases manifests@.len() - k,
    {
        assert(mv[k as int] == manifests@[k as int]@);
        assert(mv.skip(k as int)[0] == mv[k as int]);
        if manifests[k].id == cfg.decoder_id {
            let m = &manifests[k];
            return match assign_channels(&m.channels, &cfg.bound) {
                Ok(channels) => Ok(CreateSessionBody {
                    decoder_id: cfg.decoder_id,
                    channels,
                    options: cfg.options,
                    xz_policy: cfg.xz_policy,
                }),
                Err(name) => {
                    let mut msg = owned("required channel ");
                    msg.append(name.as_str());
                    msg.append(" unbound");
                    Err(RegistryError::Internal(msg))
                },
            };
        }
        assert(mv.skip(k as int).drop_first() =~= mv.skip(k + 1 as int));
        k = k + 1;
    }
    assert(mv.skip(k as int) =~= Seq::<DecoderManifestView>::empty());
    let mut msg = owned("unknown decoder ");
    msg.append(cfg.decoder_id.as_str());
    Err(RegistryError::Internal(msg))
}

// ── Reading the bridge's replies ─────────────────────────────────────

/// The name an error code is shown by.
pub open spec fn errcode_name(c: ErrCode) -> Seq<char> {
    match c {
        ErrCode::UnknownDecoder => "UnknownDecoder"@,
        ErrCode::UnknownSession => "UnknownSession"@,
        ErrCode::SessionInitFailed => "SessionInitFailed"@,
        ErrCode::DecoderFailed => "DecoderFailed"@,
        ErrCode::Internal => "Internal"@,
        ErrCode::BadRequest => "BadRequest"@,
    }
}

fn errcode_str(c: ErrCode) -> (s: &'static str)
    ensures
        s@ == errcode_name(c),
{
    match c {
        ErrCode::UnknownDecoder => "UnknownDecoder",
        ErrCode::UnknownSession => "UnknownSession",
        ErrCode::SessionInitFailed => "SessionInitFailed",
        ErrCode::DecoderFailed => "DecoderFailed",
        ErrCode::Internal => "Internal",
        ErrCode::BadRequest => "BadRequest",
    }
}

/// The decoder catalog in a `list_decoders` reply. A subprocess that
/// answers with an `internal` error (its decoding engine could not start)
/// counts as unavailable, so that the plugin contributes no decoders;
/// any other error is the subprocess's.
pub fn decoders_from_reply(resp: Response) -> (r: Result<Vec<DecoderManifest>, RegistryError>)
    ensures
        match resp.status {
            ResponseStatus::Succeeded { body: Some(ResponseBody::Decoders(list)) } => r == Ok::<_, RegistryError>(list),
            ResponseStatus::Succeeded { body: _ } => r matches Err(RegistryError::Internal(m))
                && m@ == "unexpected response body for list_decoders"@,
            ResponseStatus::Failed { code, message } => if code == ErrCode::Internal {
                r matches Err(RegistryError::SubprocessUnavailable(m))
                    && m@ == "list_decoders failed: "@ + errcode_name(code) + ": "@ + message@
            } else {
                r matches Err(RegistryError::Subprocess(m))
                    && m@ == "list_decoders failed: "@ + errcode_name(code) + ": "@ + message@
            },
        },
{
    match resp.status {
        ResponseStatus::Succeeded { body: Some(ResponseBody::Decoders(list)) } => Ok(list),
        ResponseStatus::Succeeded { body: _ } => Err(RegistryError::Internal(owned("unexpected response body for list_decoders"))),
        ResponseStatus::Failed { code, message } => {
            let mut m = owned("list_decoders failed: ");
            m.append(errcode_str(code));
            m.append(": ");
            m.append(message.as_str());
            if code == ErrCode::Internal {
                Err(RegistryError::SubprocessUnavailable(m))
            } else {
                Err(RegistryError::Subprocess(m))
            }
        },
    }
}

/// The session id in a `create_session` reply.
pub fn session_from_reply(resp: Response) -> (r: Result<SessionId, RegistryError>)
    ensures
        match resp.status {
            ResponseStatus::Succeeded { body: Some(ResponseBody::SessionCreated { session }) } =>
                r == Ok::<_, RegistryError>(session),
            ResponseStatus::Succeeded { body: _ } => r matches Err(RegistryError::Internal(m))
                && m@ == "unexpected response body for create_session"@,
            ResponseStatus::Failed { code: _, message } => r matches Err(RegistryError::Subprocess(m))
                && m == message,
        },
{
    match resp.status {
        ResponseStatus::Succeeded { body: Some(ResponseBody::SessionCreated { session }) } => Ok(session),
        ResponseStatus::Succeeded { body: _ } => Err(RegistryError::Internal(owned("unexpected response body for create_session"))),
        ResponseStatus::Failed { code: _, message } => Err(RegistryError::Subprocess(message)),
    }
}

/// Whether a `feed` or `finalize` reply acknowledges the request.
pub fn ack_from_reply(resp: Response) -> (r: Result<(), FeedError>)
    ensures
        match resp.status {
            ResponseStatus::Succeeded { body: _ } => r is Ok,
            ResponseStatus::Failed { code: _, message } => r matches Err(FeedError::Internal(m)) && m == message,
        },
{
    match resp.status {
        ResponseStatus::Succeeded { body: _ } => Ok(()),
        ResponseStatus::Failed { code: _, message } => Err(FeedError::Internal(message)),
    }
}

/// What a failure on an instance's request leaves unusable.
#[derive(Clone, Copy, Debug, PartialEq, Eq, Structural)]
pub enum Damage {
    /// Only the request failed; the session goes on.
    Request,
    /// The session is in an undefined state: the instance is failed and
    /// its session is destroyed.
    Session,
    /// The subprocess is unusable: every instance is failed and the
    /// subprocess is replaced.
    Subprocess,
}

/// What an error reply with `code` damages: a decoder failure its
/// session, an internal error the whole subprocess, anything else only
/// the request.
pub fn damage_of(code: ErrCode) -> (d: Damage)
    ensures
        d == (if code == ErrCode::DecoderFailed {
            Damage::Session
        } else if code == ErrCode::Internal {
            Damage::Subprocess
        } else {
            Damage::Request
        }),
{
    match code {
        ErrCode::DecoderFailed => Damage::Session,
        ErrCode::Internal => Damage::Subprocess,
        _ => Damage::Request,
    }
}

/// What a failure talking to the subprocess damages: a subprocess that
/// died or whose pipe broke is gone, with every session in it; a message
/// that broke the protocol fails only the request.
pub fn damage_of_transport(e: &SupervisorError) -> (d: Damage)
    ensures
        d == (if *e is SubprocessDied || *e is Io { Damage::Subprocess } else { Damage::Request }),
{
    match e {
        SupervisorError::SubprocessDied => Damage::Subprocess,
        SupervisorError::Io(_) => Damage::Subprocess,
        _ => Damage::Request,
    }
}

} // verus!
