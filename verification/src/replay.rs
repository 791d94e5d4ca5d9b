//! Turning the IPC layer's sparse transitions into the dense sample rows
//! a logic-analyzer decoding engine consumes.
//!
//! Time is scaled at a fixed 1 sample = 1 ns (= 10^6 fs), a 1 GHz
//! logic analyzer.  The level held between two consecutive transitions
//! is replayed as a run of identical sample rows; a row packs one bit
//! per channel, least significant bit first (channel 0 is bit 0 of
//! byte 0, channel 8 is bit 0 of byte 1, …).  Long runs are handed over
//! in chunks of at most [`SEND_CHUNK_SAMPLES`] rows.

use vstd::prelude::*;
use crate::schema::{AnnotationEvent, BitValue, ChannelChange, SampleTransition};

verus! {

/// Femtoseconds per sample at the fixed 1 GHz replay rate.
pub const FS_PER_SAMPLE: u64 = 1000000;

/// Samples per second corresponding to [`FS_PER_SAMPLE`].
pub const SAMPLERATE_HZ: u64 = 1000000000;

/// Upper bound on the rows handed over in one chunk.
pub const SEND_CHUNK_SAMPLES: u64 = 65536;

/// Bit `i` of a packed row (bit `i % 8` of byte `i / 8`).
pub open spec fn row_bit(row: Seq<u8>, i: int) -> bool {
    (row[i / 8] >> ((i % 8) as u8)) & 1u8 == 1u8
}

/// `row` is `unitsize` bytes whose bit `i` is set exactly when channel
/// `i` is at a non-zero level.
pub open spec fn packs(row: Seq<u8>, levels: Seq<u8>, unitsize: nat) -> bool {
    &&& row.len() == unitsize
    &&& forall|i: int| 0 <= i < 8 * unitsize ==> #[trigger] row_bit(row, i) == (i < levels.len() && levels[i] != 0)
}

proof fn lemma_bit_of_or(b: u8, k: u8, j: u8)
    requires
        k < 8,
        j < 8,
    ensures
        ((b | (1u8 << k)) >> j) & 1u8 == (if j == k { 1u8 } else { (b >> j) & 1u8 }),
{
    assert(k < 8 && j < 8 ==> ((b | (1u8 << k)) >> j) & 1u8 == (if j == k { 1u8 } else { (b >> j)
        & 1u8 })) by (bit_vector);
}

proof fn lemma_bit_of_zero(j: u8)
    ensures
        (0u8 >> j) & 1u8 == 0u8,
{
    assert((0u8 >> j) & 1u8 == 0u8) by (bit_vector);
}

/// Packs the per-channel levels into one `unitsize`-byte sample row,
/// least significant bit first. Levels past the row must be zero.
pub fn pack_row(levels: &[u8], unitsize: usize) -> (row: Vec<u8>)
    requires
        forall|i: int| 0 <= i < levels@.len() && #[trigger] levels@[i] != 0 ==> i < 8 * unitsize,
    ensures
        packs(row@, levels@, unitsize as nat),
{
    let mut row: Vec<u8> = Vec::new();
    let mut k: usize = 0;
    while k < unitsize
        invariant
            k <= unitsize,
            row@.len() == k,
            forall|b: int| 0 <= b < k ==> row@[b] == 0u8,
        decreases unitsize - k,
    {
        row.push(0u8);
        k = k + 1;
    }
    assert forall|i: int| 0 <= i < 8 * unitsize implies #[trigger] row_bit(row@, i) == (i < 0 && levels@[i] != 0) by {
        lemma_bit_of_zero((i % 8) as u8);
    }
    let mut idx: usize = 0;
    while idx < levels.len()
        invariant
            idx <= levels@.len(),
            forall|i: int| 0 <= i < levels@.len() && #[trigger] levels@[i] != 0 ==> i < 8 * unitsize,
            row@.len() == unitsize,
            forall|i: int| 0 <= i < 8 * unitsize ==> #[trigger] row_bit(row@, i) == (i < idx && levels@[i] != 0),
        decreases levels@.len() - idx,
    {
        if levels[idx] != 0 {
            let byte = idx / 8;
            let shift = (idx % 8) as u8;
            let ghost old_row = row@;
            let b = row[byte];
            row.set(byte, b | (1u8 << shift));
            assert forall|i: int| 0 <= i < 8 * unitsize implies #[trigger] row_bit(row@, i) == (i < idx + 1 && levels@[i] != 0) by {
                assert(row_bit(old_row, i) == (i < idx && levels@[i] != 0));
                if i / 8 == byte as int {
                    lemma_bit_of_or(b, shift, (i % 8) as u8);
                } else {
                    assert(row@[i / 8] == old_row[i / 8]);
                }
            }
        }
        idx = idx + 1;
    }
    row
}

/// The level a channel holds after `change`; an indeterminate value
/// keeps the previous level (the engine has no representation for an
/// unknown bit).
pub open spec fn level_after(prev: u8, v: BitValue) -> u8 {
    match v {
        BitValue::Zero => 0u8,
        BitValue::One => 1u8,
        BitValue::X => prev,
    }
}

/// One change applied to the level vector; a channel outside the frame
/// is ignored.
pub open spec fn apply_one(levels: Seq<u8>, c: ChannelChange) -> Seq<u8> {
    if c.ch < levels.len() {
        levels.update(c.ch as int, level_after(levels[c.ch as int], c.v))
    } else {
        levels
    }
}

/// The changes of one transition applied in order.
pub open spec fn apply_all(levels: Seq<u8>, set: Seq<ChannelChange>) -> Seq<u8>
    decreases set.len(),
{
    if set.len() == 0 {
        levels
    } else {
        apply_one(apply_all(levels, set.drop_last()), set.last())
    }
}

/// Applies a transition's changes to the running level vector.
pub fn apply_changes(levels: &mut Vec<u8>, set: &[ChannelChange])
    ensures
        final(levels)@ == apply_all(old(levels)@, set@),
{
    let ghost orig = levels@;
    let mut i: usize = 0;
    while i < set.len()
        invariant
            i <= set@.len(),
            levels@ == apply_all(orig, set@.take(i as int)),
        decreases set@.len() - i,
    {
        let change = set[i];
        let idx = change.ch as usize;
        if idx < levels.len() {
            match change.v {
                BitValue::Zero => levels.set(idx, 0u8),
                BitValue::One => levels.set(idx, 1u8),
                BitValue::X => {},
            }
        }
        assert(set@.take(i + 1 as int).drop_last() =~= set@.take(i as int));
        i = i + 1;
    }
    assert(set@.take(set@.len() as int) =~= set@);
}

/// The chunks `[start, end)` that cover `[from, to)`, each as long as
/// possible but at most [`SEND_CHUNK_SAMPLES`] samples.
pub open spec fn chunks_spec(from: u64, to: u64) -> Seq<(u64, u64)>
    decreases to - from,
{
    if to <= from {
        Seq::empty()
    } else {
        let n = if to - from < SEND_CHUNK_SAMPLES { (to - from) as u64 } else { SEND_CHUNK_SAMPLES };
        seq![(from, (from + n) as u64)] + chunks_spec((from + n) as u64, to)
    }
}

/// Splits the run `[from, to)` into the chunks handed over one at a time.
pub fn chunk_bounds(from: u64, to: u64) -> (chunks: Vec<(u64, u64)>)
    ensures
        chunks@ == chunks_spec(from, to),
{
    let mut chunks: Vec<(u64, u64)> = Vec::new();
    if to <= from {
        return chunks;
    }
    let mut start = from;
    while start < to
        invariant
            from <= start <= to,
            chunks@ + chunks_spec(start, to) == chunks_spec(from, to),
        decreases to - start,
    {
        let rest = to - start;
        let n = if rest < SEND_CHUNK_SAMPLES { rest } else { SEND_CHUNK_SAMPLES };
        let ghost before = chunks@;
        chunks.push((start, start + n));
        assert(chunks_spec(start, to) == seq![(start, (start + n) as u64)] + chunks_spec((start + n) as u64, to));
        assert(chunks@ + chunks_spec((start + n) as u64, to) =~= before + chunks_spec(start, to));
        start = start + n;
    }
    assert(chunks_spec(start, to) =~= Seq::<(u64, u64)>::empty());
    assert(chunks@ + Seq::<(u64, u64)>::empty() =~= chunks@);
    chunks
}

/// The chunks of a run cover it exactly: they start at `from`, each one
/// starts where the previous one ended, each is non-empty and at most
/// [`SEND_CHUNK_SAMPLES`] long, and the last ends at `to`.
pub proof fn lemma_chunks_cover(from: u64, to: u64)
    ensures
        ({
            let c = chunks_spec(from, to);
            &&& (from >= to <==> c.len() == 0)
            &&& c.len() > 0 ==> c[0].0 == from && c.last().1 == to
            &&& forall|i: int| 0 <= i < c.len() ==> c[i].0 < c[i].1 && c[i].1 - c[i].0 <= SEND_CHUNK_SAMPLES
            &&& forall|i: int| 1 <= i < c.len() ==> c[i - 1].1 == #[trigger] c[i].0
        }),
    decreases to - from,
{
    if from < to {
        let n = if to - from < SEND_CHUNK_SAMPLES { (to - from) as u64 } else { SEND_CHUNK_SAMPLES };
        let next = (from + n) as u64;
        lemma_chunks_cover(next, to);
        let c = chunks_spec(from, to);
        let rest = chunks_spec(next, to);
        assert(c == seq![(from, next)] + rest);
        assert forall|i: int| 1 <= i < c.len() implies c[i - 1].1 == #[trigger] c[i].0 by {
            assert(c[i] == rest[i - 1]);
            if i > 1 {
                assert(c[i - 1] == rest[i - 2]);
                assert(rest[i - 2].1 == rest[i - 1].0);
            }
        }
        assert forall|i: int| 0 <= i < c.len() implies c[i].0 < c[i].1 && c[i].1 - c[i].0 <= SEND_CHUNK_SAMPLES by {
            if i > 0 {
                assert(c[i] == rest[i - 1]);
            }
        }
        if rest.len() > 0 {
            assert(c.last() == rest.last());
        }
    }
}

/// `row` repeated `n` times.
pub open spec fn repeat_spec(row: Seq<u8>, n: nat) -> Seq<u8>
    decreases n,
{
    if n == 0 {
        Seq::empty()
    } else {
        repeat_spec(row, (n - 1) as nat) + row
    }
}

/// A buffer of `n` rows holds `n` times as many bytes as one row, and
/// its `k`-th row is `row`.
pub proof fn lemma_repeat_rows(row: Seq<u8>, n: nat, k: nat, j: int)
    requires
        k < n,
        0 <= j < row.len(),
    ensures
        repeat_spec(row, n).len() == n * row.len(),
        repeat_spec(row, n)[k * row.len() + j] == row[j],
    decreases n,
{
    if n > 0 {
        let prev = repeat_spec(row, (n - 1) as nat);
        if k < n - 1 {
            lemma_repeat_rows(row, (n - 1) as nat, k, j);
        } else {
            if n > 1 {
                lemma_repeat_rows(row, (n - 1) as nat, 0, j);
            } else {
                assert(prev =~= Seq::<u8>::empty());
            }
        }
        assert(prev.len() == (n - 1) * row.len()) by {
            if n > 1 {
                lemma_repeat_rows(row, (n - 1) as nat, 0, j);
            }
        }
        assert((n - 1) * row.len() + row.len() == n * row.len()) by (nonlinear_arith);
        if k < n - 1 {
            assert(k * row.len() + j < (n - 1) * row.len()) by (nonlinear_arith)
                requires k < n - 1, 0 <= j < row.len();
        } else {
            assert(k * row.len() == (n - 1) * row.len());
        }
    }
}

/// A buffer of `n` copies of `row`, back to back.
pub fn repeat_row(row: &[u8], n: u64) -> (buf: Vec<u8>)
    ensures
        buf@ == repeat_spec(row@, n as nat),
{
    let mut buf: Vec<u8> = Vec::new();
    let mut k: u64 = 0;
    while k < n
        invariant
            k <= n,
            buf@ == repeat_spec(row@, k as nat),
        decreases n - k,
    {
        let ghost before = buf@;
        let mut j: usize = 0;
        while j < row.len()
            invariant
                j <= row@.len(),
                buf@ == before + row@.take(j as int),
            decreases row@.len() - j,
        {
            buf.push(row[j]);
            assert(row@.take(j + 1 as int) =~= row@.take(j as int).push(row@[j as int]));
            j = j + 1;
        }
        assert(row@.take(row@.len() as int) =~= row@);
        k = k + 1;
    }
    buf
}


/// The largest bound channel index plus one, over `channels`.
pub open spec fn bound_width(channels: Seq<(String, u32)>) -> nat
    decreases channels.len(),
{
    if channels.len() == 0 {
        0
    } else {
        let w = bound_width(channels.drop_last());
        let c = channels.last().1 as nat + 1;
        if c > w { c } else { w }
    }
}

/// The width of a sample frame for a channel binding: the highest bound
/// channel index plus one, and at least one.
pub open spec fn frame_width_spec(channels: Seq<(String, u32)>) -> nat {
    if bound_width(channels) > 1 { bound_width(channels) } else { 1 }
}

/// Bytes per sample row for `n` channels: `n / 8` rounded up.
pub open spec fn unitsize_spec(n: nat) -> nat {
    (n + 7) / 8
}

/// Number of channel bit-positions in a sample frame for this binding.
pub fn frame_width(channels: &Vec<(String, u32)>) -> (n: usize)
    requires
        forall|i: int| 0 <= i < channels@.len() ==> (#[trigger] channels@[i]).1 < usize::MAX,
    ensures
        n == frame_width_spec(channels@),
{
    let mut w: u64 = 0;
    let mut i: usize = 0;
    while i < channels.len()
        invariant
            i <= channels@.len(),
            w == bound_width(channels@.take(i as int)),
            w <= usize::MAX,
            forall|k: int| 0 <= k < channels@.len() ==> (#[trigger] channels@[k]).1 < usize::MAX,
        decreases channels@.len() - i,
    {
        let c = channels[i].1 as u64 + 1;
        assert(channels@.take(i + 1 as int).drop_last() =~= channels@.take(i as int));
        if c > w {
            w = c;
        }
        i = i + 1;
    }
    assert(channels@.take(channels@.len() as int) =~= channels@);
    if w > 1 {
        w as usize
    } else {
        1
    }
}

/// The sample number a femtosecond timestamp falls into.
pub open spec fn sample_of(fs: u64) -> u64 {
    (fs / FS_PER_SAMPLE) as u64
}

/// A run of identical rows `[from, to)` to hand to the engine.
pub struct SampleRun {
    pub from: u64,
    pub to: u64,
    pub row: Vec<u8>,
}

/// Per-session replay state: the level each channel currently holds and
/// the first sample not yet handed over.
pub struct ReplayState {
    num_channels: usize,
    unitsize: usize,
    levels: Vec<u8>,
    cur_sample: u64,
    started: bool,
}

impl ReplayState {
    /// The state's internal consistency: at least one channel, one
    /// level per channel, rows of `ceil(width / 8)` bytes.
    pub closed spec fn wf(&self) -> bool {
        &&& self.num_channels >= 1
        &&& self.unitsize == unitsize_spec(self.num_channels as nat)
        &&& self.levels@.len() == self.num_channels
        &&& self.cur_sample <= sample_of(u64::MAX) + (if self.started { 0int } else { 1int })
    }

    /// Number of channel bit-positions in each row.
    pub closed spec fn width(&self) -> nat {
        self.num_channels as nat
    }

    /// Bytes per row.
    pub closed spec fn row_bytes(&self) -> nat {
        self.unitsize as nat
    }

    /// The level each channel currently holds.
    pub closed spec fn levels(&self) -> Seq<u8> {
        self.levels@
    }

    /// The first sample number not yet handed over.
    pub closed spec fn cursor(&self) -> u64 {
        self.cur_sample
    }

    /// Whether the first transition has been seen.
    pub closed spec fn started(&self) -> bool {
        self.started
    }

    /// A fresh state for a session whose channels are bound as given:
    /// every channel low, nothing handed over yet.
    pub fn new(channels: &Vec<(String, u32)>) -> (st: Self)
        requires
            forall|i: int| 0 <= i < channels@.len() ==> (#[trigger] channels@[i]).1 < usize::MAX,
        ensures
            st.width() == frame_width_spec(channels@),
            st.row_bytes() == unitsize_spec(frame_width_spec(channels@)),
            st.levels() == Seq::new(frame_width_spec(channels@), |i: int| 0u8),
            st.cursor() == 0,
            !st.started(),
            st.wf(),
    {
        let n = frame_width(channels);
        let mut levels: Vec<u8> = Vec::new();
        let mut i: usize = 0;
        while i < n
            invariant
                i <= n,
                levels@ == Seq::new(i as nat, |k: int| 0u8),
            decreases n - i,
        {
            levels.push(0u8);
            i = i + 1;
            assert(levels@ =~= Seq::new(i as nat, |k: int| 0u8));
        }
        assert(sample_of(u64::MAX) >= 0);
        Self { num_channels: n, unitsize: (n - 1) / 8 + 1, levels, cur_sample: 0, started: false }
    }

    /// Number of channel bit-positions in each row.
    pub fn num_channels(&self) -> (n: usize)
        ensures
            n == self.width(),
    {
        self.num_channels
    }

    /// Bytes per row.
    pub fn unitsize(&self) -> (n: usize)
        ensures
            n == self.row_bytes(),
    {
        self.unitsize
    }

    /// The run to hand over before the transition `tr` takes effect: the
    /// rows from the cursor up to `tr`'s sample, carrying the current
    /// levels.  The first transition only seeds the baseline, and a
    /// transition within the current sample needs no rows.
    pub fn pending_run(&self, tr: &SampleTransition) -> (run: Option<SampleRun>)
        requires
            self.wf(),
        ensures
            (self.started() && sample_of(tr.fs) > self.cursor()) <==> run is Some,
            run matches Some(r) ==> {
                &&& r.from == self.cursor()
                &&& r.to == sample_of(tr.fs)
                &&& packs(r.row@, self.levels(), self.row_bytes())
            },
    {
        let sample_num = tr.fs / FS_PER_SAMPLE;
        if self.started && sample_num > self.cur_sample {
            Some(SampleRun {
                from: self.cur_sample,
                to: sample_num,
                row: pack_row(self.levels.as_slice(), self.unitsize),
            })
        } else {
            None
        }
    }

    /// Takes the transition `tr` into account once its pending run (if
    /// any) has been handed over: the cursor moves to `tr`'s sample (the
    /// first transition sets it there) and the changes are applied.
    pub fn commit(&mut self, tr: &SampleTransition)
        requires
            old(self).wf(),
        ensures
            final(self).wf(),
            final(self).width() == old(self).width(),
            final(self).row_bytes() == old(self).row_bytes(),
            final(self).started(),
            final(self).levels() == apply_all(old(self).levels(), tr.set@),
            final(self).cursor() == (if !old(self).started() || sample_of(tr.fs) > old(self).cursor() {
                sample_of(tr.fs)
            } else {
                old(self).cursor()
            }),
    {
        let sample_num = tr.fs / FS_PER_SAMPLE;
        if !self.started || sample_num > self.cur_sample {
            self.cur_sample = sample_num;
        }
        self.started = true;
        apply_changes(&mut self.levels, tr.set.as_slice());
        proof {
            assert(self.levels@.len() == self.num_channels) by {
                lemma_apply_all_len(old(self).levels@, tr.set@);
            }
        }
    }

    /// At end of stream: the final held level as a single row, so that
    /// the last edge is observable; nothing before the first transition.
    pub fn final_run(&self) -> (run: Option<SampleRun>)
        requires
            self.wf(),
        ensures
            self.started() <==> run is Some,
            run matches Some(r) ==> {
                &&& r.from == self.cursor()
                &&& r.to == self.cursor() + 1
                &&& packs(r.row@, self.levels(), self.row_bytes())
            },
    {
        if self.started {
            Some(SampleRun {
                from: self.cur_sample,
                to: self.cur_sample + 1,
                row: pack_row(self.levels.as_slice(), self.unitsize),
            })
        } else {
            None
        }
    }

    /// Closes the stream once the final run has been handed over: the
    /// cursor moves past it and the next transition seeds a new baseline.
    pub fn finish(&mut self)
        requires
            old(self).wf(),
        ensures
            final(self).wf(),
            final(self).width() == old(self).width(),
            final(self).row_bytes() == old(self).row_bytes(),
            final(self).levels() == old(self).levels(),
            !final(self).started(),
            final(self).cursor() == (if old(self).started() {
                (old(self).cursor() + 1) as u64
            } else {
                old(self).cursor()
            }),
    {
        if self.started {
            self.cur_sample = self.cur_sample + 1;
            self.started = false;
        }
    }
}

/// The runs handed over while replaying transitions that fall at the
/// sample numbers `samples`, from a state whose cursor is `cur`, as
/// [`ReplayState::pending_run`] and [`ReplayState::commit`] do for each
/// transition in turn; and the cursor afterwards.
pub open spec fn replay_runs(started: bool, cur: u64, samples: Seq<u64>) -> (Seq<(u64, u64)>, u64)
    decreases samples.len(),
{
    if samples.len() == 0 {
        (seq![], cur)
    } else {
        let s0 = samples[0];
        let run: Seq<(u64, u64)> = if started && s0 > cur { seq![(cur, s0)] } else { seq![] };
        let next = if !started || s0 > cur { s0 } else { cur };
        let (rs, c) = replay_runs(true, next, samples.drop_first());
        (run + rs, c)
    }
}

/// Where the replay of `samples` starts covering: the cursor of a started
/// state, else the first transition's sample.
pub open spec fn replay_start(started: bool, cur: u64, samples: Seq<u64>) -> u64 {
    if started || samples.len() == 0 { cur } else { samples[0] }
}

/// Over a stream of transitions, the runs handed over are non-empty and
/// follow one another without gap or overlap, from where the replay
/// starts to the final cursor: every sample in between is handed over
/// exactly once.
pub proof fn lemma_replay_runs_consecutive(started: bool, cur: u64, samples: Seq<u64>)
    ensures
        ({
            let (rs, c) = replay_runs(started, cur, samples);
            &&& replay_start(started, cur, samples) <= c
            &&& forall|i: int| 0 <= i < rs.len() ==> (#[trigger] rs[i]).0 < rs[i].1
            &&& forall|i: int| 0 <= i < rs.len() - 1 ==> (#[trigger] rs[i]).1 == rs[i + 1].0
            &&& rs.len() == 0 ==> c == replay_start(started, cur, samples)
            &&& rs.len() > 0 ==> rs[0].0 == replay_start(started, cur, samples) && rs.last().1 == c
        }),
    decreases samples.len(),
{
    if samples.len() > 0 {
        let s0 = samples[0];
        let next = if !started || s0 > cur { s0 } else { cur };
        let rest = samples.drop_first();
        lemma_replay_runs_consecutive(true, next, rest);
        let (rs1, c) = replay_runs(true, next, rest);
        let run: Seq<(u64, u64)> = if started && s0 > cur { seq![(cur, s0)] } else { seq![] };
        let rs = run + rs1;
        assert(replay_runs(started, cur, samples) == (rs, c));
        assert forall|i: int| 0 <= i < rs.len() implies (#[trigger] rs[i]).0 < rs[i].1 by {
            if i >= run.len() {
                assert(rs[i] == rs1[i - run.len()]);
            }
        }
        assert forall|i: int| 0 <= i < rs.len() - 1 implies (#[trigger] rs[i]).1 == rs[i + 1].0 by {
            if i >= run.len() {
                assert(rs[i] == rs1[i - run.len()]);
                assert(rs[i + 1] == rs1[i + 1 - run.len()]);
            } else {
                assert(rs[i + 1] == rs1[0]);
            }
        }
        if rs.len() > 0 {
            if run.len() == 0 {
                assert(rs =~= rs1);
            } else {
                assert(rs[0] == (cur, s0));
                if rs1.len() > 0 {
                    assert(rs.last() == rs1.last());
                }
            }
        }
    }
}

proof fn lemma_apply_all_len(levels: Seq<u8>, set: Seq<ChannelChange>)
    ensures
        apply_all(levels, set).len() == levels.len(),
    decreases set.len(),
{
    if set.len() > 0 {
        lemma_apply_all_len(levels, set.drop_last());
    }
}

} // verus!
