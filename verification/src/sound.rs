//! Sound buffers: the bounded queue the server fills from the sound card,
//! the cutting of the sound into 20 ms blocks for the encoder, the raw
//! sound sent as bytes, and the client's playback queue.

use byteorder::{ByteOrder, LittleEndian};
use std::collections::VecDeque;
use vstd::prelude::*;

verus! {

/// Sample rate of the sound, in samples per second.
pub const SOUND_FREQ: u32 = 48000;

/// Number of samples in a 20 ms block given to the encoder.
pub const MONO_20MS: usize = 1920;

/// Number of samples buffered at most for `max_buffer_ms` milliseconds.
pub open spec fn spec_sound_max_len(max_buffer_ms: u64) -> int {
    (max_buffer_ms * (SOUND_FREQ * 2)) / 1000
}

/// Number of samples buffered at most for `max_buffer_ms` milliseconds.
pub fn sound_max_len(max_buffer_ms: u64) -> (n: usize)
    requires
        max_buffer_ms * 96000 <= usize::MAX,
    ensures
        n == spec_sound_max_len(max_buffer_ms),
{
    (max_buffer_ms as usize * 96000) / 1000
}

/// Total number of samples of `chunks`.
pub open spec fn samples_len(chunks: Seq<Seq<i16>>) -> int
    decreases chunks.len(),
{
    if chunks.len() == 0 {
        0
    } else {
        samples_len(chunks.drop_last()) + chunks.last().len()
    }
}

/// `chunks` with its oldest chunks dropped until at most `max` samples are
/// left.
pub open spec fn trim_front(chunks: Seq<Seq<i16>>, max: int) -> Seq<Seq<i16>>
    decreases chunks.len(),
{
    if chunks.len() > 0 && samples_len(chunks) > max {
        trim_front(chunks.drop_first(), max)
    } else {
        chunks
    }
}

/// Dropping the first chunk takes its samples away.
pub proof fn lemma_samples_len_drop_first(chunks: Seq<Seq<i16>>)
    requires
        chunks.len() > 0,
    ensures
        samples_len(chunks) == chunks[0].len() + samples_len(chunks.drop_first()),
    decreases chunks.len(),
{
    if chunks.len() > 1 {
        lemma_samples_len_drop_first(chunks.drop_last());
        assert(chunks.drop_last().drop_first() =~= chunks.drop_first().drop_last());
        assert(chunks.drop_last()[0] == chunks[0]);
        assert(chunks.drop_first().last() == chunks.last());
    } else {
        assert(chunks.drop_first().len() == 0);
        assert(chunks.drop_last().len() == 0);
        assert(samples_len(chunks.drop_last()) == 0);
        assert(samples_len(chunks.drop_first()) == 0);
        assert(chunks.last() == chunks[0]);
    }
}

proof fn lemma_samples_len_nonneg(chunks: Seq<Seq<i16>>)
    ensures
        samples_len(chunks) >= 0,
    decreases chunks.len(),
{
    if chunks.len() > 0 {
        lemma_samples_len_nonneg(chunks.drop_last());
    }
}

/// The buffered sound never holds more than the limit: trimming leaves at
/// most `max` samples, and what it leaves is the newest chunks.
pub proof fn lemma_trim_front_bounded(chunks: Seq<Seq<i16>>, max: int)
    requires
        max >= 0,
    ensures
        samples_len(trim_front(chunks, max)) <= max,
        exists|k: int|
            0 <= k <= chunks.len() && trim_front(chunks, max) == chunks.subrange(k, chunks.len() as int),
    decreases chunks.len(),
{
    if chunks.len() > 0 && samples_len(chunks) > max {
        lemma_trim_front_bounded(chunks.drop_first(), max);
        let k = choose|k: int|
            0 <= k <= chunks.drop_first().len() && trim_front(chunks.drop_first(), max)
                == chunks.drop_first().subrange(k, chunks.drop_first().len() as int);
        assert(chunks.drop_first().subrange(k, chunks.drop_first().len() as int) =~= chunks.subrange(
            k + 1,
            chunks.len() as int,
        ));
    } else {
        assert(chunks.subrange(0, chunks.len() as int) =~= chunks);
        if chunks.len() == 0 {
        }
    }
}

/// The chunks of samples as values.
pub open spec fn chunk_views(chunks: Seq<Vec<i16>>) -> Seq<Seq<i16>> {
    chunks.map_values(|c: Vec<i16>| c@)
}

/// The sound captured from the sound card and not yet handed to the encoder:
/// chunks of samples, oldest first, with their total number of samples.
pub struct BufferingQueue {
    total: usize,
    chunks: VecDeque<Vec<i16>>,
}

impl BufferingQueue {
    /// The chunks, oldest first.
    pub closed spec fn spec_chunks(&self) -> Seq<Seq<i16>> {
        chunk_views(self.chunks@)
    }

    /// The number of samples recorded with the chunks.
    pub closed spec fn spec_total(&self) -> int {
        self.total as int
    }

    /// The recorded total is that of the chunks.
    pub open spec fn wf(&self) -> bool {
        self.spec_total() == samples_len(self.spec_chunks())
    }

    /// An empty queue.
    pub fn new() -> (q: Self)
        ensures
            q.wf(),
            q.spec_chunks() == Seq::<Seq<i16>>::empty(),
    {
        let q = BufferingQueue { total: 0, chunks: VecDeque::new() };
        assert(q.spec_chunks() =~= Seq::<Seq<i16>>::empty());
        q
    }

    /// Number of samples buffered.
    pub fn total(&self) -> (n: usize)
        ensures
            n == self.spec_total(),
    {
        self.total
    }

    /// Adds the newest chunk `data`, then drops the oldest chunks while more
    /// than `max_buffer_ms` milliseconds of sound are buffered.
    pub fn enqueue(&mut self, data: Vec<i16>, max_buffer_ms: u64)
        requires
            old(self).wf(),
            old(self).spec_total() + data@.len() <= usize::MAX,
            max_buffer_ms * 96000 <= usize::MAX,
        ensures
            final(self).wf(),
            final(self).spec_chunks() == trim_front(
                old(self).spec_chunks().push(data@),
                spec_sound_max_len(max_buffer_ms),
            ),
            final(self).spec_total() <= spec_sound_max_len(max_buffer_ms),
    {
        let ghost all = self.spec_chunks().push(data@);
        self.total = self.total + data.len();
        self.chunks.push_back(data);
        proof {
            assert(self.spec_chunks() =~= all);
            assert(all.drop_last() =~= old(self).spec_chunks());
        }
        let sound_max_len = sound_max_len(max_buffer_ms);
        while self.total > sound_max_len
            invariant
                self.wf(),
                trim_front(self.spec_chunks(), sound_max_len as int) == trim_front(
                    all,
                    sound_max_len as int,
                ),
                sound_max_len == spec_sound_max_len(max_buffer_ms),
            decreases self.chunks@.len(),
        {
            let ghost before = self.spec_chunks();
            proof {
                lemma_samples_len_nonneg(before);
                if before.len() == 0 {
                    assert(samples_len(before) == 0);
                }
            }
            let tmp = self.chunks.pop_front();
            match tmp {
                Some(tmp) => {
                    proof {
                        lemma_samples_len_drop_first(before);
                        lemma_samples_len_nonneg(before.drop_first());
                        assert(self.spec_chunks() =~= before.drop_first());
                    }
                    self.total = self.total - tmp.len();
                },
                None => {},
            }
        }
        proof {
            lemma_samples_len_nonneg(self.spec_chunks());
            lemma_trim_front_bounded(all, sound_max_len as int);
        }
    }

    /// Takes every chunk out, oldest first (they go to the encoder).
    pub fn drain(&mut self) -> (chunks: Vec<Vec<i16>>)
        requires
            old(self).wf(),
        ensures
            final(self).wf(),
            chunk_views(chunks@) == old(self).spec_chunks(),
            final(self).spec_chunks() == Seq::<Seq<i16>>::empty(),
            final(self).spec_total() == 0,
    {
        let ghost start = self.spec_chunks();
        let mut out: Vec<Vec<i16>> = Vec::new();
        while self.chunks.len() > 0
            invariant
                self.wf(),
                chunk_views(out@) + self.spec_chunks() == start,
            decreases self.chunks@.len(),
        {
            let ghost before = self.spec_chunks();
            let data = self.chunks.pop_front();
            match data {
                Some(data) => {
                    proof {
                        lemma_samples_len_drop_first(before);
                        lemma_samples_len_nonneg(before.drop_first());
                        assert(self.spec_chunks() =~= before.drop_first());
                    }
                    self.total = self.total - data.len();
                    let ghost o = chunk_views(out@);
                    out.push(data);
                    proof {
                        assert(chunk_views(out@) =~= o.push(before[0]));
                        assert(o.push(before[0]) + before.drop_first() =~= o + before);
                    }
                },
                None => {},
            }
        }
        proof {
            assert(self.spec_chunks() =~= Seq::<Seq<i16>>::empty());
            assert(chunk_views(out@) + self.spec_chunks() =~= chunk_views(out@));
        }
        out
    }
}

/// Number of 20 ms blocks cut from `len` samples: blocks are cut while more
/// than one block of samples is left.
pub open spec fn block_count(len: int) -> int {
    if len <= MONO_20MS {
        0
    } else {
        (len - 1) / (MONO_20MS as int)
    }
}

/// Cuts the 20 ms blocks off the front of `sound_data`, while more than a
/// block of samples is left; the rest stays for the next round.
pub fn take_20ms_blocks(sound_data: &mut Vec<i16>) -> (blocks: Vec<Vec<i16>>)
    ensures
        blocks@.len() == block_count(old(sound_data)@.len() as int),
        forall|i: int|
            0 <= i < blocks@.len() ==> #[trigger] blocks@[i]@ == old(sound_data)@.subrange(
                i * MONO_20MS,
                (i + 1) * MONO_20MS,
            ),
        final(sound_data)@ == old(sound_data)@.subrange(
            blocks@.len() * MONO_20MS,
            old(sound_data)@.len() as int,
        ),
        final(sound_data)@.len() <= MONO_20MS,
{
    let ghost s = sound_data@;
    let len = sound_data.len();
    let mut blocks: Vec<Vec<i16>> = Vec::new();
    let mut pos: usize = 0;
    while len - pos > MONO_20MS
        invariant
            len == s.len(),
            sound_data@ == s,
            pos <= len,
            pos == blocks@.len() * MONO_20MS,
            len > MONO_20MS ==> pos <= (len - 1) / (MONO_20MS as int) * MONO_20MS,
            len <= MONO_20MS ==> pos == 0,
            forall|i: int|
                0 <= i < blocks@.len() ==> #[trigger] blocks@[i]@ == s.subrange(
                    i * MONO_20MS,
                    (i + 1) * MONO_20MS,
                ),
        decreases len - pos,
    {
        let block = vstd::slice::slice_to_vec(
            vstd::slice::slice_subrange(sound_data.as_slice(), pos, pos + MONO_20MS),
        );
        let ghost k = blocks@.len();
        blocks.push(block);
        proof {
            assert(blocks@[k as int]@ == s.subrange(k * MONO_20MS, (k + 1) * MONO_20MS));
            assert((k + 1) * MONO_20MS <= (len - 1) / (MONO_20MS as int) * MONO_20MS) by (
            nonlinear_arith)
                requires
                    pos == k * 1920,
                    len - pos > 1920,
                    MONO_20MS == 1920,
            ;
        }
        pos = pos + MONO_20MS;
    }
    proof {
        if len > MONO_20MS {
            assert(blocks@.len() == (len - 1) / 1920) by (nonlinear_arith)
                requires
                    pos == blocks@.len() * 1920,
                    len - pos <= 1920,
                    pos <= (len - 1) / 1920 * 1920,
                    len > 1920,
            ;
        } else {
            assert(blocks@.len() == 0) by (nonlinear_arith)
                requires
                    pos == blocks@.len() * 1920,
                    pos == 0,
            ;
        }
    }
    let rest = vstd::slice::slice_to_vec(vstd::slice::slice_subrange(sound_data.as_slice(), pos, len));
    *sound_data = rest;
    blocks
}

/// The outputs of the encoder calls that succeeded, in call order.
pub open spec fn encoded_blocks(results: Seq<Option<Vec<u8>>>) -> Seq<Seq<u8>>
    decreases results.len(),
{
    if results.len() == 0 {
        Seq::empty()
    } else {
        match results[0] {
            Some(b) => seq![b@] + encoded_blocks(results.drop_first()),
            None => encoded_blocks(results.drop_first()),
        }
    }
}

/// The views of `blocks`.
pub open spec fn block_views(blocks: Seq<Vec<u8>>) -> Seq<Seq<u8>> {
    blocks.map_values(|b: Vec<u8>| b@)
}

/// The sound message of a round from the results of its encoder calls, in
/// call order (`None` for a call that failed): the outputs that were
/// encoded, in order, or no message when none was.
pub fn collect_encoded(results: Vec<Option<Vec<u8>>>) -> (r: Option<Vec<Vec<u8>>>)
    ensures
        r is None <==> encoded_blocks(results@).len() == 0,
        r matches Some(v) ==> block_views(v@) == encoded_blocks(results@),
{
    let ghost all = results@;
    let mut rest = results;
    let mut out: Vec<Vec<u8>> = Vec::new();
    while rest.len() > 0
        invariant
            block_views(out@) + encoded_blocks(rest@) == encoded_blocks(all),
        decreases rest@.len(),
    {
        let ghost before = rest@;
        let item = rest.remove(0);
        assert(rest@ =~= before.drop_first());
        match item {
            Some(b) => {
                let ghost ob = out@;
                out.push(b);
                assert(block_views(out@) =~= block_views(ob).push(b@));
                assert(block_views(out@) + encoded_blocks(rest@) =~= block_views(ob) + encoded_blocks(
                    before,
                ));
            },
            None => {},
        }
    }
    assert(block_views(out@) + encoded_blocks(rest@) =~= block_views(out@));
    if out.len() == 0 {
        None
    } else {
        Some(out)
    }
}

/// The two bytes of `n`, least significant first.
pub open spec fn le_bytes_i16(n: i16) -> Seq<u8> {
    seq![((n as u16) & 0xff) as u8, ((n as u16) >> 8u16) as u8]
}

/// The bytes of `samples`, two per sample, least significant first.
pub open spec fn le_samples(samples: Seq<i16>) -> Seq<u8>
    decreases samples.len(),
{
    if samples.len() == 0 {
        Seq::empty()
    } else {
        le_samples(samples.drop_last()) + le_bytes_i16(samples.last())
    }
}

/// Calls `LittleEndian::write_i16` on the two bytes of `buf` at `pos`: the
/// contract claims that they become those of `n`, least significant first,
/// and that the other bytes are left as they were.
#[verifier::external_body]
fn write_i16_le_at(buf: &mut Vec<u8>, pos: usize, n: i16)
    requires
        pos + 2 <= old(buf)@.len(),
    ensures
        final(buf)@ == old(buf)@.update(pos as int, le_bytes_i16(n)[0]).update(
            pos + 1,
            le_bytes_i16(n)[1],
        ),
{
    LittleEndian::write_i16(&mut buf[pos..pos + 2], n)
}

/// Raw sound as sent to the client: each sample on two bytes, least
/// significant first.
pub fn pack_raw_sound(samples: &[i16]) -> (bytes: Vec<u8>)
    requires
        2 * samples@.len() <= usize::MAX,
    ensures
        bytes@ == le_samples(samples@),
{
    let mut bytes = vec![0u8; 2 * samples.len()];
    let mut i: usize = 0;
    while i < samples.len()
        invariant
            i <= samples@.len(),
            2 * samples@.len() <= usize::MAX,
            bytes@.len() == 2 * samples@.len(),
            bytes@.subrange(0, 2 * i as int) == le_samples(samples@.subrange(0, i as int)),
        decreases samples@.len() - i,
    {
        let ghost before = bytes@;
        write_i16_le_at(&mut bytes, 2 * i, samples[i]);
        proof {
            let pre = samples@.subrange(0, i as int + 1);
            assert(pre.drop_last() =~= samples@.subrange(0, i as int));
            assert(pre.last() == samples@[i as int]);
            assert(bytes@.subrange(0, 2 * i as int) =~= before.subrange(0, 2 * i as int));
            assert(bytes@.subrange(0, 2 * (i + 1) as int) =~= bytes@.subrange(0, 2 * i as int)
                + le_bytes_i16(samples@[i as int]));
        }
        i = i + 1;
    }
    assert(samples@.subrange(0, samples@.len() as int) =~= samples@);
    assert(bytes@.subrange(0, bytes@.len() as int) =~= bytes@);
    bytes
}

/// `n` samples of silence.
pub open spec fn zeros(n: nat) -> Seq<i16> {
    Seq::new(n, |i: int| 0i16)
}

/// Samples played while the server is late: silence for a quarter of
/// `audio_buffer_ms`.
pub open spec fn spec_refill_len(audio_buffer_ms: u32) -> int {
    ((audio_buffer_ms / 4) * (SOUND_FREQ * 2)) / 1000
}

/// Fills an output of `count` samples from the playback queue, oldest first,
/// with silence for the samples the queue lacks. When it lacked any, a
/// quarter of the buffer length of silence is queued, to give the server
/// time to catch up.
pub fn dequeue_to_sink(count: usize, queue: &mut VecDeque<i16>, audio_buffer_ms: u32) -> (out: Vec<
    i16,
>)
    requires
        (audio_buffer_ms / 4) * 96000 <= usize::MAX,
    ensures
        out@.len() == count,
        count <= old(queue)@.len() ==> out@ == old(queue)@.subrange(0, count as int)
            && final(queue)@ == old(queue)@.subrange(count as int, old(queue)@.len() as int),
        count > old(queue)@.len() ==> out@ == old(queue)@ + zeros((count - old(queue)@.len()) as nat)
            && final(queue)@ == zeros(spec_refill_len(audio_buffer_ms) as nat),
{
    let ghost q0 = queue@;
    let mut out: Vec<i16> = Vec::new();
    let mut missing: usize = 0;
    let mut i: usize = 0;
    while i < count
        invariant
            i <= count,
            missing <= i,
            out@.len() == i,
            missing == 0 ==> i <= q0.len() && out@ == q0.subrange(0, i as int) && queue@ == q0.subrange(
                i as int,
                q0.len() as int,
            ),
            missing > 0 ==> i - missing == q0.len() && queue@.len() == 0 && out@ == q0 + zeros(missing as nat),
        decreases count - i,
    {
        let ghost o = out@;
        match queue.pop_front() {
            Some(v) => {
                out.push(v);
                proof {
                    assert(out@ =~= q0.subrange(0, i as int + 1));
                    assert(queue@ =~= q0.subrange(i as int + 1, q0.len() as int));
                }
            },
            None => {
                out.push(0);
                missing = missing + 1;
                proof {
                    if missing == 1 {
                        assert(q0.subrange(0, i as int) =~= q0);
                    }
                    assert(out@ =~= q0 + zeros(missing as nat));
                }
            },
        }
        i = i + 1;
    }
    if missing != 0 {
        let refill = ((audio_buffer_ms as usize / 4) * 96000) / 1000;
        let mut j: usize = 0;
        while j < refill
            invariant
                j <= refill,
                queue@ == zeros(j as nat),
            decreases refill - j,
        {
            queue.push_back(0);
            j = j + 1;
            assert(queue@ =~= zeros(j as nat));
        }
    }
    out
}

/// Appends decoded samples to the playback queue, then forgets the oldest
/// ones while more than `audio_buffer_ms` milliseconds are queued (the
/// client is lagging).
pub fn append_decoded(queue: &mut VecDeque<i16>, decoded: &[i16], audio_buffer_ms: u32)
    requires
        audio_buffer_ms * 96000 <= usize::MAX,
        old(queue)@.len() + decoded@.len() <= usize::MAX,
    ensures
        ({
            let all = old(queue)@ + decoded@;
            let max = (audio_buffer_ms * 96000) / 1000;
            &&& all.len() <= max ==> final(queue)@ == all
            &&& all.len() > max ==> final(queue)@ == all.subrange(all.len() - max, all.len() as int)
        }),
{
    let ghost all = queue@ + decoded@;
    let mut i: usize = 0;
    while i < decoded.len()
        invariant
            i <= decoded@.len(),
            queue@ == old(queue)@ + decoded@.subrange(0, i as int),
            old(queue)@.len() + decoded@.len() <= usize::MAX,
        decreases decoded@.len() - i,
    {
        queue.push_back(decoded[i]);
        i = i + 1;
        assert(queue@ =~= old(queue)@ + decoded@.subrange(0, i as int));
    }
    assert(decoded@.subrange(0, decoded@.len() as int) =~= decoded@);
    let sound_max_len = (audio_buffer_ms as usize * 96000) / 1000;
    if queue.len() > sound_max_len {
        let diff = queue.len() - sound_max_len;
        let mut k: usize = 0;
        while k < diff
            invariant
                k <= diff,
                diff == all.len() - sound_max_len,
                all.len() > sound_max_len,
                queue@ == all.subrange(k as int, all.len() as int),
            decreases diff - k,
        {
            let _ = queue.pop_front();
            k = k + 1;
        }
    }
}

/// Sample formats of a sound device.
#[derive(Debug, Clone, Copy, PartialEq, Eq, Structural)]
pub enum SampleFormat {
    I8,
    I16,
    I32,
    I64,
    U8,
    U16,
    U32,
    U64,
    F32,
    F64,
    /// Any other format.
    Other,
}

/// A range of configurations a sound device supports.
#[derive(Debug, Clone, Copy, PartialEq, Eq, Structural)]
pub struct SoundConfigRange {
    pub channels: u16,
    pub sample_format: SampleFormat,
    pub min_sample_rate: u32,
    pub max_sample_rate: u32,
}

/// Sample rate the client plays at when it is free to choose.
pub const TARGET_SAMPLE_RATE: u32 = 48000;

/// The configuration has the device's default channels and format.
pub open spec fn same_layout(c: SoundConfigRange, channels: u16, format: SampleFormat) -> bool {
    c.channels == channels && c.sample_format == format
}

/// The first configuration, from index `i` on, with the default layout
/// that takes the sample rate `rate`.
pub open spec fn first_input_config(
    configs: Seq<SoundConfigRange>,
    channels: u16,
    format: SampleFormat,
    rate: u32,
    i: int,
) -> Option<usize>
    decreases configs.len() - i,
{
    if i < 0 || i >= configs.len() {
        None
    } else if same_layout(configs[i], channels, format) && configs[i].min_sample_rate <= rate
        <= configs[i].max_sample_rate {
        Some(i as usize)
    } else {
        first_input_config(configs, channels, format, rate, i + 1)
    }
}

/// Picks the capture configuration: the first with the device's default
/// layout whose range holds the sample rate asked for.
pub fn select_input_config(
    configs: &[SoundConfigRange],
    channels: u16,
    format: SampleFormat,
    sample_rate: u32,
) -> (r: Option<usize>)
    ensures
        r == first_input_config(configs@, channels, format, sample_rate, 0),
{
    let mut i: usize = 0;
    while i < configs.len()
        invariant
            i <= configs@.len(),
            first_input_config(configs@, channels, format, sample_rate, 0) == first_input_config(
                configs@,
                channels,
                format,
                sample_rate,
                i as int,
            ),
        decreases configs@.len() - i,
    {
        let c = configs[i];
        if c.channels == channels && c.sample_format == format && c.min_sample_rate <= sample_rate
            && sample_rate <= c.max_sample_rate {
            return Some(i);
        }
        i = i + 1;
    }
    None
}

/// `v` brought into `[lo, hi]`.
pub open spec fn spec_clamp(v: u32, lo: u32, hi: u32) -> u32 {
    if v < lo {
        lo
    } else if v > hi {
        hi
    } else {
        v
    }
}

/// The first playback configuration, from index `i` on, with the default
/// layout that takes the sample rate asked for (any when none is asked),
/// with the rate it plays at: the one asked for, else the target rate
/// brought into its range.
pub open spec fn first_output_config(
    configs: Seq<SoundConfigRange>,
    channels: u16,
    format: SampleFormat,
    requested: Option<u32>,
    i: int,
) -> Option<(usize, u32)>
    decreases configs.len() - i,
{
    if i < 0 || i >= configs.len() {
        None
    } else if !same_layout(configs[i], channels, format) {
        first_output_config(configs, channels, format, requested, i + 1)
    } else {
        match requested {
            Some(rate) => if configs[i].min_sample_rate <= rate <= configs[i].max_sample_rate {
                Some((i as usize, rate))
            } else {
                first_output_config(configs, channels, format, requested, i + 1)
            },
            None => Some(
                (
                    i as usize,
                    spec_clamp(
                        TARGET_SAMPLE_RATE,
                        configs[i].min_sample_rate,
                        configs[i].max_sample_rate,
                    ),
                ),
            ),
        }
    }
}

/// Picks the playback configuration and its sample rate.
pub fn select_output_config(
    configs: &[SoundConfigRange],
    channels: u16,
    format: SampleFormat,
    requested: Option<u32>,
) -> (r: Option<(usize, u32)>)
    requires
        requested is None ==> (first_output_config(configs@, channels, format, requested, 0) matches Some(
            (k, _),
        ) ==> configs@[k as int].min_sample_rate <= configs@[k as int].max_sample_rate),
    ensures
        r == first_output_config(configs@, channels, format, requested, 0),
{
    let mut i: usize = 0;
    while i < configs.len()
        invariant
            i <= configs@.len(),
            first_output_config(configs@, channels, format, requested, 0) == first_output_config(
                configs@,
                channels,
                format,
                requested,
                i as int,
            ),
        decreases configs@.len() - i,
    {
        let c = configs[i];
        if c.channels == channels && c.sample_format == format {
            match requested {
                Some(rate) => {
                    if c.min_sample_rate <= rate && rate <= c.max_sample_rate {
                        return Some((i, rate));
                    }
                },
                None => {
                    let rate = if TARGET_SAMPLE_RATE < c.min_sample_rate {
                        c.min_sample_rate
                    } else if TARGET_SAMPLE_RATE > c.max_sample_rate {
                        c.max_sample_rate
                    } else {
                        TARGET_SAMPLE_RATE
                    };
                    return Some((i, rate));
                },
            }
        }
        i = i + 1;
    }
    None
}

proof fn lemma_input_config_from(configs: Seq<SoundConfigRange>, channels: u16, format: SampleFormat, rate: u32, i: int)
    requires
        0 <= i <= configs.len(),
        configs.len() <= usize::MAX,
    ensures
        match first_input_config(configs, channels, format, rate, i) {
            Some(k) => {
                &&& i <= k < configs.len()
                &&& configs[k as int].channels == channels && configs[k as int].sample_format == format
                &&& configs[k as int].min_sample_rate <= rate && rate <= configs[k as int].max_sample_rate
                &&& forall|j: int|
                    i <= j < k ==> !(#[trigger] configs[j].channels == channels && configs[j].sample_format
                        == format && configs[j].min_sample_rate <= rate && rate <= configs[j].max_sample_rate)
            },
            None => forall|j: int|
                i <= j < configs.len() ==> !(#[trigger] configs[j].channels == channels
                    && configs[j].sample_format == format && configs[j].min_sample_rate <= rate && rate
                    <= configs[j].max_sample_rate),
        },
    decreases configs.len() - i,
{
    if i < configs.len() {
        lemma_input_config_from(configs, channels, format, rate, i + 1);
    }
}

/// Law: the capture configuration is the first one with the device's
/// channels and format whose range of sample rates holds the rate asked
/// for, both ends included; there is none when no configuration has them.
pub proof fn lemma_input_config_choice(configs: Seq<SoundConfigRange>, channels: u16, format: SampleFormat, rate: u32)
    requires
        configs.len() <= usize::MAX,
    ensures
        match first_input_config(configs, channels, format, rate, 0) {
            Some(k) => {
                &&& k < configs.len()
                &&& configs[k as int].channels == channels && configs[k as int].sample_format == format
                &&& configs[k as int].min_sample_rate <= rate && rate <= configs[k as int].max_sample_rate
                &&& forall|j: int|
                    0 <= j < k ==> !(#[trigger] configs[j].channels == channels && configs[j].sample_format
                        == format && configs[j].min_sample_rate <= rate && rate <= configs[j].max_sample_rate)
            },
            None => forall|j: int|
                0 <= j < configs.len() ==> !(#[trigger] configs[j].channels == channels
                    && configs[j].sample_format == format && configs[j].min_sample_rate <= rate && rate
                    <= configs[j].max_sample_rate),
        },
{
    lemma_input_config_from(configs, channels, format, rate, 0);
}

/// A playback configuration can be taken: it has the device's channels and
/// format, and its range holds the rate asked for, if one is.
pub open spec fn playable(c: SoundConfigRange, channels: u16, format: SampleFormat, requested: Option<u32>) -> bool {
    &&& c.channels == channels
    &&& c.sample_format == format
    &&& requested matches Some(rate) ==> c.min_sample_rate <= rate && rate <= c.max_sample_rate
}

proof fn lemma_output_config_from(
    configs: Seq<SoundConfigRange>,
    channels: u16,
    format: SampleFormat,
    requested: Option<u32>,
    i: int,
)
    requires
        0 <= i <= configs.len(),
        configs.len() <= usize::MAX,
    ensures
        match first_output_config(configs, channels, format, requested, i) {
            Some((k, r)) => {
                &&& i <= k < configs.len()
                &&& playable(configs[k as int], channels, format, requested)
                &&& requested matches Some(rate) ==> r == rate
                &&& requested is None ==> r == spec_clamp(
                    TARGET_SAMPLE_RATE,
                    configs[k as int].min_sample_rate,
                    configs[k as int].max_sample_rate,
                )
                &&& forall|j: int| i <= j < k ==> !playable(#[trigger] configs[j], channels, format, requested)
            },
            None => forall|j: int| i <= j < configs.len() ==> !playable(#[trigger] configs[j], channels, format, requested),
        },
    decreases configs.len() - i,
{
    if i < configs.len() {
        lemma_output_config_from(configs, channels, format, requested, i + 1);
    }
}

/// Law: the playback configuration is the first that has the device's
/// channels and format and, when a rate is asked for, whose range holds it
/// (both ends included); it plays at the rate asked for, else at 48000
/// brought into its range. There is none when no configuration can be taken.
pub proof fn lemma_output_config_choice(
    configs: Seq<SoundConfigRange>,
    channels: u16,
    format: SampleFormat,
    requested: Option<u32>,
)
    requires
        configs.len() <= usize::MAX,
    ensures
        match first_output_config(configs, channels, format, requested, 0) {
            Some((k, r)) => {
                let c = configs[k as int];
                &&& k < configs.len()
                &&& c.channels == channels && c.sample_format == format
                &&& requested matches Some(rate) ==> r == rate && c.min_sample_rate <= rate && rate
                    <= c.max_sample_rate
                &&& requested is None ==> r == (if 48000 < c.min_sample_rate {
                    c.min_sample_rate
                } else if 48000 > c.max_sample_rate {
                    c.max_sample_rate
                } else {
                    48000
                })
                &&& forall|j: int| 0 <= j < k ==> !playable(#[trigger] configs[j], channels, format, requested)
            },
            None => forall|j: int| 0 <= j < configs.len() ==> !playable(#[trigger] configs[j], channels, format, requested),
        },
{
    lemma_output_config_from(configs, channels, format, requested, 0);
}

} // verus!
