//! Interleaved PCM bookkeeping: silence sources, frame trimming and padding, fixed-size frame
//! queues for encoders, encoder input formats, and the PCM16 WAV header.
//!
//! Sample values are generic here; the floating-point arithmetic on them (gain, clamping,
//! quantisation, resampling) is done by the host.

use vstd::prelude::*;

use crate::arith::clamp_max;

verus! {

/// Why an audio format was refused.
#[derive(Clone, Copy, Debug, PartialEq, Eq, Structural)]
pub enum AudioConfigError {
    ZeroSampleRate,
    ZeroChannels,
    ZeroChunkFrames,
    /// Only 44 100 Hz and 48 000 Hz input is supported.
    UnsupportedSampleRate,
    /// Only mono and stereo are supported.
    UnsupportedChannels,
}

/// One chunk produced by [`SilenceAudioCapture`]: `sample_count` zero samples.
#[derive(Clone, Copy, Debug, PartialEq, Eq, Structural)]
pub struct SilenceChunk {
    pub timestamp_us: u64,
    pub sample_rate: u32,
    pub channels: u16,
    /// Interleaved samples in the chunk (`chunk_frames * channels`).
    pub sample_count: u64,
}

/// Source that emits silence, for plumbing and integration tests.
pub struct SilenceAudioCapture {
    sample_rate: u32,
    channels: u16,
    chunk_frames: u32,
    next_timestamp_us: u64,
}

impl SilenceAudioCapture {
    pub closed spec fn spec_sample_rate(&self) -> u32 {
        self.sample_rate
    }

    pub closed spec fn spec_channels(&self) -> u16 {
        self.channels
    }

    pub closed spec fn spec_chunk_frames(&self) -> u32 {
        self.chunk_frames
    }

    pub closed spec fn spec_next_timestamp_us(&self) -> u64 {
        self.next_timestamp_us
    }

    /// Microseconds covered by one chunk.
    pub open spec fn spec_chunk_us(&self) -> int {
        (self.spec_chunk_frames() as int) * 1_000_000 / (self.spec_sample_rate() as int)
    }

    /// A capture always has a sample rate, channels and a chunk size.
    #[verifier::type_invariant]
    closed spec fn wf(self) -> bool {
        self.sample_rate > 0 && self.channels > 0 && self.chunk_frames > 0
    }

    pub fn new(sample_rate: u32, channels: u16, chunk_frames: u32) -> (r: Result<
        Self,
        AudioConfigError,
    >)
        ensures
            sample_rate == 0 ==> r == Err::<Self, AudioConfigError>(
                AudioConfigError::ZeroSampleRate,
            ),
            sample_rate > 0 && channels == 0 ==> r == Err::<Self, AudioConfigError>(
                AudioConfigError::ZeroChannels,
            ),
            sample_rate > 0 && channels > 0 && chunk_frames == 0 ==> r == Err::<
                Self,
                AudioConfigError,
            >(AudioConfigError::ZeroChunkFrames),
            r is Ok <==> sample_rate > 0 && channels > 0 && chunk_frames > 0,
            r matches Ok(c) ==> c.spec_sample_rate() == sample_rate
                && c.spec_channels() == channels && c.spec_chunk_frames() == chunk_frames
                && c.spec_next_timestamp_us() == 0,
    {
        if sample_rate == 0 {
            return Err(AudioConfigError::ZeroSampleRate);
        }
        if channels == 0 {
            return Err(AudioConfigError::ZeroChannels);
        }
        if chunk_frames == 0 {
            return Err(AudioConfigError::ZeroChunkFrames);
        }
        Ok(SilenceAudioCapture { sample_rate, channels, chunk_frames, next_timestamp_us: 0 })
    }

    /// Timestamp (µs) of the next chunk.
    pub fn next_timestamp_us(&self) -> (r: u64)
        ensures
            r == self.spec_next_timestamp_us(),
    {
        self.next_timestamp_us
    }

    /// Duration (µs, truncated) of one chunk.
    pub fn chunk_duration_us(&self) -> (r: u64)
        ensures
            r == self.spec_chunk_us(),
    {
        proof {
            use_type_invariant(self);
        }
        ((self.chunk_frames as u64) * 1_000_000) / (self.sample_rate as u64)
    }

    /// The next chunk: stamped with the running timestamp, which then advances by one chunk.
    pub fn next_chunk(&mut self) -> (r: SilenceChunk)
        requires
            old(self).spec_next_timestamp_us() + old(self).spec_chunk_us() <= u64::MAX,
        ensures
            r == (SilenceChunk {
                timestamp_us: old(self).spec_next_timestamp_us(),
                sample_rate: old(self).spec_sample_rate(),
                channels: old(self).spec_channels(),
                sample_count: ((old(self).spec_chunk_frames() as int) * (
                old(self).spec_channels() as int)) as u64,
            }),
            final(self).spec_next_timestamp_us() == old(self).spec_next_timestamp_us() + old(self).spec_chunk_us(),
            final(self).spec_sample_rate() == old(self).spec_sample_rate(),
            final(self).spec_channels() == old(self).spec_channels(),
            final(self).spec_chunk_frames() == old(self).spec_chunk_frames(),
            silence_step(*old(self), *final(self)),
    {
        proof {
            use_type_invariant(&*self);
            assert((self.chunk_frames as int) * (self.channels as int) <= (u32::MAX as int) * (
            u16::MAX as int)) by (nonlinear_arith);
        }
        let sample_count = (self.chunk_frames as u64) * (self.channels as u64);
        let chunk = SilenceChunk {
            timestamp_us: self.next_timestamp_us,
            sample_rate: self.sample_rate,
            channels: self.channels,
            sample_count,
        };
        let step = ((self.chunk_frames as u64) * 1_000_000) / (self.sample_rate as u64);
        self.next_timestamp_us = self.next_timestamp_us + step;
        chunk
    }
}

/// One call of [`SilenceAudioCapture::next_chunk`] takes `a` to `b`: same format, the timestamp
/// one chunk later.
pub open spec fn silence_step(a: SilenceAudioCapture, b: SilenceAudioCapture) -> bool {
    &&& b.spec_sample_rate() == a.spec_sample_rate()
    &&& b.spec_channels() == a.spec_channels()
    &&& b.spec_chunk_frames() == a.spec_chunk_frames()
    &&& b.spec_next_timestamp_us() == a.spec_next_timestamp_us() + a.spec_chunk_us()
}

/// A fresh silence source (timestamp 0) after `k` chunks is stamped `k` chunk durations later:
/// the chunk of call `k` carries timestamp `k * chunk_us`.
pub proof fn law_silence_timestamps(caps: Seq<SilenceAudioCapture>)
    requires
        caps.len() > 0,
        caps[0].spec_next_timestamp_us() == 0,
        forall|i: int| 0 <= i < caps.len() - 1 ==> #[trigger] silence_step(caps[i], caps[i + 1]),
    ensures
        forall|k: int|
            0 <= k < caps.len() ==> #[trigger] caps[k].spec_next_timestamp_us() == k
                * caps[0].spec_chunk_us() && caps[k].spec_chunk_us() == caps[0].spec_chunk_us(),
    decreases caps.len(),
{
    if caps.len() > 1 {
        let front = caps.drop_last();
        assert forall|i: int| 0 <= i < front.len() - 1 implies #[trigger] silence_step(
            front[i],
            front[i + 1],
        ) by {
            assert(silence_step(caps[i], caps[i + 1]));
        }
        law_silence_timestamps(front);
        let n = caps.len() - 1;
        assert(front[n - 1] == caps[n - 1]);
        let m = n - 1;
        assert(silence_step(caps[m], caps[m + 1]));
        assert(caps[m + 1] == caps[n]);
        assert(caps[n - 1].spec_next_timestamp_us() == (n - 1) * caps[0].spec_chunk_us());
        assert((n - 1) * caps[0].spec_chunk_us() + caps[0].spec_chunk_us() == n
            * caps[0].spec_chunk_us()) by (nonlinear_arith);
        assert forall|k: int| 0 <= k < caps.len() implies #[trigger] caps[k].spec_next_timestamp_us()
            == k * caps[0].spec_chunk_us() && caps[k].spec_chunk_us() == caps[0].spec_chunk_us() by {
            if k < n {
                assert(front[k] == caps[k]);
            }
        }
    }
}

/// Whole frames a front trim drops from `len` interleaved samples of `channels` channels when
/// `skip` frames are owed: all it can, up to `skip`.
pub open spec fn spec_trim_take(len: nat, channels: u16, skip: u64) -> int {
    let n = len as int;
    let ch = channels as int;
    if ch == 0 || n == 0 || skip == 0 {
        0
    } else if (skip as usize) < n / ch {
        (skip as usize) as int
    } else {
        n / ch
    }
}

/// Drop up to `*skip_frames` whole frames (one sample per channel) from the front of
/// `samples`; returns how many frames were dropped and deducts them from `*skip_frames`.
pub fn trim_interleaved_frames_front<T>(
    samples: &mut Vec<T>,
    channels: u16,
    skip_frames: &mut u64,
) -> (r: u64)
    ensures
        r == spec_trim_take(old(samples)@.len(), channels, *old(skip_frames)),
        final(samples)@ == old(samples)@.skip(r * channels),
        *final(skip_frames) == *old(skip_frames) - r,
{
    let ch = channels as usize;
    if ch == 0 || samples.len() == 0 || *skip_frames == 0 {
        return 0;
    }
    let available_frames = samples.len() / ch;
    let sk = *skip_frames;
    let want = #[verifier::truncate] (sk as usize);
    assert(want <= sk) by (bit_vector)
        requires
            want == sk as usize,
    ;
    let take: usize = if want < available_frames {
        want
    } else {
        available_frames
    };
    proof {
        vstd::arithmetic::div_mod::lemma_fundamental_div_mod(samples.len() as int, ch as int);
        assert((take as int) * (ch as int) <= (available_frames as int) * (ch as int))
            by (nonlinear_arith)
            requires
                take <= available_frames,
        ;
        assert((available_frames as int) * (ch as int) <= samples.len()) by (nonlinear_arith)
            requires
                samples.len() == ch * available_frames + samples.len() % ch,
                samples.len() % ch >= 0,
        ;
    }
    if take > 0 {
        let ghost s0 = samples@;
        assert(s0 == old(samples)@);
        let tail = samples.split_off(take * ch);
        assert(tail@ =~= s0.skip(take * ch));
        *samples = tail;
        assert(samples@ == s0.skip(take * ch));
        *skip_frames = *skip_frames - take as u64;
    } else {
        assert(take * ch == 0) by (nonlinear_arith)
            requires
                take == 0,
        ;
        assert(samples@.skip(0) =~= samples@);
    }
    take as u64
}

/// `n` copies of `x`.
pub open spec fn repeat<T>(x: T, n: nat) -> Seq<T> {
    Seq::new(n, |_i: int| x)
}

/// Whole silent frames a prepend inserts when `pending` are owed: up to 48 000 per call (none
/// without channels).
pub open spec fn spec_prepend_take(channels: u16, pending: u64) -> int {
    if pending == 0 || channels == 0 {
        0
    } else if (pending as usize) < 48_000 {
        (pending as usize) as int
    } else {
        48_000
    }
}

/// Prepend up to 48 000 whole frames of `silence` (of the `*pending_frames` still owed) to
/// `samples`; returns how many frames were prepended and deducts them from `*pending_frames`.
pub fn prepend_silence_frames_front<T: Copy>(
    samples: &mut Vec<T>,
    channels: u16,
    pending_frames: &mut u64,
    silence: T,
) -> (r: u64)
    requires
        (channels as int) * 48_000 + old(samples)@.len() <= usize::MAX,
    ensures
        r == spec_prepend_take(channels, *old(pending_frames)),
        final(samples)@ == repeat(silence, (r * channels) as nat) + old(samples)@,
        *final(pending_frames) == *old(pending_frames) - r,
{
    let ch = channels as usize;
    if *pending_frames == 0 || ch == 0 {
        assert(repeat(silence, 0) + samples@ =~= samples@);
        return 0;
    }
    let pf = *pending_frames;
    let p = #[verifier::truncate] (pf as usize);
    assert(p <= pf) by (bit_vector)
        requires
            p == pf as usize,
    ;
    let take: usize = if p < 48_000 {
        p
    } else {
        48_000
    };
    proof {
        assert((take as int) * (ch as int) <= 48_000 * (ch as int)) by (nonlinear_arith)
            requires
                take <= 48_000,
        ;
    }
    let n = take * ch;
    let mut prefix: Vec<T> = Vec::new();
    let mut i: usize = 0;
    while i < n
        invariant
            i <= n,
            prefix@ == repeat(silence, i as nat),
        decreases n - i,
    {
        prefix.push(silence);
        i += 1;
        assert(prefix@ =~= repeat(silence, i as nat));
    }
    prefix.append(samples);
    *samples = prefix;
    *pending_frames = *pending_frames - take as u64;
    take as u64
}

/// Trimming as many frames as a prepend of silence inserted removes exactly that silence: with
/// `p <= 48 000` frames owed, the prepend inserts all `p`, and a trim owed `p` frames drops all `p`
/// and gives the original samples back.
pub proof fn law_trim_undoes_prepend<T>(s0: Seq<T>, channels: u16, p: u64, silence: T)
    requires
        channels > 0,
        p <= 48_000,
    ensures
        spec_prepend_take(channels, p) == p,
        spec_trim_take((repeat(silence, (p * channels) as nat) + s0).len(), channels, p) == p,
        (repeat(silence, (p * channels) as nat) + s0).skip(p * channels) == s0,
{
    let ch = channels as int;
    let padded = repeat(silence, (p * channels) as nat) + s0;
    assert(padded.len() == p * ch + s0.len());
    assert((p * ch + s0.len()) / ch >= p) by (nonlinear_arith)
        requires
            ch > 0,
            p >= 0,
            s0.len() >= 0,
    ;
    assert(padded.skip(p * channels) =~= s0);
}

/// Fixed-size frame queue in front of a frame-based encoder: samples are appended as they arrive
/// and leave in whole frames of `frame_len` samples, in arrival order.
pub struct PcmFrameQueue<T> {
    pending: Vec<T>,
    frame_len: usize,
}

impl<T: Copy> PcmFrameQueue<T> {
    /// Samples waiting for a full frame, oldest first.
    pub closed spec fn pending(&self) -> Seq<T> {
        self.pending@
    }

    pub closed spec fn spec_frame_len(&self) -> nat {
        self.frame_len as nat
    }

    /// Queue for frames of `frame_len` samples.
    pub fn new(frame_len: usize) -> (r: Self)
        requires
            frame_len > 0,
        ensures
            r.pending() == Seq::<T>::empty(),
            r.spec_frame_len() == frame_len,
    {
        PcmFrameQueue { pending: Vec::new(), frame_len }
    }

    pub fn frame_len(&self) -> (r: usize)
        ensures
            r == self.spec_frame_len(),
    {
        self.frame_len
    }

    pub fn pending_len(&self) -> (r: usize)
        ensures
            r == self.pending().len(),
    {
        self.pending.len()
    }

    /// Append samples behind those already waiting.
    pub fn push_samples(&mut self, samples: &[T])
        ensures
            final(self).pending() == old(self).pending() + samples@,
            final(self).spec_frame_len() == old(self).spec_frame_len(),
    {
        let mut k: usize = 0;
        while k < samples.len()
            invariant
                k <= samples.len(),
                self.frame_len == old(self).frame_len,
                self.pending@ == old(self).pending@ + samples@.subrange(0, k as int),
            decreases samples.len() - k,
        {
            self.pending.push(samples[k]);
            k += 1;
            assert(self.pending@ =~= old(self).pending@ + samples@.subrange(0, k as int));
        }
        assert(samples@.subrange(0, samples.len() as int) =~= samples@);
    }

    /// The oldest full frame, if one is waiting.
    pub fn pop_frame(&mut self) -> (r: Option<Vec<T>>)
        ensures
            final(self).spec_frame_len() == old(self).spec_frame_len(),
            old(self).pending().len() < old(self).spec_frame_len() ==> r is None && final(self).pending() == old(self).pending(),
            old(self).pending().len() >= old(self).spec_frame_len() ==> (r matches Some(f) && f@
                == old(self).pending().take(old(self).spec_frame_len() as int) && final(self).pending() == old(self).pending().skip(old(self).spec_frame_len() as int)
                && f@ + final(self).pending() == old(self).pending()),
    {
        if self.pending.len() < self.frame_len {
            return None;
        }
        let ghost p0 = self.pending@;
        let mut frame = self.pending.split_off(self.frame_len);
        assert(frame@ =~= p0.skip(self.frame_len as int));
        std::mem::swap(&mut frame, &mut self.pending);
        assert(frame@ =~= p0.take(self.frame_len as int));
        assert(frame@ + self.pending@ =~= p0);
        Some(frame)
    }

    /// Pad a partial frame with `silence` up to a full frame (no change when nothing waits or a
    /// full frame already waits).
    pub fn pad_partial_frame(&mut self, silence: T)
        ensures
            final(self).spec_frame_len() == old(self).spec_frame_len(),
            (old(self).pending().len() == 0 || old(self).pending().len() >= old(self).spec_frame_len()) ==> final(self).pending() == old(self).pending(),
            (0 < old(self).pending().len() < old(self).spec_frame_len()) ==> final(self).pending() == old(self).pending() + repeat(
                silence,
                (old(self).spec_frame_len() - old(self).pending().len()) as nat,
            ),
    {
        if self.pending.len() == 0 || self.pending.len() >= self.frame_len {
            return;
        }
        let ghost start = self.pending@;
        while self.pending.len() < self.frame_len
            invariant
                self.frame_len == old(self).frame_len,
                start == old(self).pending@,
                start.len() <= self.pending.len() <= self.frame_len,
                self.pending@ == start + repeat(silence, (self.pending.len() - start.len()) as nat),
            decreases self.frame_len - self.pending.len(),
        {
            self.pending.push(silence);
            assert(self.pending@ =~= start + repeat(
                silence,
                (self.pending.len() - start.len()) as nat,
            ));
        }
    }

    /// Discard whatever waits.
    pub fn clear(&mut self)
        ensures
            final(self).pending() == Seq::<T>::empty(),
            final(self).spec_frame_len() == old(self).spec_frame_len(),
    {
        self.pending.clear();
    }
}

/// Whether `sample_rate` is an accepted encoder input rate (44 100 or 48 000 Hz).
pub open spec fn supported_input_rate(sample_rate: u32) -> bool {
    sample_rate == 44_100 || sample_rate == 48_000
}

/// PCM16 input format of the AAC-LC encoder.
#[derive(Clone, Copy, Debug, PartialEq, Eq, Structural)]
pub struct AacInputFormat {
    pub sample_rate: u32,
    pub channels: u16,
    pub bits_per_sample: u32,
    pub block_alignment: u32,
    pub avg_bytes_per_second: u32,
    /// PCM frames per access unit.
    pub frame_samples: u32,
}

/// Validate an AAC-LC configuration and derive its PCM16 input format.
pub fn aac_input_format(sample_rate: u32, channels: u16) -> (r: Result<
    AacInputFormat,
    AudioConfigError,
>)
    ensures
        !supported_input_rate(sample_rate) ==> r == Err::<AacInputFormat, AudioConfigError>(
            AudioConfigError::UnsupportedSampleRate,
        ),
        supported_input_rate(sample_rate) && !(channels == 1 || channels == 2) ==> r == Err::<
            AacInputFormat,
            AudioConfigError,
        >(AudioConfigError::UnsupportedChannels),
        supported_input_rate(sample_rate) && (channels == 1 || channels == 2) ==> r == Ok::<
            AacInputFormat,
            AudioConfigError,
        >(
            AacInputFormat {
                sample_rate,
                channels,
                bits_per_sample: 16,
                block_alignment: (channels * 2) as u32,
                avg_bytes_per_second: (sample_rate * channels * 2) as u32,
                frame_samples: 1024,
            },
        ),
{
    if !(sample_rate == 44_100 || sample_rate == 48_000) {
        return Err(AudioConfigError::UnsupportedSampleRate);
    }
    if !(channels == 1 || channels == 2) {
        return Err(AudioConfigError::UnsupportedChannels);
    }
    let block_alignment = (channels as u32) * 2;
    Ok(
        AacInputFormat {
            sample_rate,
            channels,
            bits_per_sample: 16,
            block_alignment,
            avg_bytes_per_second: sample_rate * block_alignment,
            frame_samples: 1024,
        },
    )
}

/// Duration of `frame_samples` PCM frames in 100-ns units (saturating).
pub fn pcm_frame_duration_hns(frame_samples: u32, sample_rate: u32) -> (r: i64)
    requires
        sample_rate > 0,
    ensures
        r == (frame_samples as int) * 10_000_000 / (sample_rate as int),
{
    proof {
        assert((frame_samples as int) * 10_000_000 <= (u32::MAX as int) * 10_000_000)
            by (nonlinear_arith);
    }
    ((frame_samples as i64) * 10_000_000) / (sample_rate as i64)
}

/// Opus channel layout.
#[derive(Clone, Copy, Debug, PartialEq, Eq, Structural)]
pub enum OpusChannels {
    Mono,
    Stereo,
}

/// Samples per channel in one 20 ms Opus frame at 48 kHz.
pub const OPUS_SAMPLES_PER_CHANNEL_FRAME_48K: u32 = 960;

/// Opus channel layout for `channels` (mono or stereo only).
pub fn opus_channels(channels: u16) -> (r: Result<OpusChannels, AudioConfigError>)
    ensures
        channels == 1 ==> r == Ok::<OpusChannels, AudioConfigError>(OpusChannels::Mono),
        channels == 2 ==> r == Ok::<OpusChannels, AudioConfigError>(OpusChannels::Stereo),
        channels != 1 && channels != 2 ==> r == Err::<OpusChannels, AudioConfigError>(
            AudioConfigError::UnsupportedChannels,
        ),
{
    if channels == 1 {
        Ok(OpusChannels::Mono)
    } else if channels == 2 {
        Ok(OpusChannels::Stereo)
    } else {
        Err(AudioConfigError::UnsupportedChannels)
    }
}

/// Validate an Opus encoder input: 44 100 or 48 000 Hz, mono or stereo.
pub fn opus_input_check(input_sample_rate: u32, channels: u16) -> (r: Result<
    OpusChannels,
    AudioConfigError,
>)
    ensures
        !supported_input_rate(input_sample_rate) ==> r == Err::<OpusChannels, AudioConfigError>(
            AudioConfigError::UnsupportedSampleRate,
        ),
        supported_input_rate(input_sample_rate) ==> r == (if channels == 1 {
            Ok::<OpusChannels, AudioConfigError>(OpusChannels::Mono)
        } else if channels == 2 {
            Ok::<OpusChannels, AudioConfigError>(OpusChannels::Stereo)
        } else {
            Err::<OpusChannels, AudioConfigError>(AudioConfigError::UnsupportedChannels)
        }),
{
    if !(input_sample_rate == 44_100 || input_sample_rate == 48_000) {
        return Err(AudioConfigError::UnsupportedSampleRate);
    }
    opus_channels(channels)
}

/// Samples (all channels) in one Opus frame.
pub fn opus_frame_len(channels: usize) -> (r: usize)
    ensures
        r == clamp_max(960 * channels, usize::MAX as int),
{
    match 960usize.checked_mul(channels) {
        Some(v) => v,
        None => usize::MAX,
    }
}

/// How a capture-rate chunk reaches the 48 kHz Opus timeline.
#[derive(Clone, Copy, Debug, PartialEq, Eq, Structural)]
pub enum OpusResample {
    /// Already 48 kHz.
    Passthrough,
    /// Linear interpolation from 44.1 kHz.
    From44100,
}

/// Resampling needed for a chunk captured at `rate`.
pub fn opus_resample_plan(rate: u32) -> (r: Result<OpusResample, AudioConfigError>)
    ensures
        rate == 48_000 ==> r == Ok::<OpusResample, AudioConfigError>(OpusResample::Passthrough),
        rate == 44_100 ==> r == Ok::<OpusResample, AudioConfigError>(OpusResample::From44100),
        rate != 48_000 && rate != 44_100 ==> r == Err::<OpusResample, AudioConfigError>(
            AudioConfigError::UnsupportedSampleRate,
        ),
{
    if rate == 48_000 {
        Ok(OpusResample::Passthrough)
    } else if rate == 44_100 {
        Ok(OpusResample::From44100)
    } else {
        Err(AudioConfigError::UnsupportedSampleRate)
    }
}

/// Output frames of a linear resample: `round(frames_in * out_rate / in_rate)` (halves up).
pub fn resampled_frame_count(frames_in: usize, in_rate: u32, out_rate: u32) -> (r: u64)
    requires
        in_rate > 0,
    ensures
        r == (((frames_in as int) * (out_rate as int) + (in_rate as int) / 2) / (
        in_rate as int)) as u64,
{
    proof {
        assert((frames_in as int) * (out_rate as int) <= (usize::MAX as int) * (u32::MAX as int))
            by (nonlinear_arith);
    }
    (((frames_in as u128) * (out_rate as u128) + (in_rate as u128) / 2) / (in_rate as u128))
        as u64
}

/// One encoded audio packet.
pub struct EncodedAudioPacket {
    pub timestamp_us: u64,
    pub sample_rate: u32,
    pub channels: u16,
    pub data: Vec<u8>,
}

/// Little-endian bytes of a 32-bit value.
pub open spec fn le32(x: u32) -> Seq<u8> {
    seq![x as u8, (x >> 8u32) as u8, (x >> 16u32) as u8, (x >> 24u32) as u8]
}

/// Little-endian bytes of a 16-bit value.
pub open spec fn le16(x: u16) -> Seq<u8> {
    seq![x as u8, (x >> 8u16) as u8]
}

/// Little-endian bytes of each sample, in order.
pub open spec fn le32_all(samples: Seq<u32>) -> Seq<u8>
    decreases samples.len(),
{
    if samples.len() == 0 {
        Seq::empty()
    } else {
        le32_all(samples.drop_last()) + le32(samples.last())
    }
}

fn push_le32(v: &mut Vec<u8>, x: u32)
    ensures
        final(v)@ == old(v)@ + le32(x),
{
    v.push(x as u8);
    v.push((x >> 8u32) as u8);
    v.push((x >> 16u32) as u8);
    v.push((x >> 24u32) as u8);
    assert(v@ =~= old(v)@ + le32(x));
}

fn push_le16(v: &mut Vec<u8>, x: u16)
    ensures
        final(v)@ == old(v)@ + le16(x),
{
    v.push(x as u8);
    v.push((x >> 8u16) as u8);
    assert(v@ =~= old(v)@ + le16(x));
}

/// Placeholder encoder without compression: each 32-bit sample (the bit pattern of a float
/// sample) becomes its four little-endian bytes.
pub struct PcmPassthroughEncoder;

impl PcmPassthroughEncoder {
    /// One packet holding the chunk's samples as little-endian bytes.
    pub fn encode_chunk_bits(
        &self,
        timestamp_us: u64,
        sample_rate: u32,
        channels: u16,
        sample_bits: &[u32],
    ) -> (r: Vec<EncodedAudioPacket>)
        ensures
            r.len() == 1,
            r[0].timestamp_us == timestamp_us,
            r[0].sample_rate == sample_rate,
            r[0].channels == channels,
            r[0].data@ == le32_all(sample_bits@),
    {
        let mut bytes: Vec<u8> = Vec::new();
        let mut k: usize = 0;
        while k < sample_bits.len()
            invariant
                k <= sample_bits.len(),
                bytes@ == le32_all(sample_bits@.subrange(0, k as int)),
            decreases sample_bits.len() - k,
        {
            push_le32(&mut bytes, sample_bits[k]);
            k += 1;
            assert(sample_bits@.subrange(0, k as int).drop_last() =~= sample_bits@.subrange(
                0,
                k - 1,
            ));
        }
        assert(sample_bits@.subrange(0, sample_bits.len() as int) =~= sample_bits@);
        let mut out: Vec<EncodedAudioPacket> = Vec::new();
        out.push(EncodedAudioPacket { timestamp_us, sample_rate, channels, data: bytes });
        out
    }
}

/// PCM16 WAV format (the header is written once the data size is known).
#[derive(Clone, Copy, Debug, PartialEq, Eq, Structural)]
pub struct WavFormat {
    pub sample_rate: u32,
    pub channels: u16,
}

/// The 44-byte RIFF/WAVE header of a PCM16 file with `data_bytes` bytes of samples.
pub open spec fn spec_wav_header(sample_rate: u32, channels: u16, data_bytes: u32) -> Seq<u8> {
    let block_align = (channels * 2) as u16;
    let byte_rate = (sample_rate * block_align) as u32;
    let riff_size = clamp_max(36 + data_bytes, u32::MAX as int) as u32;
    seq![0x52u8, 0x49, 0x46, 0x46] + le32(riff_size) + seq![0x57u8, 0x41, 0x56, 0x45] + seq![
        0x66u8,
        0x6d,
        0x74,
        0x20,
    ] + le32(16) + le16(1) + le16(channels) + le32(sample_rate) + le32(byte_rate) + le16(
        block_align,
    ) + le16(16) + seq![0x64u8, 0x61, 0x74, 0x61] + le32(data_bytes)
}

/// The little-endian 32-bit value stored at `s[i..i + 4]`.
pub open spec fn le32_value_at(s: Seq<u8>, i: int) -> int {
    s[i] + 0x100 * s[i + 1] + 0x1_0000 * s[i + 2] + 0x100_0000 * s[i + 3]
}

/// The little-endian 16-bit value stored at `s[i..i + 2]`.
pub open spec fn le16_value_at(s: Seq<u8>, i: int) -> int {
    s[i] + 0x100 * s[i + 1]
}

proof fn lemma_le32_value(x: u32)
    ensures
        le32_value_at(le32(x), 0) == x,
{
    let b0 = x as u8;
    let b1 = (x >> 8u32) as u8;
    let b2 = (x >> 16u32) as u8;
    let b3 = (x >> 24u32) as u8;
    assert(b0 + 0x100 * b1 + 0x1_0000 * b2 + 0x100_0000 * b3 == x) by (bit_vector)
        requires
            b0 == x as u8,
            b1 == (x >> 8u32) as u8,
            b2 == (x >> 16u32) as u8,
            b3 == (x >> 24u32) as u8,
    ;
}

proof fn lemma_le16_value(x: u16)
    ensures
        le16_value_at(le16(x), 0) == x,
{
    let b0 = x as u8;
    let b1 = (x >> 8u16) as u8;
    assert(b0 + 0x100 * b1 == x) by (bit_vector)
        requires
            b0 == x as u8,
            b1 == (x >> 8u16) as u8,
    ;
}

/// The PCM16 WAV header, field by field: `RIFF`, the RIFF size (`36 + data_bytes`, saturated),
/// `WAVE`, a 16-byte `fmt ` chunk holding format 1 (PCM), the channel count, the sample rate
/// (bytes 24..28), the byte rate `sample_rate * channels * 2`, the block align `channels * 2` and
/// 16 bits per sample, then `data` and the data size.
pub proof fn law_wav_header_fields(sample_rate: u32, channels: u16, data_bytes: u32)
    requires
        channels * 2 <= u16::MAX,
        sample_rate * (channels * 2) <= u32::MAX,
    ensures
        ({
            let h = spec_wav_header(sample_rate, channels, data_bytes);
            &&& h.len() == 44
            &&& h.subrange(0, 4) == seq![0x52u8, 0x49, 0x46, 0x46]
            &&& le32_value_at(h, 4) == if 36 + data_bytes > u32::MAX {
                u32::MAX as int
            } else {
                36 + data_bytes
            }
            &&& h.subrange(8, 16) == seq![0x57u8, 0x41, 0x56, 0x45, 0x66, 0x6d, 0x74, 0x20]
            &&& le32_value_at(h, 16) == 16
            &&& le16_value_at(h, 20) == 1
            &&& le16_value_at(h, 22) == channels
            &&& le32_value_at(h, 24) == sample_rate
            &&& le32_value_at(h, 28) == sample_rate * channels * 2
            &&& le16_value_at(h, 32) == channels * 2
            &&& le16_value_at(h, 34) == 16
            &&& h.subrange(36, 40) == seq![0x64u8, 0x61, 0x74, 0x61]
            &&& le32_value_at(h, 40) == data_bytes
        }),
{
    let h = spec_wav_header(sample_rate, channels, data_bytes);
    let block_align = (channels * 2) as u16;
    let byte_rate = (sample_rate * block_align) as u32;
    let riff_size = clamp_max(36 + data_bytes, u32::MAX as int) as u32;
    assert(block_align == channels * 2);
    assert(byte_rate == sample_rate * channels * 2) by (nonlinear_arith)
        requires
            block_align == channels * 2,
            byte_rate == sample_rate * block_align,
    ;
    lemma_le32_value(riff_size);
    lemma_le32_value(16);
    lemma_le16_value(1);
    lemma_le16_value(channels);
    lemma_le32_value(sample_rate);
    lemma_le32_value(byte_rate);
    lemma_le16_value(block_align);
    lemma_le16_value(16);
    lemma_le32_value(data_bytes);
    assert(h.subrange(4, 8) =~= le32(riff_size));
    assert(h.subrange(16, 20) =~= le32(16));
    assert(h.subrange(20, 22) =~= le16(1));
    assert(h.subrange(22, 24) =~= le16(channels));
    assert(h.subrange(24, 28) =~= le32(sample_rate));
    assert(h.subrange(28, 32) =~= le32(byte_rate));
    assert(h.subrange(32, 34) =~= le16(block_align));
    assert(h.subrange(34, 36) =~= le16(16));
    assert(h.subrange(40, 44) =~= le32(data_bytes));
    assert(h.subrange(0, 4) =~= seq![0x52u8, 0x49, 0x46, 0x46]);
    assert(h.subrange(8, 16) =~= seq![0x57u8, 0x41, 0x56, 0x45, 0x66, 0x6d, 0x74, 0x20]);
    assert(h.subrange(36, 40) =~= seq![0x64u8, 0x61, 0x74, 0x61]);
}

impl WavFormat {
    pub fn new(sample_rate: u32, channels: u16) -> (r: Result<Self, AudioConfigError>)
        ensures
            sample_rate == 0 ==> r == Err::<Self, AudioConfigError>(
                AudioConfigError::ZeroSampleRate,
            ),
            sample_rate > 0 && channels == 0 ==> r == Err::<Self, AudioConfigError>(
                AudioConfigError::ZeroChannels,
            ),
            sample_rate > 0 && channels > 0 ==> r == Ok::<Self, AudioConfigError>(
                WavFormat { sample_rate, channels },
            ),
    {
        if sample_rate == 0 {
            return Err(AudioConfigError::ZeroSampleRate);
        }
        if channels == 0 {
            return Err(AudioConfigError::ZeroChannels);
        }
        Ok(WavFormat { sample_rate, channels })
    }

    /// Data size after `old_bytes` plus `samples` more 16-bit samples (saturating).
    pub fn data_bytes_after(old_bytes: u32, samples: usize) -> (r: u32)
        ensures
            r == clamp_max(old_bytes + 2 * samples, u32::MAX as int),
    {
        let add: u64 = if samples as u64 > u32::MAX as u64 {
            u32::MAX as u64
        } else {
            samples as u64
        };
        let total: u64 = old_bytes as u64 + 2 * add;
        if total > u32::MAX as u64 {
            u32::MAX
        } else {
            total as u32
        }
    }

    /// The file header for `data_bytes` bytes of PCM16 samples.
    pub fn header(&self, data_bytes: u32) -> (r: Vec<u8>)
        requires
            self.channels * 2 <= u16::MAX,
            self.sample_rate * (self.channels * 2) <= u32::MAX,
        ensures
            r@ == spec_wav_header(self.sample_rate, self.channels, data_bytes),
            r@.len() == 44,
    {
        let block_align: u16 = self.channels * 2;
        let byte_rate: u32 = self.sample_rate * (block_align as u32);
        let riff_size: u32 = 36u32.saturating_add(data_bytes);
        let mut h: Vec<u8> = Vec::new();
        h.push(0x52);
        h.push(0x49);
        h.push(0x46);
        h.push(0x46);
        assert(h@ =~= seq![0x52u8, 0x49, 0x46, 0x46]);
        push_le32(&mut h, riff_size);
        let ghost h1 = h@;
        h.push(0x57);
        h.push(0x41);
        h.push(0x56);
        h.push(0x45);
        h.push(0x66);
        h.push(0x6d);
        h.push(0x74);
        h.push(0x20);
        assert(h@ =~= h1 + seq![0x57u8, 0x41, 0x56, 0x45] + seq![0x66u8, 0x6d, 0x74, 0x20]);
        let ghost h2 = h@;
        push_le32(&mut h, 16);
        push_le16(&mut h, 1);
        push_le16(&mut h, self.channels);
        push_le32(&mut h, self.sample_rate);
        push_le32(&mut h, byte_rate);
        push_le16(&mut h, block_align);
        push_le16(&mut h, 16);
        let ghost h3 = h@;
        h.push(0x64);
        h.push(0x61);
        h.push(0x74);
        h.push(0x61);
        push_le32(&mut h, data_bytes);
        assert(h@ =~= h3 + seq![0x64u8, 0x61, 0x74, 0x61] + le32(data_bytes));
        assert(h@ =~= spec_wav_header(self.sample_rate, self.channels, data_bytes));
        h
    }
}

} // verus!
