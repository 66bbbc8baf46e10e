//! Bookkeeping of a recording run: the MP4 video and AAC timelines, the audio trim/pad owed to
//! keep them aligned, stream delivery under the backpressure policy, and the run counters.
//!
//! The host's capture loop does the outside work (capture, encode, file and channel I/O) and
//! hands each outcome to a [`RecordingTimeline`] method, which decides what comes next.

use vstd::prelude::*;

use crossbeam_channel::Sender;

use crate::arith::clamp_max;
use crate::audio::{
    prepend_silence_frames_front, repeat, spec_prepend_take, spec_trim_take,
    trim_interleaved_frames_front,
};
use crate::events::RunStats;
use crate::settings::StreamBackpressure;
use crate::stage_queue::{channel_send, channel_try_send, TrySendRefusal};
use crate::timing::{
    audio_unit_timestamp_us, capture_continues, reconcile_mux_av_drift, sample_placement,
    spec_reconcile, spec_sample_placement, ts_us_to_pcm_frames,
    DriftCorrection, SamplePlacement,
};

verus! {

/// What became of one packet offered to a stream consumer.
#[derive(Clone, Copy, Debug, PartialEq, Eq, Structural)]
pub enum Delivery {
    /// Queued for the consumer.
    Sent,
    /// Dropped: the queue was full and the policy does not wait.
    DroppedFull,
    /// Dropped: the consumer is gone.
    Disconnected,
}

/// Offers `msg` to a stream consumer: `Block` waits for room in the queue, `DropWhenFull` gives
/// up at once when it is full. Which outcome comes depends on the consumer; a blocking send is
/// never dropped for a full queue.
pub fn deliver<T>(tx: &Sender<T>, msg: T, policy: StreamBackpressure) -> (r: Delivery)
    ensures
        policy == StreamBackpressure::Block ==> r != Delivery::DroppedFull,
{
    match policy {
        StreamBackpressure::Block => match channel_send(tx, msg) {
            Ok(()) => Delivery::Sent,
            Err(_) => Delivery::Disconnected,
        },
        StreamBackpressure::DropWhenFull => match channel_try_send(tx, msg) {
            Ok(()) => Delivery::Sent,
            Err(TrySendRefusal::Full(_)) => Delivery::DroppedFull,
            Err(TrySendRefusal::Disconnected(_)) => Delivery::Disconnected,
        },
    }
}

/// Whether a run starts system-audio capture at this frame: on the first frame only, when audio
/// is wanted, something consumes encoded audio (an MP4 file or a stream), and no capture runs
/// yet.
pub fn starts_audio_capture(
    first_frame: bool,
    capture_system_audio: bool,
    writes_mp4: bool,
    streams: bool,
    audio_running: bool,
) -> (r: bool)
    ensures
        r == (first_frame && capture_system_audio && (writes_mp4 || streams) && !audio_running),
{
    first_frame && capture_system_audio && (writes_mp4 || streams) && !audio_running
}

/// The state a recording run carries from frame to frame.
#[derive(Clone, Copy, Debug, PartialEq, Eq, Structural)]
pub struct RecordingTimeline {
    /// Frames captured so far.
    pub frames: u32,
    /// Timestamp of the previous frame, microseconds since the first.
    pub last_ts_us: u64,
    /// Muxed video duration, in MP4 timescale ticks.
    pub muxed_video_duration_ts: u64,
    /// Muxed AAC timeline, in PCM samples per channel.
    pub muxed_audio_samples: u64,
    /// Silence still to insert and frames still to drop from the captured audio.
    pub drift: DriftCorrection,
    /// Whether the initial audio skip (audio captured before frame 0) has been set.
    pub audio_skip_bootstrapped: bool,
    /// Interleaved PCM samples kept so far (all channels).
    pub audio_samples_total: u64,
    pub stream_video_packets_sent: u64,
    pub stream_audio_chunks_sent: u64,
    pub stream_video_packets_dropped_full: u64,
    pub stream_audio_chunks_dropped_full: u64,
}

/// A counter after one delivery: `sent` counts a sent item, `dropped` a full-queue drop.
pub open spec fn counted(sent: u64, dropped: u64, d: Delivery) -> (u64, u64) {
    match d {
        Delivery::Sent => ((sent + 1) as u64, dropped),
        Delivery::DroppedFull => (sent, (dropped + 1) as u64),
        Delivery::Disconnected => (sent, dropped),
    }
}

/// A delivery can be counted without overflow.
pub open spec fn countable(sent: u64, dropped: u64, d: Delivery) -> bool {
    match d {
        Delivery::Sent => sent < u64::MAX,
        Delivery::DroppedFull => dropped < u64::MAX,
        Delivery::Disconnected => true,
    }
}

impl RecordingTimeline {
    /// The state before the first frame: everything zero.
    pub fn new() -> (r: Self)
        ensures
            r == (RecordingTimeline {
                frames: 0,
                last_ts_us: 0,
                muxed_video_duration_ts: 0,
                muxed_audio_samples: 0,
                drift: DriftCorrection { pending_silence_pcm_frames: 0, pending_audio_frame_skip: 0 },
                audio_skip_bootstrapped: false,
                audio_samples_total: 0,
                stream_video_packets_sent: 0,
                stream_audio_chunks_sent: 0,
                stream_video_packets_dropped_full: 0,
                stream_audio_chunks_dropped_full: 0,
            }),
    {
        RecordingTimeline {
            frames: 0,
            last_ts_us: 0,
            muxed_video_duration_ts: 0,
            muxed_audio_samples: 0,
            drift: DriftCorrection { pending_silence_pcm_frames: 0, pending_audio_frame_skip: 0 },
            audio_skip_bootstrapped: false,
            audio_samples_total: 0,
            stream_video_packets_sent: 0,
            stream_audio_chunks_sent: 0,
            stream_video_packets_dropped_full: 0,
            stream_audio_chunks_dropped_full: 0,
        }
    }

    /// Whether the capture loop takes another frame: not stopped, and under the frame limit
    /// (0 means unlimited).
    pub fn continues(&self, stopped: bool, frame_limit: u32) -> (r: bool)
        ensures
            r == (!stopped && (frame_limit == 0 || self.frames < frame_limit)),
    {
        capture_continues(stopped, frame_limit, self.frames)
    }

    /// Lays the frame captured at `ts_us` out on the MP4 video timeline: returns its placement,
    /// remembers `ts_us`, and adds the samples' total duration (saturating) to the muxed video
    /// duration.
    pub fn place_frame(&mut self, ts_us: u64, timescale: u32, fps: u32, cfr: bool) -> (r:
        SamplePlacement)
        requires
            fps > 0,
        ensures
            r == spec_sample_placement(old(self).frames, ts_us, old(self).last_ts_us, timescale, fps, cfr),
            *final(self) == (RecordingTimeline {
                last_ts_us: ts_us,
                muxed_video_duration_ts: clamp_max(
                    old(self).muxed_video_duration_ts + r.slot_count * r.duration_ts,
                    u64::MAX as int,
                ) as u64,
                ..*old(self)
            }),
    {
        let p = sample_placement(self.frames, ts_us, self.last_ts_us, timescale, fps, cfr);
        self.last_ts_us = ts_us;
        proof {
            assert((p.slot_count as int) * (p.duration_ts as int) <= (u32::MAX as int) * (
            u32::MAX as int)) by (nonlinear_arith);
        }
        let total: u64 = (p.slot_count as u64) * (p.duration_ts as u64);
        self.muxed_video_duration_ts = self.muxed_video_duration_ts.saturating_add(total);
        p
    }

    /// Counts one captured frame.
    pub fn frame_done(&mut self)
        requires
            old(self).frames < u32::MAX,
        ensures
            *final(self) == (RecordingTimeline { frames: (old(self).frames + 1) as u32, ..*old(self) }),
    {
        self.frames = self.frames + 1;
    }

    /// On the first call with a known sample rate, owes the audio frames captured before video
    /// frame 0 (the PCM frames in `ts_us`) as a front trim; later calls change nothing.
    pub fn bootstrap_audio_skip(&mut self, ts_us: u64, sample_rate: u32)
        ensures
            !old(self).audio_skip_bootstrapped && sample_rate > 0 ==> *final(self) == (
            RecordingTimeline {
                drift: DriftCorrection {
                    pending_audio_frame_skip: (((ts_us as int) * (sample_rate as int)
                        / 1_000_000) as u64),
                    ..old(self).drift
                },
                audio_skip_bootstrapped: true,
                ..*old(self)
            }),
            !(!old(self).audio_skip_bootstrapped && sample_rate > 0) ==> *final(self) == *old(
                self,
            ),
    {
        if !self.audio_skip_bootstrapped && sample_rate > 0 {
            self.drift.pending_audio_frame_skip = ts_us_to_pcm_frames(ts_us, sample_rate);
            self.audio_skip_bootstrapped = true;
        }
    }

    /// Applies the owed trim and silence to a captured chunk of interleaved samples: first drops
    /// owed frames from its front, then puts owed silent frames (at most 48 000) before what is
    /// left. Returns `(dropped, inserted)` frame counts and deducts them from what is owed.
    pub fn align_pcm_chunk<T: Copy>(&mut self, samples: &mut Vec<T>, channels: u16, silence: T) -> (r:
        (u64, u64))
        requires
            (channels as int) * 48_000 + old(samples)@.len() <= usize::MAX,
        ensures
            r.0 == spec_trim_take(
                old(samples)@.len(),
                channels,
                old(self).drift.pending_audio_frame_skip,
            ),
            r.1 == spec_prepend_take(channels, old(self).drift.pending_silence_pcm_frames),
            final(samples)@ == repeat(silence, (r.1 * channels) as nat) + old(samples)@.skip(
                r.0 * channels,
            ),
            *final(self) == (RecordingTimeline {
                drift: DriftCorrection {
                    pending_audio_frame_skip: (old(self).drift.pending_audio_frame_skip
                        - r.0) as u64,
                    pending_silence_pcm_frames: (old(self).drift.pending_silence_pcm_frames
                        - r.1) as u64,
                },
                ..*old(self)
            }),
    {
        let mut skip = self.drift.pending_audio_frame_skip;
        let mut pad = self.drift.pending_silence_pcm_frames;
        let ghost n0 = samples@.len();
        let trimmed = trim_interleaved_frames_front(samples, channels, &mut skip);
        proof {
            let ch = channels as int;
            if ch > 0 {
                vstd::arithmetic::div_mod::lemma_fundamental_div_mod(n0 as int, ch);
                assert((trimmed as int) * ch <= (n0 as int / ch) * ch) by (nonlinear_arith)
                    requires
                        trimmed <= n0 as int / ch,
                        ch > 0,
                ;
            }
            assert(samples@.len() <= n0);
        }
        let prepended = prepend_silence_frames_front(samples, channels, &mut pad, silence);
        self.drift.pending_audio_frame_skip = skip;
        self.drift.pending_silence_pcm_frames = pad;
        (trimmed, prepended)
    }

    /// Counts `n` kept interleaved samples.
    pub fn add_audio_samples(&mut self, n: usize)
        requires
            old(self).audio_samples_total + n <= u64::MAX,
        ensures
            *final(self) == (RecordingTimeline {
                audio_samples_total: (old(self).audio_samples_total + n) as u64,
                ..*old(self)
            }),
    {
        self.audio_samples_total = self.audio_samples_total + n as u64;
    }

    /// Muxes one encoded audio unit of `unit_samples` samples per channel (1024 for AAC-LC, 960
    /// for 20 ms of Opus at 48 kHz): returns its presentation time (µs) at the current end of
    /// the audio timeline and advances the timeline by `unit_samples` (saturating).
    pub fn next_audio_timestamp_us(&mut self, sample_rate: u32, unit_samples: u64) -> (r: u64)
        requires
            sample_rate > 0,
        ensures
            r == (((old(self).muxed_audio_samples as int) * 1_000_000 / (sample_rate as int)) as u64),
            *final(self) == (RecordingTimeline {
                muxed_audio_samples: clamp_max(
                    old(self).muxed_audio_samples + unit_samples,
                    u64::MAX as int,
                ) as u64,
                ..*old(self)
            }),
    {
        let ts = audio_unit_timestamp_us(self.muxed_audio_samples, sample_rate);
        self.muxed_audio_samples = self.muxed_audio_samples.saturating_add(unit_samples);
        ts
    }

    /// One step of the drift watchdog against the current muxed durations.
    pub fn reconcile_drift(&mut self, timescale: u32, sample_rate: u32, threshold: u64)
        ensures
            *final(self) == (RecordingTimeline {
                drift: spec_reconcile(
                    old(self).muxed_video_duration_ts,
                    old(self).muxed_audio_samples,
                    timescale,
                    sample_rate,
                    threshold,
                    old(self).drift,
                ),
                ..*old(self)
            }),
    {
        let mut pad = self.drift.pending_silence_pcm_frames;
        let mut skip = self.drift.pending_audio_frame_skip;
        reconcile_mux_av_drift(
            self.muxed_video_duration_ts,
            self.muxed_audio_samples,
            timescale,
            sample_rate,
            threshold,
            &mut pad,
            &mut skip,
        );
        self.drift = DriftCorrection { pending_silence_pcm_frames: pad, pending_audio_frame_skip: skip };
    }

    /// Whether a video delivery can be counted without overflow.
    pub fn video_delivery_countable(&self, d: Delivery) -> (r: bool)
        ensures
            r == countable(self.stream_video_packets_sent, self.stream_video_packets_dropped_full, d),
    {
        match d {
            Delivery::Sent => self.stream_video_packets_sent < u64::MAX,
            Delivery::DroppedFull => self.stream_video_packets_dropped_full < u64::MAX,
            Delivery::Disconnected => true,
        }
    }

    /// Whether an audio delivery can be counted without overflow.
    pub fn audio_delivery_countable(&self, d: Delivery) -> (r: bool)
        ensures
            r == countable(self.stream_audio_chunks_sent, self.stream_audio_chunks_dropped_full, d),
    {
        match d {
            Delivery::Sent => self.stream_audio_chunks_sent < u64::MAX,
            Delivery::DroppedFull => self.stream_audio_chunks_dropped_full < u64::MAX,
            Delivery::Disconnected => true,
        }
    }

    /// Counts the delivery of a video packet to the stream consumer.
    pub fn note_video_delivery(&mut self, d: Delivery)
        requires
            countable(old(self).stream_video_packets_sent, old(self).stream_video_packets_dropped_full, d),
        ensures
            *final(self) == (RecordingTimeline {
                stream_video_packets_sent: counted(
                    old(self).stream_video_packets_sent,
                    old(self).stream_video_packets_dropped_full,
                    d,
                ).0,
                stream_video_packets_dropped_full: counted(
                    old(self).stream_video_packets_sent,
                    old(self).stream_video_packets_dropped_full,
                    d,
                ).1,
                ..*old(self)
            }),
    {
        match d {
            Delivery::Sent => {
                self.stream_video_packets_sent = self.stream_video_packets_sent + 1;
            },
            Delivery::DroppedFull => {
                self.stream_video_packets_dropped_full = self.stream_video_packets_dropped_full + 1;
            },
            Delivery::Disconnected => {},
        }
    }

    /// Counts the delivery of an audio chunk to the stream consumer.
    pub fn note_audio_delivery(&mut self, d: Delivery)
        requires
            countable(old(self).stream_audio_chunks_sent, old(self).stream_audio_chunks_dropped_full, d),
        ensures
            *final(self) == (RecordingTimeline {
                stream_audio_chunks_sent: counted(
                    old(self).stream_audio_chunks_sent,
                    old(self).stream_audio_chunks_dropped_full,
                    d,
                ).0,
                stream_audio_chunks_dropped_full: counted(
                    old(self).stream_audio_chunks_sent,
                    old(self).stream_audio_chunks_dropped_full,
                    d,
                ).1,
                ..*old(self)
            }),
    {
        match d {
            Delivery::Sent => {
                self.stream_audio_chunks_sent = self.stream_audio_chunks_sent + 1;
            },
            Delivery::DroppedFull => {
                self.stream_audio_chunks_dropped_full = self.stream_audio_chunks_dropped_full + 1;
            },
            Delivery::Disconnected => {},
        }
    }

    /// The counters a finished run reports.
    pub fn stats(&self) -> (r: RunStats)
        ensures
            r == (RunStats {
                frames_captured: self.frames,
                audio_samples_total: self.audio_samples_total,
                stream_video_packets_sent: self.stream_video_packets_sent,
                stream_audio_chunks_sent: self.stream_audio_chunks_sent,
                stream_video_packets_dropped_full: self.stream_video_packets_dropped_full,
                stream_audio_chunks_dropped_full: self.stream_audio_chunks_dropped_full,
            }),
    {
        RunStats {
            frames_captured: self.frames,
            audio_samples_total: self.audio_samples_total,
            stream_video_packets_sent: self.stream_video_packets_sent,
            stream_audio_chunks_sent: self.stream_audio_chunks_sent,
            stream_video_packets_dropped_full: self.stream_video_packets_dropped_full,
            stream_audio_chunks_dropped_full: self.stream_audio_chunks_dropped_full,
        }
    }
}

} // verus!
