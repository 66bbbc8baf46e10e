//! Recording-loop timing: MP4 sample durations, constant-frame-rate slot counts, PCM/timestamp
//! conversions, and the audio/video drift watchdog.

use vstd::prelude::*;

use crate::arith::{clamp_max, sat_mul_u32, sat_mul_u64};

verus! {

/// Largest correction (PCM frames) the drift watchdog applies per step.
pub const DRIFT_CORRECT_MAX_STEP: u64 = 4800;

/// PCM frames per AAC-LC access unit.
pub const AAC_FRAME_SAMPLES: u64 = 1024;

/// Rounded duration in timescale ticks of `delta_us` microseconds, clamped to `1..=max_dur`
/// (to 1 when `max_dur` is 0).
pub open spec fn spec_duration_ts(delta_us: u64, timescale_hz: u32, max_dur: u32) -> u32 {
    let v = (delta_us * timescale_hz + 500_000) / 1_000_000;
    let capped = if v < max_dur {
        v
    } else {
        max_dur as int
    };
    if capped >= 1 {
        capped as u32
    } else {
        1
    }
}

/// MP4 sample duration for a wall-clock gap of `delta_us` microseconds.
pub fn duration_ts_from_delta_us(delta_us: u64, timescale_hz: u32, max_dur: u32) -> (r: u32)
    ensures
        r == spec_duration_ts(delta_us, timescale_hz, max_dur),
{
    proof {
        assert((delta_us as int) * (timescale_hz as int) <= (u64::MAX as int) * (u32::MAX as int))
            by (nonlinear_arith);
    }
    let v: u128 = ((delta_us as u128) * (timescale_hz as u128) + 500_000) / 1_000_000;
    let capped: u128 = if v < max_dur as u128 {
        v
    } else {
        max_dur as u128
    };
    if capped >= 1 {
        capped as u32
    } else {
        1
    }
}

/// Whole PCM frames elapsed at `ts_us` microseconds (truncated to 64 bits, as a `u64` cast does).
pub fn ts_us_to_pcm_frames(ts_us: u64, sample_rate: u32) -> (r: u64)
    ensures
        r == (((ts_us as int) * (sample_rate as int) / 1_000_000) as u64),
{
    proof {
        assert((ts_us as int) * (sample_rate as int) <= (u64::MAX as int) * (u32::MAX as int))
            by (nonlinear_arith);
    }
    ((ts_us as u128) * (sample_rate as u128) / 1_000_000) as u64
}

/// Timescale ticks for a wall-clock span of `micros` microseconds (clamped to `u64::MAX` first):
/// `micros * timescale / 1 000 000`, saturating, then clamped to `1..=u32::MAX`.
pub fn wall_duration_to_ts_units(micros: u128, timescale_hz: u32) -> (r: u32)
    ensures
        ({
            let m = if micros > u64::MAX {
                u64::MAX as int
            } else {
                micros as int
            };
            let v = clamp_max(m * timescale_hz, u64::MAX as int) / 1_000_000;
            let c = clamp_max(v, u32::MAX as int);
            r == if c >= 1 {
                c
            } else {
                1
            }
        }),
{
    let m: u64 = if micros > u64::MAX as u128 {
        u64::MAX
    } else {
        micros as u64
    };
    let v = sat_mul_u64(m, timescale_hz as u64) / 1_000_000;
    let c: u32 = if v > u32::MAX as u64 {
        u32::MAX
    } else {
        v as u32
    };
    if c >= 1 {
        c
    } else {
        1
    }
}

/// Whole PCM frames in a wall-clock span of `nanos` nanoseconds (clamped to `u64::MAX` first),
/// truncated to 64 bits.
pub fn wall_duration_to_pcm_frames(nanos: u128, sample_rate: u32) -> (r: u64)
    ensures
        ({
            let n = if nanos > u64::MAX {
                u64::MAX as int
            } else {
                nanos as int
            };
            r == ((n * sample_rate / 1_000_000_000) as u64)
        }),
{
    let n: u128 = if nanos > u64::MAX as u128 {
        u64::MAX as u128
    } else {
        nanos
    };
    proof {
        assert((n as int) * (sample_rate as int) <= (u64::MAX as int) * (u32::MAX as int))
            by (nonlinear_arith)
            requires
                n <= u64::MAX,
        ;
    }
    (n * (sample_rate as u128) / 1_000_000_000) as u64
}

/// Presentation time (µs) of the encoded audio unit (an AAC access unit, an Opus packet) that
/// starts at PCM sample `au_start`.
pub fn audio_unit_timestamp_us(au_start: u64, sample_rate: u32) -> (r: u64)
    requires
        sample_rate > 0,
    ensures
        r == (((au_start as int) * 1_000_000 / (sample_rate as int)) as u64),
{
    proof {
        assert((au_start as int) * 1_000_000 <= (u64::MAX as int) * 1_000_000) by (nonlinear_arith);
    }
    ((au_start as u128) * 1_000_000 / (sample_rate as u128)) as u64
}

/// Presentation time (µs) of a captured audio packet that starts at device frame
/// `start_frame`: `start_frame * 1 000 000` (saturating) divided by the sample rate.
pub fn device_frame_to_us(start_frame: u64, sample_rate: u32) -> (r: u64)
    requires
        sample_rate > 0,
    ensures
        r == clamp_max((start_frame as int) * 1_000_000, u64::MAX as int) / (sample_rate as int),
{
    sat_mul_u64(start_frame, 1_000_000) / (sample_rate as u64)
}

/// How one encoded frame is laid out on the MP4 timeline.
#[derive(Clone, Copy, Debug, PartialEq, Eq, Structural)]
pub struct SamplePlacement {
    /// Samples written for the frame (more than one repeats it to fill a gap at constant rate).
    pub slot_count: u32,
    /// Duration of each sample, in timescale ticks.
    pub duration_ts: u32,
}

/// Nominal sample duration: `max(1, timescale / fps)`.
pub open spec fn spec_nominal_duration(timescale: u32, fps: u32) -> u32 {
    if timescale / fps >= 1 {
        (timescale / fps) as u32
    } else {
        1
    }
}

/// Layout of a frame captured at `ts_us` after a frame at `last_ts_us` (`saved` frames so far):
/// the first frame lasts one nominal duration; later ones last their rounded wall-clock gap,
/// capped at ten nominal durations. With constant-frame-rate muxing the gap is instead filled
/// with `ceil(gap / nominal)` samples (at most `600 * fps`) of nominal duration.
pub open spec fn spec_sample_placement(
    saved: u32,
    ts_us: u64,
    last_ts_us: u64,
    timescale: u32,
    fps: u32,
    cfr: bool,
) -> SamplePlacement {
    let nominal = spec_nominal_duration(timescale, fps);
    let max_dur = clamp_max(nominal * 10, u32::MAX as int) as u32;
    let delta = if ts_us >= last_ts_us {
        (ts_us - last_ts_us) as u64
    } else {
        0u64
    };
    let gap = if saved == 0 {
        nominal
    } else {
        spec_duration_ts(delta, timescale, max_dur)
    };
    if cfr {
        let max_slots = if clamp_max(fps * 600, u32::MAX as int) >= 1 {
            clamp_max(fps * 600, u32::MAX as int)
        } else {
            1
        };
        let slots = (gap + nominal - 1) / (nominal as int);
        let slots1 = if slots >= 1 {
            slots
        } else {
            1
        };
        let slots2 = clamp_max(slots1, u32::MAX as int);
        SamplePlacement {
            slot_count: if slots2 < max_slots {
                slots2 as u32
            } else {
                max_slots as u32
            },
            duration_ts: nominal,
        }
    } else {
        SamplePlacement { slot_count: 1, duration_ts: gap }
    }
}

/// MP4 placement of the next encoded frame.
pub fn sample_placement(
    saved: u32,
    ts_us: u64,
    last_ts_us: u64,
    timescale: u32,
    fps: u32,
    cfr: bool,
) -> (r: SamplePlacement)
    requires
        fps > 0,
    ensures
        r == spec_sample_placement(saved, ts_us, last_ts_us, timescale, fps, cfr),
        r.slot_count >= 1,
        r.duration_ts >= 1,
{
    let nominal: u32 = if timescale / fps >= 1 {
        timescale / fps
    } else {
        1
    };
    let max_dur = sat_mul_u32(nominal, 10);
    let gap = if saved == 0 {
        nominal
    } else {
        duration_ts_from_delta_us(ts_us.saturating_sub(last_ts_us), timescale, max_dur)
    };
    if cfr {
        let m = sat_mul_u32(fps, 600);
        let max_slots: u32 = if m >= 1 {
            m
        } else {
            1
        };
        let slots_u64: u64 = ((gap as u64) + (nominal as u64) - 1) / (nominal as u64);
        let slots1: u64 = if slots_u64 >= 1 {
            slots_u64
        } else {
            1
        };
        let slots2: u32 = if slots1 > u32::MAX as u64 {
            u32::MAX
        } else {
            slots1 as u32
        };
        SamplePlacement {
            slot_count: if slots2 < max_slots {
                slots2
            } else {
                max_slots
            },
            duration_ts: nominal,
        }
    } else {
        SamplePlacement { slot_count: 1, duration_ts: gap }
    }
}

/// Most samples a constant-frame-rate gap fill writes: `600 * fps` (saturating, at least 1).
pub open spec fn spec_max_slots(fps: u32) -> int {
    if clamp_max(fps * 600, u32::MAX as int) >= 1 {
        clamp_max(fps * 600, u32::MAX as int)
    } else {
        1
    }
}

/// Every placement lasts at least one tick: one or more samples, each at least one tick long.
pub proof fn law_placement_is_positive(
    saved: u32,
    ts_us: u64,
    last_ts_us: u64,
    timescale: u32,
    fps: u32,
    cfr: bool,
)
    requires
        fps > 0,
    ensures
        spec_sample_placement(saved, ts_us, last_ts_us, timescale, fps, cfr).slot_count >= 1,
        spec_sample_placement(saved, ts_us, last_ts_us, timescale, fps, cfr).duration_ts >= 1,
{
    assert(timescale / fps >= 0) by (nonlinear_arith)
        requires
            fps > 0,
    ;
    assert(spec_duration_ts((if ts_us >= last_ts_us { (ts_us - last_ts_us) as u64 } else { 0u64 }),
        timescale, clamp_max(spec_nominal_duration(timescale, fps) * 10, u32::MAX as int) as u32) >= 1);
}

/// Constant-frame-rate muxing covers the same gap that variable-rate muxing writes as one
/// sample: its nominal-length samples reach the gap with less than one sample to spare, unless
/// the gap needs more samples than the cap allows.
pub proof fn law_cfr_covers_vfr_gap(saved: u32, ts_us: u64, last_ts_us: u64, timescale: u32, fps: u32)
    requires
        fps > 0,
    ensures
        ({
            let c = spec_sample_placement(saved, ts_us, last_ts_us, timescale, fps, true);
            let v = spec_sample_placement(saved, ts_us, last_ts_us, timescale, fps, false);
            let nominal = spec_nominal_duration(timescale, fps) as int;
            &&& v.slot_count == 1
            &&& c.duration_ts == nominal
            &&& (c.slot_count - 1) * nominal < v.duration_ts
            &&& (c.slot_count * nominal >= v.duration_ts || c.slot_count == spec_max_slots(fps))
        }),
{
    let c = spec_sample_placement(saved, ts_us, last_ts_us, timescale, fps, true);
    let v = spec_sample_placement(saved, ts_us, last_ts_us, timescale, fps, false);
    let nominal = spec_nominal_duration(timescale, fps) as int;
    let g = v.duration_ts as int;
    law_placement_is_positive(saved, ts_us, last_ts_us, timescale, fps, false);
    assert(nominal >= 1);
    let q = (g + nominal - 1) / nominal;
    assert(q * nominal >= g && (q - 1) * nominal < g) by (nonlinear_arith)
        requires
            nominal >= 1,
            g >= 1,
            q == (g + nominal - 1) / nominal,
    ;
    assert(q >= 1) by (nonlinear_arith)
        requires
            nominal >= 1,
            g >= 1,
            q == (g + nominal - 1) / nominal,
    ;
    assert(q <= g) by (nonlinear_arith)
        requires
            nominal >= 1,
            g >= 1,
            q == (g + nominal - 1) / nominal,
    ;
    assert((c.slot_count - 1) * nominal <= (q - 1) * nominal) by (nonlinear_arith)
        requires
            c.slot_count <= q,
            nominal >= 1,
    ;
}

/// Pending corrections of the audio/video drift watchdog.
#[derive(Clone, Copy, Debug, PartialEq, Eq, Structural)]
pub struct DriftCorrection {
    /// Silent PCM frames still to insert.
    pub pending_silence_pcm_frames: u64,
    /// PCM frames still to drop.
    pub pending_audio_frame_skip: u64,
}

/// Audio samples the muxed video duration calls for: `video_ts * sample_rate / timescale`.
pub open spec fn spec_wanted_audio_samples(video_ts: u64, sample_rate: u32, v_ts: u32) -> int {
    ((video_ts as int) * (sample_rate as int) / (v_ts as int)) as u64 as int
}

/// One watchdog step: when muxed audio lags the video by more than `threshold + 1024` samples,
/// schedule up to 4800 silent frames; when it leads by more, schedule up to 4800 dropped frames.
/// A zero threshold, sample rate or timescale disables the watchdog.
pub open spec fn spec_reconcile(
    video_ts: u64,
    audio_samples: u64,
    v_ts: u32,
    sample_rate: u32,
    threshold: u64,
    c: DriftCorrection,
) -> DriftCorrection {
    if threshold == 0 || sample_rate == 0 || v_ts == 0 {
        c
    } else {
        let want = spec_wanted_audio_samples(video_ts, sample_rate, v_ts);
        let delta = want - audio_samples;
        let margin = clamp_max(threshold + 1024, u64::MAX as int);
        if delta > margin {
            let add = if delta < DRIFT_CORRECT_MAX_STEP {
                delta
            } else {
                DRIFT_CORRECT_MAX_STEP as int
            };
            DriftCorrection {
                pending_silence_pcm_frames: clamp_max(
                    c.pending_silence_pcm_frames + add,
                    u64::MAX as int,
                ) as u64,
                ..c
            }
        } else if delta < -margin {
            let trim = if -delta < DRIFT_CORRECT_MAX_STEP {
                -delta
            } else {
                DRIFT_CORRECT_MAX_STEP as int
            };
            DriftCorrection {
                pending_audio_frame_skip: clamp_max(
                    c.pending_audio_frame_skip + trim,
                    u64::MAX as int,
                ) as u64,
                ..c
            }
        } else {
            c
        }
    }
}

/// One watchdog step never cancels owed work and moves at most one way: it adds at most 4800
/// frames to the silence owed or to the frames to drop, never to both, and only when the muxed
/// audio is off by more than `threshold + 1024` samples.
pub proof fn law_drift_step_is_bounded(
    video_ts: u64,
    audio_samples: u64,
    v_ts: u32,
    sample_rate: u32,
    threshold: u64,
    c: DriftCorrection,
)
    ensures
        ({
            let n = spec_reconcile(video_ts, audio_samples, v_ts, sample_rate, threshold, c);
            &&& c.pending_silence_pcm_frames <= n.pending_silence_pcm_frames
                <= c.pending_silence_pcm_frames + DRIFT_CORRECT_MAX_STEP
            &&& c.pending_audio_frame_skip <= n.pending_audio_frame_skip <= c.pending_audio_frame_skip
                + DRIFT_CORRECT_MAX_STEP
            &&& (n.pending_silence_pcm_frames == c.pending_silence_pcm_frames
                || n.pending_audio_frame_skip == c.pending_audio_frame_skip)
            &&& (n != c ==> threshold > 0 && sample_rate > 0 && v_ts > 0 && {
                let d = spec_wanted_audio_samples(video_ts, sample_rate, v_ts) - audio_samples;
                d > threshold + 1024 || d < -(threshold + 1024)
            })
        }),
{
}

/// What one watchdog step owes, in terms of the inputs. With the watchdog on, let `want` be the
/// audio samples the muxed video calls for (`video_ts * sample_rate / v_ts`, as a `u64`), `d` the
/// lag `want - audio_samples`, and `m` the margin `threshold + 1024` (saturated). When audio lags
/// by more than `m`, the silence owed grows by the whole lag, at most 4800 frames (saturating);
/// when it leads by more than `m`, the frames to drop grow by the whole lead, at most 4800; and
/// otherwise nothing changes.
pub proof fn law_drift_step_owes_the_whole_lag(
    video_ts: u64,
    audio_samples: u64,
    v_ts: u32,
    sample_rate: u32,
    threshold: u64,
    c: DriftCorrection,
)
    requires
        threshold > 0,
        sample_rate > 0,
        v_ts > 0,
    ensures
        ({
            let n = spec_reconcile(video_ts, audio_samples, v_ts, sample_rate, threshold, c);
            let want = ((video_ts as int) * (sample_rate as int) / (v_ts as int)) as u64;
            let d = want - audio_samples;
            let m = if threshold + 1024 > u64::MAX {
                u64::MAX as int
            } else {
                threshold + 1024
            };
            let step = if d > 4800 {
                4800
            } else {
                d
            };
            let back = if -d > 4800 {
                4800
            } else {
                -d
            };
            &&& d > m ==> n.pending_audio_frame_skip == c.pending_audio_frame_skip
                && n.pending_silence_pcm_frames == if c.pending_silence_pcm_frames + step
                > u64::MAX {
                u64::MAX as int
            } else {
                c.pending_silence_pcm_frames + step
            }
            &&& d < -m ==> n.pending_silence_pcm_frames == c.pending_silence_pcm_frames
                && n.pending_audio_frame_skip == if c.pending_audio_frame_skip + back > u64::MAX {
                u64::MAX as int
            } else {
                c.pending_audio_frame_skip + back
            }
            &&& -m <= d <= m ==> n == c
        }),
{
}

/// Encoded audio units are stamped in timeline order: a later start sample never gets an
/// earlier presentation time.
pub proof fn law_audio_timestamps_in_order(a: u64, b: u64, sample_rate: u32)
    requires
        sample_rate > 0,
        a <= b,
    ensures
        (a as int) * 1_000_000 / (sample_rate as int) <= (b as int) * 1_000_000 / (
        sample_rate as int),
{
    assert((a as int) * 1_000_000 <= (b as int) * 1_000_000) by (nonlinear_arith)
        requires
            a <= b,
    ;
    vstd::arithmetic::div_mod::lemma_div_is_ordered(
        (a as int) * 1_000_000,
        (b as int) * 1_000_000,
        sample_rate as int,
    );
}

/// Keeps the muxed AAC timeline aligned with the muxed video duration.
pub fn reconcile_mux_av_drift(
    muxed_video_duration_ts: u64,
    muxed_audio_samples: u64,
    v_ts: u32,
    sample_rate: u32,
    threshold: u64,
    pending_silence_pcm_frames: &mut u64,
    pending_audio_frame_skip: &mut u64,
)
    ensures
        (DriftCorrection {
            pending_silence_pcm_frames: *final(pending_silence_pcm_frames),
            pending_audio_frame_skip: *final(pending_audio_frame_skip),
        }) == spec_reconcile(
            muxed_video_duration_ts,
            muxed_audio_samples,
            v_ts,
            sample_rate,
            threshold,
            DriftCorrection {
                pending_silence_pcm_frames: *old(pending_silence_pcm_frames),
                pending_audio_frame_skip: *old(pending_audio_frame_skip),
            },
        ),
{
    if threshold == 0 || sample_rate == 0 || v_ts == 0 {
        return;
    }
    proof {
        assert((muxed_video_duration_ts as int) * (sample_rate as int) <= (u64::MAX as int) * (
        u32::MAX as int)) by (nonlinear_arith);
    }
    let want = ((muxed_video_duration_ts as u128) * (sample_rate as u128) / (v_ts as u128)) as u64;
    let delta: i128 = want as i128 - muxed_audio_samples as i128;
    let margin: i128 = threshold.saturating_add(1024) as i128;
    if delta > margin {
        let add: u64 = if delta < DRIFT_CORRECT_MAX_STEP as i128 {
            delta as u64
        } else {
            DRIFT_CORRECT_MAX_STEP
        };
        *pending_silence_pcm_frames = pending_silence_pcm_frames.saturating_add(add);
    } else if delta < -margin {
        let trim: u64 = if -delta < DRIFT_CORRECT_MAX_STEP as i128 {
            (-delta) as u64
        } else {
            DRIFT_CORRECT_MAX_STEP
        };
        *pending_audio_frame_skip = pending_audio_frame_skip.saturating_add(trim);
    }
}

/// Whether the capture loop takes another frame: not stopped, and under the frame limit
/// (0 means unlimited).
pub fn capture_continues(stopped: bool, frame_limit: u32, saved: u32) -> (r: bool)
    ensures
        r == (!stopped && (frame_limit == 0 || saved < frame_limit)),
{
    !stopped && (frame_limit == 0 || saved < frame_limit)
}

/// Whether to log progress after `saved` frames: every ten seconds of nominal video.
pub fn progress_due(saved: u32, fps: u32) -> (r: bool)
    requires
        fps * 10 <= u32::MAX,
    ensures
        r == (saved > 0 && saved % (if fps * 10 >= 1 {
            (fps * 10) as u32
        } else {
            1u32
        }) == 0),
{
    let period: u32 = if fps * 10 >= 1 {
        fps * 10
    } else {
        1
    };
    saved > 0 && saved % period == 0
}

} // verus!
