//! Values crossing the boundary to consumers (file muxer, stream hosts) and the recording run's
//! bookkeeping.

use vstd::prelude::*;

use crate::video::EncodedPacket;

verus! {

/// Marker for the monotonic clock (microseconds from the first frame) that video and audio
/// timestamps share.
#[derive(Clone, Copy, Debug, Default, PartialEq, Eq, PartialOrd, Ord, Hash, Structural)]
pub struct StreamClock;

/// One video access unit: Annex-B H.264 (start codes).
#[derive(Clone, Debug)]
pub struct VideoPacket {
    /// Annex-B byte stream (may contain multiple NAL units).
    pub annex_b: Vec<u8>,
    /// Encoder timeline, microseconds.
    pub timestamp_us: u64,
    pub is_keyframe: bool,
}

/// The stream packet for repetition `slot_idx` of an encoded frame: only the first repetition
/// of a keyframe is marked as a keyframe.
pub fn video_packet_for_slot(pkt: &EncodedPacket, slot_idx: u32) -> (r: VideoPacket)
    ensures
        r.annex_b@ == pkt.data@,
        r.timestamp_us == pkt.timestamp_us,
        r.is_keyframe == (pkt.is_keyframe && slot_idx == 0),
{
    VideoPacket {
        annex_b: pkt.data.clone(),
        timestamp_us: pkt.timestamp_us,
        is_keyframe: pkt.is_keyframe && slot_idx == 0,
    }
}

/// Counters reported when a recording run ends.
#[derive(Clone, Copy, Debug, PartialEq, Eq, Structural)]
pub struct RunStats {
    pub frames_captured: u32,
    /// Interleaved PCM samples written (all channels).
    pub audio_samples_total: u64,
    pub stream_video_packets_sent: u64,
    pub stream_audio_chunks_sent: u64,
    /// Video packets dropped because the stream queue was full (drop-when-full backpressure).
    pub stream_video_packets_dropped_full: u64,
    /// Audio chunks dropped because the stream queue was full (drop-when-full backpressure).
    pub stream_audio_chunks_dropped_full: u64,
}

/// Errors of the public runtime API (orchestration only).
#[derive(Clone, Debug, PartialEq, Eq)]
pub enum RuntimeError {
    /// A capture session is already running.
    AlreadyRunning,
    /// The configuration is invalid; the text says why.
    InvalidConfig(String),
    /// The runtime entry point is not implemented on this platform.
    NotImplemented,
}

/// One frame for the asynchronous encode worker (`slot` is 0 or 1: which ping texture).
#[derive(Clone, Copy, Debug, PartialEq, Eq, Structural)]
pub struct VideoEncodeJob {
    pub slot: u8,
    pub ts_us: u64,
}

/// The ping texture after `slot` (0 and 1 alternate).
pub fn next_ping_slot(slot: u8) -> (r: u8)
    ensures
        r == slot ^ 1u8,
        slot == 0 ==> r == 1,
        slot == 1 ==> r == 0,
{
    let r = slot ^ 1u8;
    assert(slot == 0 ==> r == 1) by (bit_vector)
        requires
            r == slot ^ 1u8,
    ;
    assert(slot == 1 ==> r == 0) by (bit_vector)
        requires
            r == slot ^ 1u8,
    ;
    r
}

} // verus!
