use capture_pipeline::recording::{deliver, starts_audio_capture, Delivery, RecordingTimeline};
use capture_pipeline::settings::StreamBackpressure;
use capture_pipeline::timing::{DriftCorrection, SamplePlacement, AAC_FRAME_SAMPLES};

#[test]
fn video_timeline_follows_frame_gaps() {
    let mut t = RecordingTimeline::new();
    assert!(t.continues(false, 0));
    assert_eq!(t.place_frame(0, 30_000, 30, false), SamplePlacement { slot_count: 1, duration_ts: 1000 });
    t.frame_done();
    assert_eq!(t.place_frame(33_333, 30_000, 30, false), SamplePlacement { slot_count: 1, duration_ts: 1000 });
    t.frame_done();
    assert_eq!(t.place_frame(100_000, 30_000, 30, false), SamplePlacement { slot_count: 1, duration_ts: 2000 });
    t.frame_done();
    assert_eq!(t.muxed_video_duration_ts, 4000);
    assert_eq!(t.last_ts_us, 100_000);
    assert_eq!(t.frames, 3);
    assert!(!t.continues(false, 3));
    assert!(t.continues(false, 4));
    assert!(!t.continues(true, 0));
}

#[test]
fn cfr_timeline_repeats_frames() {
    let mut t = RecordingTimeline::new();
    t.place_frame(0, 30_000, 30, true);
    t.frame_done();
    let p = t.place_frame(100_000, 30_000, 30, true);
    assert_eq!(p, SamplePlacement { slot_count: 3, duration_ts: 1000 });
    assert_eq!(t.muxed_video_duration_ts, 4000);
    t.frame_done();
    let q = t.place_frame(150_000, 30_000, 30, true);
    assert_eq!(q, SamplePlacement { slot_count: 2, duration_ts: 1000 });
}

#[test]
fn audio_skip_bootstraps_once() {
    let mut t = RecordingTimeline::new();
    t.bootstrap_audio_skip(20_000, 0);
    assert!(!t.audio_skip_bootstrapped);
    t.bootstrap_audio_skip(20_000, 48_000);
    assert_eq!(t.drift.pending_audio_frame_skip, 960);
    assert!(t.audio_skip_bootstrapped);
    t.bootstrap_audio_skip(90_000, 48_000);
    assert_eq!(t.drift.pending_audio_frame_skip, 960);
}

#[test]
fn pcm_chunks_are_trimmed_then_padded() {
    let mut t = RecordingTimeline::new();
    t.bootstrap_audio_skip(20_000, 48_000);
    let mut chunk: Vec<i16> = (0..2000).map(|i| i as i16).collect();
    assert_eq!(t.align_pcm_chunk(&mut chunk, 2, 0), (960, 0));
    assert_eq!(chunk.len(), 80);
    assert_eq!(chunk[0], 1920);
    assert_eq!(t.drift.pending_audio_frame_skip, 0);
    t.drift.pending_silence_pcm_frames = 3;
    let mut next: Vec<i16> = vec![7, 8, 9, 10];
    assert_eq!(t.align_pcm_chunk(&mut next, 2, 0), (0, 3));
    assert_eq!(next, vec![0, 0, 0, 0, 0, 0, 7, 8, 9, 10]);
    assert_eq!(t.drift.pending_silence_pcm_frames, 0);
    t.add_audio_samples(next.len());
    assert_eq!(t.audio_samples_total, 10);
}

#[test]
fn aac_timeline_advances_per_access_unit() {
    let mut t = RecordingTimeline::new();
    assert_eq!(t.next_audio_timestamp_us(48_000, AAC_FRAME_SAMPLES), 0);
    assert_eq!(t.next_audio_timestamp_us(48_000, AAC_FRAME_SAMPLES), 21_333);
    assert_eq!(t.next_audio_timestamp_us(48_000, AAC_FRAME_SAMPLES), 42_666);
    assert_eq!(t.muxed_audio_samples, 3072);
    let mut opus = RecordingTimeline::new();
    assert_eq!(opus.next_audio_timestamp_us(48_000, 960), 0);
    assert_eq!(opus.next_audio_timestamp_us(48_000, 960), 20_000);
}

#[test]
fn drift_watchdog_pads_lagging_audio() {
    let mut t = RecordingTimeline::new();
    t.muxed_video_duration_ts = 30_000;
    t.muxed_audio_samples = 3072;
    t.reconcile_drift(30_000, 48_000, 0);
    assert_eq!(t.drift, DriftCorrection { pending_silence_pcm_frames: 0, pending_audio_frame_skip: 0 });
    t.reconcile_drift(30_000, 48_000, 480);
    assert_eq!(t.drift.pending_silence_pcm_frames, 4800);
    assert_eq!(t.drift.pending_audio_frame_skip, 0);
    t.muxed_audio_samples = 60_000;
    t.reconcile_drift(30_000, 48_000, 480);
    assert_eq!(t.drift.pending_audio_frame_skip, 4800);
    assert_eq!(t.drift.pending_silence_pcm_frames, 4800);
}

#[test]
fn delivery_follows_backpressure_policy() {
    let (tx, rx) = crossbeam_channel::bounded::<u32>(1);
    assert_eq!(deliver(&tx, 1, StreamBackpressure::DropWhenFull), Delivery::Sent);
    assert_eq!(deliver(&tx, 2, StreamBackpressure::DropWhenFull), Delivery::DroppedFull);
    assert_eq!(rx.recv().unwrap(), 1);
    assert_eq!(deliver(&tx, 3, StreamBackpressure::Block), Delivery::Sent);
    drop(rx);
    assert_eq!(deliver(&tx, 4, StreamBackpressure::Block), Delivery::Disconnected);
    assert_eq!(deliver(&tx, 5, StreamBackpressure::DropWhenFull), Delivery::Disconnected);

    let mut t = RecordingTimeline::new();
    t.note_video_delivery(Delivery::Sent);
    t.note_video_delivery(Delivery::DroppedFull);
    t.note_video_delivery(Delivery::Disconnected);
    t.note_audio_delivery(Delivery::Sent);
    t.note_audio_delivery(Delivery::Sent);
    t.note_audio_delivery(Delivery::DroppedFull);
    t.frame_done();
    let s = t.stats();
    assert_eq!(s.frames_captured, 1);
    assert_eq!((s.stream_video_packets_sent, s.stream_video_packets_dropped_full), (1, 1));
    assert_eq!((s.stream_audio_chunks_sent, s.stream_audio_chunks_dropped_full), (2, 1));
}

#[test]
fn audio_capture_starts_on_first_frame_only() {
    assert!(starts_audio_capture(true, true, true, false, false));
    assert!(starts_audio_capture(true, true, false, true, false));
    assert!(!starts_audio_capture(true, true, false, false, false));
    assert!(!starts_audio_capture(false, true, true, true, false));
    assert!(!starts_audio_capture(true, false, true, true, false));
    assert!(!starts_audio_capture(true, true, true, true, true));
}
