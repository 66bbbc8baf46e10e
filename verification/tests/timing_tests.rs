use capture_pipeline::timing::{
    audio_unit_timestamp_us, capture_continues, duration_ts_from_delta_us, progress_due,
    reconcile_mux_av_drift, sample_placement, ts_us_to_pcm_frames, wall_duration_to_pcm_frames,
    wall_duration_to_ts_units, SamplePlacement,
};

#[test]
fn duration_rounds_and_clamps() {
    // 33 333 µs at 30 kHz = 999.99 ticks -> 1000.
    assert_eq!(duration_ts_from_delta_us(33_333, 30_000, 10_000), 1000);
    assert_eq!(duration_ts_from_delta_us(0, 30_000, 10_000), 1);
    assert_eq!(duration_ts_from_delta_us(10_000_000, 30_000, 10_000), 10_000);
    assert_eq!(duration_ts_from_delta_us(10_000_000, 30_000, 0), 1);
}

#[test]
fn pcm_frames_from_timestamps() {
    assert_eq!(ts_us_to_pcm_frames(1_000_000, 48_000), 48_000);
    assert_eq!(ts_us_to_pcm_frames(20_833, 48_000), 999);
    assert_eq!(wall_duration_to_pcm_frames(500_000_000, 44_100), 22_050);
    assert_eq!(wall_duration_to_pcm_frames(u128::MAX, 1), u64::MAX / 1_000_000_000);
}

#[test]
fn ts_units_from_wall_clock() {
    assert_eq!(wall_duration_to_ts_units(1_000_000, 30_000), 30_000);
    assert_eq!(wall_duration_to_ts_units(0, 30_000), 1);
    assert_eq!(wall_duration_to_ts_units(u128::MAX, 30_000), u32::MAX);
}

#[test]
fn aac_timestamps() {
    assert_eq!(audio_unit_timestamp_us(0, 48_000), 0);
    assert_eq!(audio_unit_timestamp_us(1024, 48_000), 21_333);
    assert_eq!(audio_unit_timestamp_us(48_000, 48_000), 1_000_000);
}

#[test]
fn placement_first_frame_is_nominal() {
    let p = sample_placement(0, 5_000_000, 0, 30_000, 30, false);
    assert_eq!(p, SamplePlacement { slot_count: 1, duration_ts: 1000 });
}

#[test]
fn placement_vfr_uses_gap() {
    let p = sample_placement(3, 1_050_000, 1_000_000, 30_000, 30, false);
    assert_eq!(p, SamplePlacement { slot_count: 1, duration_ts: 1500 });
    // A long stall is capped at ten nominal durations.
    let p = sample_placement(3, 9_000_000, 1_000_000, 30_000, 30, false);
    assert_eq!(p.duration_ts, 10_000);
    // Clock going backwards gives the minimum duration.
    let p = sample_placement(3, 0, 1_000_000, 30_000, 30, false);
    assert_eq!(p.duration_ts, 1);
}

#[test]
fn placement_cfr_fills_gap_with_repeats() {
    let p = sample_placement(3, 1_100_000, 1_000_000, 30_000, 30, true);
    assert_eq!(p, SamplePlacement { slot_count: 3, duration_ts: 1000 });
    let p = sample_placement(0, 0, 0, 30_000, 30, true);
    assert_eq!(p, SamplePlacement { slot_count: 1, duration_ts: 1000 });
}

#[test]
fn drift_watchdog_pads_and_trims() {
    let mut pad = 0u64;
    let mut skip = 0u64;
    // Video 1 s at 30 kHz wants 48 000 samples; audio has 40 000: lag 8000 > 100 + 1024.
    reconcile_mux_av_drift(30_000, 40_000, 30_000, 48_000, 100, &mut pad, &mut skip);
    assert_eq!((pad, skip), (4800, 0));
    // Audio leads by 2000 > 1124: trim 2000.
    reconcile_mux_av_drift(30_000, 50_000, 30_000, 48_000, 100, &mut pad, &mut skip);
    assert_eq!((pad, skip), (4800, 2000));
    // Within the margin: nothing.
    reconcile_mux_av_drift(30_000, 48_500, 30_000, 48_000, 100, &mut pad, &mut skip);
    assert_eq!((pad, skip), (4800, 2000));
    // Threshold 0 disables the watchdog.
    reconcile_mux_av_drift(30_000, 0, 30_000, 48_000, 0, &mut pad, &mut skip);
    assert_eq!((pad, skip), (4800, 2000));
}

#[test]
fn loop_and_progress_conditions() {
    assert!(capture_continues(false, 0, 1_000_000));
    assert!(capture_continues(false, 10, 9));
    assert!(!capture_continues(false, 10, 10));
    assert!(!capture_continues(true, 0, 0));
    assert!(progress_due(300, 30));
    assert!(!progress_due(301, 30));
    assert!(!progress_due(0, 30));
    assert!(progress_due(5, 0));
}
