use capture_pipeline::settings::{
    async_encode_from_token, av_drift_threshold_from_token, capture_fps_from_token,
    cfr_mux_from_token, ffmpeg_mux_from_token, frame_pacing_from_token, nvenc_tuning_from_token,
    stream_backpressure_from_token, video_bitrate_bps_from_token,
    video_codec_preference_from_tokens, NvencTuning, StreamBackpressure, VideoCodecPreference,
};

#[test]
fn token_defaults_match_auto() {
    assert_eq!(
        video_codec_preference_from_tokens(None, None, None),
        VideoCodecPreference::Auto
    );
}

#[test]
fn openh264_maps_to_prefer_software() {
    assert_eq!(
        video_codec_preference_from_tokens(Some("openh264"), None, None),
        VideoCodecPreference::PreferSoftware
    );
}

#[test]
fn nvenc_required_maps_to_require_nvenc() {
    assert_eq!(
        video_codec_preference_from_tokens(None, None, Some("yes")),
        VideoCodecPreference::RequireNvenc
    );
}

#[test]
fn codec_preference_token_variants() {
    assert_eq!(
        video_codec_preference_from_tokens(Some("OpenH264"), None, Some("1")),
        VideoCodecPreference::PreferSoftware
    );
    assert_eq!(
        video_codec_preference_from_tokens(None, Some("OFF"), None),
        VideoCodecPreference::PreferSoftware
    );
    assert_eq!(
        video_codec_preference_from_tokens(None, Some("0"), None),
        VideoCodecPreference::PreferSoftware
    );
    assert_eq!(
        video_codec_preference_from_tokens(None, Some("1"), Some("  TRUE\t")),
        VideoCodecPreference::RequireNvenc
    );
    assert_eq!(
        video_codec_preference_from_tokens(Some("nvenc"), None, Some("no")),
        VideoCodecPreference::Auto
    );
}

#[test]
fn fps_token_range() {
    assert_eq!(capture_fps_from_token(None), 30);
    assert_eq!(capture_fps_from_token(Some("60")), 60);
    assert_eq!(capture_fps_from_token(Some("+240")), 240);
    assert_eq!(capture_fps_from_token(Some("241")), 30);
    assert_eq!(capture_fps_from_token(Some("0")), 30);
    assert_eq!(capture_fps_from_token(Some("abc")), 30);
    assert_eq!(capture_fps_from_token(Some(" 60")), 30);
    assert_eq!(capture_fps_from_token(Some("99999999999")), 30);
}

#[test]
fn bitrate_token_range() {
    assert_eq!(video_bitrate_bps_from_token(None), 45_000_000);
    assert_eq!(video_bitrate_bps_from_token(Some("")), 45_000_000);
    assert_eq!(video_bitrate_bps_from_token(Some("8000000")), 8_000_000);
    assert_eq!(video_bitrate_bps_from_token(Some("499999")), 45_000_000);
    assert_eq!(video_bitrate_bps_from_token(Some("200000000")), 200_000_000);
    assert_eq!(video_bitrate_bps_from_token(Some("8e6")), 45_000_000);
}

#[test]
fn on_off_switch_tokens() {
    assert!(frame_pacing_from_token(None));
    assert!(!frame_pacing_from_token(Some("0")));
    assert!(!frame_pacing_from_token(Some("Off")));
    assert!(!frame_pacing_from_token(Some("FALSE")));
    assert!(frame_pacing_from_token(Some("yes")));
    assert!(async_encode_from_token(Some("1")));
    assert!(!async_encode_from_token(Some("false")));
    assert!(!cfr_mux_from_token(None));
    assert!(cfr_mux_from_token(Some("1")));
    assert!(cfr_mux_from_token(Some("On")));
    assert!(!cfr_mux_from_token(Some("yes")));
    assert!(ffmpeg_mux_from_token(Some("1")));
    assert!(!ffmpeg_mux_from_token(Some("true")));
    assert!(!ffmpeg_mux_from_token(None));
}

#[test]
fn drift_threshold_tokens() {
    assert_eq!(av_drift_threshold_from_token(None), 0);
    assert_eq!(av_drift_threshold_from_token(Some("   ")), 0);
    assert_eq!(av_drift_threshold_from_token(Some("4800")), 4800);
    assert_eq!(av_drift_threshold_from_token(Some(" 4800")), 0);
    assert_eq!(av_drift_threshold_from_token(Some("-1")), 0);
}

#[test]
fn backpressure_tokens() {
    assert_eq!(stream_backpressure_from_token(None), StreamBackpressure::Block);
    assert_eq!(stream_backpressure_from_token(Some(" Drop ")), StreamBackpressure::DropWhenFull);
    assert_eq!(stream_backpressure_from_token(Some("drop_when_full")), StreamBackpressure::DropWhenFull);
    assert_eq!(stream_backpressure_from_token(Some("TRY")), StreamBackpressure::DropWhenFull);
    assert_eq!(stream_backpressure_from_token(Some("")), StreamBackpressure::Block);
    assert_eq!(stream_backpressure_from_token(Some("sometimes")), StreamBackpressure::Block);
}

#[test]
fn tuning_tokens() {
    assert_eq!(nvenc_tuning_from_token(None), NvencTuning::HighQuality);
    assert_eq!(nvenc_tuning_from_token(Some("LowLatency")), NvencTuning::LowLatency);
    assert_eq!(nvenc_tuning_from_token(Some("low_latency")), NvencTuning::LowLatency);
    assert_eq!(nvenc_tuning_from_token(Some("ultra_low_latency")), NvencTuning::UltraLowLatency);
    assert_eq!(nvenc_tuning_from_token(Some("UHQ")), NvencTuning::UltraHighQuality);
    assert_eq!(nvenc_tuning_from_token(Some("hq")), NvencTuning::HighQuality);
    assert_eq!(nvenc_tuning_from_token(Some("fast")), NvencTuning::HighQuality);
}
