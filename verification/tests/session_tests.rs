use std::path::PathBuf;

use capture_pipeline::events::{RuntimeError, VideoPacket};
use capture_pipeline::session::{
    pipeline_params_files_and_stream, pipeline_params_from_cli_and_env,
    pipeline_params_stream_only, stream_pair, CaptureEnv, OutputTarget, PipelineParams,
    RecordingOutputs, SessionConfig,
};
use capture_pipeline::settings::EncoderBackend::{MfHardware, Nvenc, OpenH264};
use capture_pipeline::settings::{
    audio_codec_from_token, encoder_attempts, AudioCodecChoice,
    StreamBackpressure, VideoCodecPreference, WindowsEncoderPreference,
};

type Chunk = Vec<u8>;

fn tok(s: &str) -> Option<String> {
    Some(s.to_string())
}

fn packet(ts: u64) -> VideoPacket {
    VideoPacket { annex_b: vec![0, 0, 0, 1, 0x65], timestamp_us: ts, is_keyframe: true }
}

#[test]
fn files_only_uses_session_defaults() {
    let s = SessionConfig::<Chunk>::files_only(PathBuf::from("out"));
    assert!(matches!(&s.output, OutputTarget::Files { directory } if directory == &PathBuf::from("out")));
    assert_eq!((s.fps, s.video_bitrate_bps), (30, 45_000_000));
    assert!(s.frame_pacing && s.async_nvenc && !s.cfr_mux && s.capture_system_audio);
    assert_eq!(s.av_drift_threshold_pcm_frames, 0);
    assert_eq!(s.video_preference, VideoCodecPreference::Auto);
    assert_eq!(s.audio_codec, AudioCodecChoice::AacLcMf);
    assert_eq!(s.limit_frames, None);
}

#[test]
fn stream_endpoints_and_files_and_stream() {
    let (vtx, atx, _vrx, _arx) = stream_pair::<Chunk>(4, 4);
    let s = SessionConfig::with_stream_endpoints(vtx.clone(), atx.clone());
    assert!(matches!(s.output, OutputTarget::StreamOnly { .. }));
    assert_eq!(s.fps, 30);
    let s2 = SessionConfig::files_and_stream(PathBuf::from("d"), vtx, atx);
    assert!(matches!(s2.output, OutputTarget::FilesAndStream { .. }));
    assert_eq!(s2.video_bitrate_bps, 45_000_000);
}

#[test]
fn stream_pair_is_bounded() {
    let (vtx, atx, vrx, arx) = stream_pair::<Chunk>(2, 1);
    assert!(vtx.try_send(packet(1)).is_ok());
    assert!(vtx.try_send(packet(2)).is_ok());
    assert!(vtx.try_send(packet(3)).is_err());
    assert!(atx.try_send(vec![1]).is_ok());
    assert!(atx.try_send(vec![2]).is_err());
    assert_eq!(vrx.recv().unwrap().timestamp_us, 1);
    assert_eq!(arx.recv().unwrap(), vec![1]);
}

#[test]
fn recording_outputs_accessors() {
    let (vtx, atx, _vrx, _arx) = stream_pair::<Chunk>(1, 1);
    let files = RecordingOutputs::<Chunk>::Files { directory: PathBuf::from("a") };
    assert_eq!(files.directory(), Some(&PathBuf::from("a")));
    assert!(files.stream_senders().is_none());
    assert!(files.writes_video_files());
    let stream = RecordingOutputs::Stream { video_tx: vtx.clone(), audio_tx: atx.clone() };
    assert_eq!(stream.directory(), None);
    assert!(stream.stream_senders().is_some());
    assert!(!stream.writes_video_files());
    let both = RecordingOutputs::FilesAndStream { directory: PathBuf::from("b"), video_tx: vtx, audio_tx: atx };
    assert_eq!(both.directory(), Some(&PathBuf::from("b")));
    assert!(both.stream_senders().is_some());
    assert!(both.writes_video_files());
}

#[test]
fn env_defaults_resolve() {
    let p: PipelineParams<Chunk> =
        pipeline_params_from_cli_and_env(PathBuf::from("capture_out"), 300, true, &CaptureEnv::default());
    assert_eq!(p.outputs.directory(), Some(&PathBuf::from("capture_out")));
    assert_eq!((p.frame_limit, p.capture_system_audio), (300, true));
    assert_eq!((p.fps, p.video_bitrate_bps), (30, 45_000_000));
    assert!(p.frame_pacing && p.async_nvenc && !p.cfr_mux && !p.remux_with_ffmpeg);
    assert_eq!(p.av_drift_threshold_pcm_frames, 0);
    assert_eq!(p.video_codec_preference, VideoCodecPreference::Auto);
    assert_eq!(p.stream_backpressure, StreamBackpressure::Block);
    assert_eq!(p.audio_codec, AudioCodecChoice::AacLcMf);
    assert!(!p.force_software_encoder_only());
    assert_eq!(p.windows_encoder_preference(), WindowsEncoderPreference::Auto);
}

#[test]
fn env_overrides_resolve() {
    let env = CaptureEnv {
        encoder: tok("OpenH264"),
        fps: tok("60"),
        video_bitrate: tok("8000000"),
        frame_pacing: tok("off"),
        async_encode: tok("0"),
        cfr: tok("TRUE"),
        av_drift_samples: tok("480"),
        stream_backpressure: tok(" Drop "),
        audio_codec: tok("opus"),
        ffmpeg_mux: tok("1"),
        ..CaptureEnv::default()
    };
    let (vtx, atx, _vrx, _arx) = stream_pair::<Chunk>(1, 1);
    let p = pipeline_params_stream_only(vtx, atx, 0, false, &env);
    assert!(!p.outputs.writes_video_files());
    assert_eq!((p.fps, p.video_bitrate_bps), (60, 8_000_000));
    assert!(!p.frame_pacing && !p.async_nvenc && p.cfr_mux && p.remux_with_ffmpeg);
    assert_eq!(p.av_drift_threshold_pcm_frames, 480);
    assert_eq!(p.video_codec_preference, VideoCodecPreference::PreferSoftware);
    assert!(p.force_software_encoder_only());
    assert_eq!(p.windows_encoder_preference(), WindowsEncoderPreference::SoftwareOnly);
    assert_eq!(p.stream_backpressure, StreamBackpressure::DropWhenFull);
    assert_eq!(p.audio_codec, AudioCodecChoice::Opus);
}

#[test]
fn env_out_of_range_values_fall_back() {
    let env = CaptureEnv {
        fps: tok("241"),
        video_bitrate: tok("100"),
        nvenc_required: tok("yes"),
        ..CaptureEnv::default()
    };
    let (vtx, atx, _vrx, _arx) = stream_pair::<Chunk>(1, 1);
    let p = pipeline_params_files_and_stream(PathBuf::from("x"), vtx, atx, 5, true, &env);
    assert!(p.outputs.writes_video_files() && p.outputs.stream_senders().is_some());
    assert_eq!((p.fps, p.video_bitrate_bps), (30, 45_000_000));
    assert_eq!(p.video_codec_preference, VideoCodecPreference::RequireNvenc);
    assert_eq!(p.windows_encoder_preference(), WindowsEncoderPreference::RequireNvenc);
}

#[test]
fn session_config_resolves() {
    let (vtx, atx, _vrx, _arx) = stream_pair::<Chunk>(64, 128);
    let mut session = SessionConfig::with_stream_endpoints(vtx, atx);
    session.fps = 60;
    session.video_bitrate_bps = 8_000_000;
    session.audio_codec = AudioCodecChoice::Opus;
    session.video_preference = VideoCodecPreference::PreferNvenc;
    session.limit_frames = Some(120);
    let p = PipelineParams::try_from_session_config(session, false, &CaptureEnv::default()).unwrap();
    assert!(matches!(p.outputs, RecordingOutputs::Stream { .. }));
    assert_eq!((p.fps, p.video_bitrate_bps, p.frame_limit), (60, 8_000_000, 120));
    assert_eq!(p.audio_codec, AudioCodecChoice::Opus);
    assert_eq!(p.video_codec_preference, VideoCodecPreference::PreferNvenc);
    assert_eq!(p.stream_backpressure, StreamBackpressure::Block);
    assert!(!p.remux_with_ffmpeg);
}

#[test]
fn session_config_env_forces_software() {
    let mut session = SessionConfig::<Chunk>::files_only(PathBuf::from("o"));
    session.video_preference = VideoCodecPreference::RequireNvenc;
    let env = CaptureEnv { nvenc: tok("off"), stream_backpressure: tok("try"), ..CaptureEnv::default() };
    let p = PipelineParams::try_from_session_config(session, true, &env).unwrap();
    assert_eq!(p.video_codec_preference, VideoCodecPreference::PreferSoftware);
    assert_eq!(p.stream_backpressure, StreamBackpressure::DropWhenFull);
    assert_eq!(p.frame_limit, 0);
    assert!(p.remux_with_ffmpeg);
}

#[test]
fn session_config_rejects_bad_rates() {
    let mut session = SessionConfig::<Chunk>::files_only(PathBuf::from("o"));
    session.fps = 0;
    assert!(matches!(
        PipelineParams::try_from_session_config(session, false, &CaptureEnv::default()),
        Err(RuntimeError::InvalidConfig(_))
    ));
    let mut session = SessionConfig::<Chunk>::files_only(PathBuf::from("o"));
    session.fps = 241;
    assert!(PipelineParams::try_from_session_config(session, false, &CaptureEnv::default()).is_err());
    let mut session = SessionConfig::<Chunk>::files_only(PathBuf::from("o"));
    session.video_bitrate_bps = 499_999;
    assert!(matches!(
        PipelineParams::try_from_session_config(session, false, &CaptureEnv::default()),
        Err(RuntimeError::InvalidConfig(_))
    ));
    let mut session = SessionConfig::<Chunk>::files_only(PathBuf::from("o"));
    session.fps = 240;
    session.video_bitrate_bps = 200_000_000;
    assert!(PipelineParams::try_from_session_config(session, false, &CaptureEnv::default()).is_ok());
}

#[test]
fn audio_codec_tokens() {
    assert_eq!(audio_codec_from_token(None), AudioCodecChoice::AacLcMf);
    assert_eq!(audio_codec_from_token(Some("aac")), AudioCodecChoice::AacLcMf);
    assert_eq!(audio_codec_from_token(Some(" Opus ")), AudioCodecChoice::Opus);
    assert_eq!(audio_codec_from_token(Some("vorbis")), AudioCodecChoice::AacLcMf);
}

#[test]
fn encoder_selection_order() {
    assert_eq!(encoder_attempts(WindowsEncoderPreference::Auto, true), vec![Nvenc, MfHardware, OpenH264]);
    assert_eq!(encoder_attempts(WindowsEncoderPreference::PreferNvenc, true), vec![Nvenc, MfHardware, OpenH264]);
    assert_eq!(encoder_attempts(WindowsEncoderPreference::Auto, false), vec![OpenH264]);
    assert_eq!(encoder_attempts(WindowsEncoderPreference::SoftwareOnly, true), vec![OpenH264]);
    assert_eq!(encoder_attempts(WindowsEncoderPreference::RequireNvenc, true), vec![Nvenc]);
    assert_eq!(encoder_attempts(WindowsEncoderPreference::RequireNvenc, false), vec![]);
    assert_eq!(
        WindowsEncoderPreference::from_env_tokens(Some("openh264"), None, None),
        WindowsEncoderPreference::SoftwareOnly
    );
    assert_eq!(
        WindowsEncoderPreference::from_env_tokens(None, Some("1"), Some("true")),
        WindowsEncoderPreference::RequireNvenc
    );
    assert_eq!(WindowsEncoderPreference::from_env_tokens(None, None, None), WindowsEncoderPreference::Auto);
}

#[test]
fn default_session_matches_default_env() {
    let env = CaptureEnv::default();
    let a: PipelineParams<Chunk> = PipelineParams::try_from_session_config(
        SessionConfig::files_only(PathBuf::from("same")),
        false,
        &env,
    )
    .unwrap();
    let b: PipelineParams<Chunk> = pipeline_params_from_cli_and_env(PathBuf::from("same"), 0, true, &env);
    assert_eq!(a.outputs.directory(), b.outputs.directory());
    assert_eq!((a.frame_limit, a.capture_system_audio), (b.frame_limit, b.capture_system_audio));
    assert_eq!((a.fps, a.video_bitrate_bps), (b.fps, b.video_bitrate_bps));
    assert_eq!((a.frame_pacing, a.async_nvenc, a.cfr_mux), (b.frame_pacing, b.async_nvenc, b.cfr_mux));
    assert_eq!(a.av_drift_threshold_pcm_frames, b.av_drift_threshold_pcm_frames);
    assert_eq!(a.video_codec_preference, b.video_codec_preference);
    assert_eq!(a.stream_backpressure, b.stream_backpressure);
    assert_eq!(a.audio_codec, b.audio_codec);
    assert_eq!(a.remux_with_ffmpeg, b.remux_with_ffmpeg);
}
