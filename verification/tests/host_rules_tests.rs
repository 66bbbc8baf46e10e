use capture_pipeline::audio::SilenceAudioCapture;
use capture_pipeline::mp4_track::{aac_track_config, AacTrackConfig, Mp4Error};
use capture_pipeline::pool::TexturePool;
use capture_pipeline::settings::{
    aac_bitrate_from_token, audio_enabled_from_arg, frame_limit_from_arg, metrics_from_token,
    no_priority_boost_from_token, opus_bitrate_from_token, presence_emphasis_from_token,
};
use capture_pipeline::timing::device_frame_to_us;
use capture_pipeline::video::{
    mf_input_retry_allowed, MfDrainStep, MfEncodeError, MfOutputDrain, MfOutputEvent, VideoCodec,
};
use capture_pipeline::yuv::FrameSize;

#[test]
fn command_line_arguments() {
    assert_eq!(frame_limit_from_arg(None), 0);
    assert_eq!(frame_limit_from_arg(Some("300")), 300);
    assert_eq!(frame_limit_from_arg(Some("+7")), 7);
    assert_eq!(frame_limit_from_arg(Some("abc")), 0);
    assert_eq!(frame_limit_from_arg(Some("4294967296")), 0);
    assert_eq!(frame_limit_from_arg(Some("4294967295")), u32::MAX);
    assert!(audio_enabled_from_arg(None));
    assert!(audio_enabled_from_arg(Some("audio")));
    assert!(!audio_enabled_from_arg(Some("noaudio")));
}

#[test]
fn host_switches_and_audio_bitrates() {
    assert_eq!(aac_bitrate_from_token(None), 192_000);
    assert_eq!(aac_bitrate_from_token(Some("128000")), 128_000);
    assert_eq!(aac_bitrate_from_token(Some("0")), 192_000);
    assert_eq!(aac_bitrate_from_token(Some("fast")), 192_000);
    assert_eq!(opus_bitrate_from_token(None), 128_000);
    assert_eq!(opus_bitrate_from_token(Some("64000")), 64_000);
    assert_eq!(opus_bitrate_from_token(Some("99999999999")), 128_000);
    assert!(presence_emphasis_from_token(None));
    assert!(!presence_emphasis_from_token(Some("off")));
    assert!(metrics_from_token(Some("yes")));
    assert!(!metrics_from_token(Some("0")));
    assert!(no_priority_boost_from_token(Some("1")));
    assert!(!no_priority_boost_from_token(Some("true")));
    assert!(!no_priority_boost_from_token(None));
}

#[test]
fn aac_track_for_mp4() {
    assert_eq!(
        aac_track_config(48_000, 2, 192_000),
        Ok(AacTrackConfig { bitrate: 192_000, timescale: 48_000, freq_index: 3, channel_config: 2 })
    );
    assert_eq!(aac_track_config(44_100, 1, 96_000).map(|c| c.freq_index), Ok(4));
    assert_eq!(aac_track_config(7_350, 7, 1).map(|c| c.freq_index), Ok(12));
    assert_eq!(aac_track_config(44_000, 2, 1), Err(Mp4Error::UnsupportedSampleRate));
    assert_eq!(aac_track_config(48_000, 0, 1), Err(Mp4Error::UnsupportedChannels));
    assert_eq!(aac_track_config(48_000, 8, 1), Err(Mp4Error::UnsupportedChannels));
}

#[test]
fn mf_output_drain_collects_a_frame() {
    let mut d = MfOutputDrain::new();
    assert_eq!(d.on_output(MfOutputEvent::NoSample), MfDrainStep::Continue);
    assert_eq!(d.on_output(MfOutputEvent::Sample(vec![0, 0, 0, 2, 0x65, 0x88])), MfDrainStep::Continue);
    assert_eq!(d.on_output(MfOutputEvent::StreamChange), MfDrainStep::Reconfigure);
    assert_eq!(d.on_output(MfOutputEvent::NeedMoreInput), MfDrainStep::Done);
    let p = d.finish(77).unwrap();
    assert_eq!(p.data, vec![0, 0, 0, 1, 0x65, 0x88]);
    assert!(p.is_keyframe);
    assert_eq!(p.timestamp_us, 77);
    assert_eq!(p.codec, VideoCodec::H264);
}

#[test]
fn mf_output_drain_limits_stream_changes() {
    let mut d = MfOutputDrain::new();
    for _ in 0..8 {
        assert_eq!(d.on_output(MfOutputEvent::StreamChange), MfDrainStep::Reconfigure);
    }
    assert_eq!(d.on_output(MfOutputEvent::StreamChange), MfDrainStep::TooManyStreamChanges);
    assert!(matches!(d.finish(0), Err(MfEncodeError::EmptyBitstream)));
    assert!(mf_input_retry_allowed(0));
    assert!(mf_input_retry_allowed(7));
    assert!(!mf_input_retry_allowed(8));
}

#[test]
fn audio_packet_time_from_device_position() {
    assert_eq!(device_frame_to_us(0, 48_000), 0);
    assert_eq!(device_frame_to_us(48_000, 48_000), 1_000_000);
    assert_eq!(device_frame_to_us(441, 44_100), 10_000);
    assert_eq!(device_frame_to_us(u64::MAX, 1), u64::MAX);
}

#[test]
fn texture_pool_is_fifo() {
    let size = FrameSize { width: 64, height: 32 };
    let mut pool = TexturePool::new(size, vec!['a', 'b']);
    assert_eq!(pool.size(), size);
    assert_eq!(pool.available(), 2);
    assert_eq!(pool.acquire(), Some('a'));
    pool.release('c');
    assert_eq!(pool.acquire(), Some('b'));
    assert_eq!(pool.acquire(), Some('c'));
    assert_eq!(pool.acquire(), None);
    assert_eq!(pool.available(), 0);
}

#[test]
fn silence_capture_timeline() {
    let mut s = SilenceAudioCapture::new(48_000, 2, 480).unwrap();
    assert_eq!(s.chunk_duration_us(), 10_000);
    assert_eq!(s.next_timestamp_us(), 0);
    let c = s.next_chunk();
    assert_eq!((c.timestamp_us, c.sample_count), (0, 960));
    assert_eq!(s.next_timestamp_us(), 10_000);
}
