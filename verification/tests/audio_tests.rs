use capture_pipeline::audio::{
    aac_input_format, opus_channels, opus_frame_len, opus_input_check, opus_resample_plan,
    pcm_frame_duration_hns, prepend_silence_frames_front, resampled_frame_count,
    trim_interleaved_frames_front, AudioConfigError, OpusChannels, OpusResample, PcmFrameQueue,
    PcmPassthroughEncoder, SilenceAudioCapture, WavFormat, OPUS_SAMPLES_PER_CHANNEL_FRAME_48K,
};

#[test]
fn silence_capture_validates_and_advances() {
    assert!(matches!(SilenceAudioCapture::new(0, 2, 480), Err(AudioConfigError::ZeroSampleRate)));
    assert!(matches!(SilenceAudioCapture::new(48_000, 0, 480), Err(AudioConfigError::ZeroChannels)));
    assert!(matches!(SilenceAudioCapture::new(48_000, 2, 0), Err(AudioConfigError::ZeroChunkFrames)));
    let mut cap = SilenceAudioCapture::new(48_000, 2, 480).unwrap();
    let a = cap.next_chunk();
    let b = cap.next_chunk();
    assert_eq!((a.timestamp_us, a.sample_count, a.channels, a.sample_rate), (0, 960, 2, 48_000));
    assert_eq!(b.timestamp_us, 10_000);
}

#[test]
fn trim_drops_whole_frames() {
    let mut s = vec![1, 2, 3, 4, 5, 6, 7];
    let mut skip = 2u64;
    assert_eq!(trim_interleaved_frames_front(&mut s, 2, &mut skip), 2);
    assert_eq!(s, vec![5, 6, 7]);
    assert_eq!(skip, 0);
    let mut skip = 10u64;
    assert_eq!(trim_interleaved_frames_front(&mut s, 2, &mut skip), 1);
    assert_eq!(s, vec![7]);
    assert_eq!(skip, 9);
    let mut skip = 3u64;
    assert_eq!(trim_interleaved_frames_front(&mut s, 0, &mut skip), 0);
    assert_eq!(skip, 3);
}

#[test]
fn prepend_adds_silence_frames() {
    let mut s = vec![9i16, 9];
    let mut pending = 2u64;
    assert_eq!(prepend_silence_frames_front(&mut s, 2, &mut pending, 0i16), 2);
    assert_eq!(s, vec![0, 0, 0, 0, 9, 9]);
    assert_eq!(pending, 0);
    let mut big = 50_000u64;
    let mut t: Vec<i16> = Vec::new();
    assert_eq!(prepend_silence_frames_front(&mut t, 1, &mut big, 0i16), 48_000);
    assert_eq!(t.len(), 48_000);
    assert_eq!(big, 2_000);
}

#[test]
fn frame_queue_emits_whole_frames_in_order() {
    let mut q: PcmFrameQueue<i16> = PcmFrameQueue::new(4);
    q.push_samples(&[1, 2, 3]);
    assert!(q.pop_frame().is_none());
    q.push_samples(&[4, 5, 6, 7, 8, 9]);
    assert_eq!(q.pop_frame(), Some(vec![1, 2, 3, 4]));
    assert_eq!(q.pop_frame(), Some(vec![5, 6, 7, 8]));
    assert!(q.pop_frame().is_none());
    assert_eq!(q.pending_len(), 1);
    q.pad_partial_frame(0);
    assert_eq!(q.pop_frame(), Some(vec![9, 0, 0, 0]));
    q.pad_partial_frame(0);
    assert_eq!(q.pending_len(), 0);
    q.push_samples(&[1]);
    q.clear();
    assert_eq!(q.pending_len(), 0);
    assert_eq!(q.frame_len(), 4);
}

#[test]
fn aac_formats() {
    let f = aac_input_format(48_000, 2).unwrap();
    assert_eq!((f.block_alignment, f.avg_bytes_per_second, f.frame_samples), (4, 192_000, 1024));
    assert_eq!(aac_input_format(32_000, 2), Err(AudioConfigError::UnsupportedSampleRate));
    assert_eq!(aac_input_format(44_100, 6), Err(AudioConfigError::UnsupportedChannels));
    assert_eq!(pcm_frame_duration_hns(1024, 48_000), 213_333);
}

#[test]
fn opus_checks() {
    assert_eq!(opus_channels(1), Ok(OpusChannels::Mono));
    assert_eq!(opus_channels(2), Ok(OpusChannels::Stereo));
    assert_eq!(opus_channels(6), Err(AudioConfigError::UnsupportedChannels));
    assert_eq!(opus_input_check(22_050, 2), Err(AudioConfigError::UnsupportedSampleRate));
    assert_eq!(opus_input_check(44_100, 3), Err(AudioConfigError::UnsupportedChannels));
    assert_eq!(opus_frame_len(2), 1920);
    assert_eq!(OPUS_SAMPLES_PER_CHANNEL_FRAME_48K, 960);
    assert_eq!(opus_resample_plan(48_000), Ok(OpusResample::Passthrough));
    assert_eq!(opus_resample_plan(44_100), Ok(OpusResample::From44100));
    assert_eq!(opus_resample_plan(96_000), Err(AudioConfigError::UnsupportedSampleRate));
    assert_eq!(resampled_frame_count(441, 44_100, 48_000), 480);
    assert_eq!(resampled_frame_count(1, 3, 2), 1);
}

#[test]
fn passthrough_writes_little_endian_bits() {
    let pkts = PcmPassthroughEncoder.encode_chunk_bits(7, 48_000, 2, &[1.0f32.to_bits(), 0x0102_0304]);
    assert_eq!(pkts.len(), 1);
    assert_eq!(pkts[0].timestamp_us, 7);
    assert_eq!(pkts[0].data, vec![0x00, 0x00, 0x80, 0x3f, 0x04, 0x03, 0x02, 0x01]);
}

#[test]
fn wav_header_layout() {
    let f = WavFormat::new(48_000, 2).unwrap();
    let h = f.header(1000);
    assert_eq!(h.len(), 44);
    assert_eq!(&h[0..4], b"RIFF");
    assert_eq!(&h[4..8], &1036u32.to_le_bytes());
    assert_eq!(&h[8..16], b"WAVEfmt ");
    assert_eq!(&h[22..24], &2u16.to_le_bytes());
    assert_eq!(&h[28..32], &192_000u32.to_le_bytes());
    assert_eq!(&h[32..34], &4u16.to_le_bytes());
    assert_eq!(&h[34..36], &16u16.to_le_bytes());
    assert_eq!(&h[36..40], b"data");
    assert_eq!(&h[40..44], &1000u32.to_le_bytes());
    assert_eq!(WavFormat::new(0, 2), Err(AudioConfigError::ZeroSampleRate));
    assert_eq!(WavFormat::new(48_000, 0), Err(AudioConfigError::ZeroChannels));
    assert_eq!(WavFormat::data_bytes_after(10, 5), 20);
    assert_eq!(WavFormat::data_bytes_after(u32::MAX - 1, 5), u32::MAX);
}
