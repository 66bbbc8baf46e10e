use capture_pipeline::annexb::{annex_b_keyframe, nal_type, nal_units, start_code_len};
use capture_pipeline::audio::{prepend_silence_frames_front, trim_interleaved_frames_front, SilenceAudioCapture};
use capture_pipeline::pool::TexturePool;
use capture_pipeline::mp4_track::{video_sample, Mp4H264Track};
use capture_pipeline::soft_encoder::{
    openh264_frame_input, openh264_settings, EncoderUsage, OpenH264VideoEncoder, SoftwareEncodeError,
};
use capture_pipeline::video::{
    pick_h264_preset, NV_ENC_CODEC_H264_GUID, NV_ENC_PRESET_P3_GUID, NV_ENC_PRESET_P4_GUID,
};
use capture_pipeline::yuv::{nv12_readback_to_i420, FrameSize, YuvError};

#[test]
fn start_code_len_far_past_the_end_is_none() {
    assert_eq!(start_code_len(&[0, 0, 1], usize::MAX), None);
    assert_eq!(start_code_len(&[0, 0, 1], usize::MAX - 2), None);
}

#[test]
fn odd_width_at_the_top_of_the_range_is_rejected() {
    assert_eq!(nv12_readback_to_i420(&[], &[], u32::MAX, 2), Err(YuvError::OddDimensions));
    assert_eq!(nv12_readback_to_i420(&[], &[], 2, u32::MAX), Err(YuvError::OddDimensions));
}

#[test]
fn preset_found_when_offered() {
    let codecs = [7u128, NV_ENC_CODEC_H264_GUID];
    let (g, label) = pick_h264_preset(&codecs, &[NV_ENC_PRESET_P3_GUID, NV_ENC_PRESET_P4_GUID]).unwrap();
    assert_eq!(g, NV_ENC_PRESET_P4_GUID);
    assert_eq!(label, "P4");
}

#[test]
fn frame_input_cuts_one_frame_and_converts_to_ms() {
    let (frame, ts_ms) = openh264_frame_input(&[1, 2, 3, 4, 5, 6, 7], 6, 33_999);
    assert_eq!(frame, vec![1, 2, 3, 4, 5, 6]);
    assert_eq!(ts_ms, 33);
}

#[test]
fn too_small_only_for_short_buffers() {
    let mut enc = OpenH264VideoEncoder::new(16, 16, 500_000).unwrap();
    assert!(matches!(enc.encode_i420(&[0u8; 383], 0), Err(SoftwareEncodeError::I420TooSmall)));
    let r = enc.encode_i420(&[0x80u8; 384], 0);
    assert!(!matches!(r, Err(SoftwareEncodeError::I420TooSmall)));
}

#[test]
fn mixed_start_codes_split_back_and_find_idr() {
    let nals: Vec<Vec<u8>> = vec![vec![0x67, 0x11], vec![0x68, 0x22], vec![0x65, 0x33], vec![0x41, 0x44]];
    let long = [false, true, false, true];
    let mut stream = Vec::new();
    for (n, l) in nals.iter().zip(long.iter()) {
        if *l {
            stream.extend_from_slice(&[0, 0, 0, 1]);
        } else {
            stream.extend_from_slice(&[0, 0, 1]);
        }
        stream.extend_from_slice(n);
    }
    assert_eq!(nal_units(&stream), nals);
    assert!(annex_b_keyframe(&stream));
    assert!(nal_units(&stream).iter().any(|n| nal_type(n) == Some(5)));
    let no_idr = [0, 0, 1, 0x67, 0x11, 0, 0, 0, 1, 0x41, 0x44];
    assert!(!annex_b_keyframe(&no_idr));
    assert!(!nal_units(&no_idr).iter().any(|n| nal_type(n) == Some(5)));
}

#[test]
fn silence_timestamp_after_k_chunks() {
    let mut cap = SilenceAudioCapture::new(44_100, 2, 441).unwrap();
    let step = cap.chunk_duration_us();
    assert_eq!(step, 10_000);
    for k in 0..25u64 {
        let c = cap.next_chunk();
        assert_eq!(c.timestamp_us, k * step);
        assert_eq!(c.sample_count, 882);
    }
    assert_eq!(cap.next_timestamp_us(), 25 * step);
}

#[test]
fn trim_undoes_prepend() {
    let s0 = vec![5i16, 6, 7, 8, 9, 10];
    let mut s = s0.clone();
    let mut pending = 3u64;
    let p = prepend_silence_frames_front(&mut s, 2, &mut pending, 0i16);
    assert_eq!(p, 3);
    assert_eq!(s.len(), 12);
    let mut skip = p;
    assert_eq!(trim_interleaved_frames_front(&mut s, 2, &mut skip), 3);
    assert_eq!(s, s0);
    assert_eq!(skip, 0);
}

#[test]
fn pool_free_count_and_fifo() {
    let size = FrameSize { width: 4, height: 2 };
    let mut pool = TexturePool::new(size, vec![1, 2, 3]);
    assert_eq!(pool.acquire(), Some(1));
    assert_eq!(pool.acquire(), Some(2));
    pool.release(9);
    assert_eq!(pool.available(), 3 - 2 + 1);
    assert_eq!(pool.acquire(), Some(3));
    assert_eq!(pool.acquire(), Some(9));
    assert_eq!(pool.acquire(), None);
    assert_eq!(pool.available(), 0);
    pool.release(4);
    assert_eq!(pool.acquire(), Some(4));
}

#[test]
fn software_encoder_settings() {
    assert_eq!(openh264_settings(2_500_000), (EncoderUsage::ScreenContentRealTime, 2_500_000));
}

#[test]
fn mp4_track_and_sample_succeed_when_owed() {
    let t = Mp4H264Track::new(64, 48, 1).unwrap();
    assert_eq!(t.frame_duration(), 30_000);
    assert!(Mp4H264Track::new(64, 48, 240).is_ok());
    let nals = vec![vec![0x67, 1], vec![0x41, 2, 3]];
    let s = video_sample(&nals, false, 1000).unwrap();
    assert_eq!(s.bytes, vec![0, 0, 0, 3, 0x41, 2, 3]);
    assert_eq!((s.duration, s.is_sync), (1000, false));
}
