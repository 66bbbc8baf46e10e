use capture_pipeline::events::{next_ping_slot, video_packet_for_slot, RunStats, StreamClock, VideoEncodeJob};
use capture_pipeline::readback::{bgra_rows_to_rgba, bytes_per_pixel, copy_rows_tight, dispatch_groups, UnsupportedFormat};
use capture_pipeline::soft_encoder::{packet_from_bitstream, OpenH264VideoEncoder, SoftwareEncodeError, SoftwareFrameType};
use capture_pipeline::stage_queue::{stage_channel, StageTryRecvError, StageTrySendError, Timed};
use capture_pipeline::video::{EncodedPacket, VideoCodec};

#[test]
fn stage_queue_roundtrip() {
    let (tx, rx) = stage_channel::<u32>(1);
    assert!(matches!(rx.try_recv(), Err(StageTryRecvError::Empty)));
    assert!(tx.try_send(Timed::new(5, 10)).is_ok());
    match tx.try_send(Timed::new(6, 11)) {
        Err(StageTrySendError::Full(item)) => assert_eq!((item.timestamp_us, item.data), (6, 11)),
        _ => panic!("expected a full queue"),
    }
    let got = rx.recv().unwrap();
    assert_eq!((got.timestamp_us, got.data), (5, 10));
    let tx2 = tx.clone();
    assert!(tx2.send(Timed::new(7, 12)).is_ok());
    drop(tx);
    drop(tx2);
    assert_eq!(rx.try_recv().unwrap().data, 12);
    assert!(matches!(rx.try_recv(), Err(StageTryRecvError::Disconnected)));
    assert!(rx.recv().is_err());
}

#[test]
fn send_to_closed_queue_hands_item_back() {
    let (tx, rx) = stage_channel::<u32>(4);
    drop(rx);
    let e = tx.send(Timed::new(1, 2)).unwrap_err();
    assert_eq!(e.0.data, 2);
    assert!(matches!(tx.try_send(Timed::new(3, 4)), Err(StageTrySendError::Disconnected(_))));
}

#[test]
fn readback_repacks_rows() {
    let mapped = [1u8, 2, 0xee, 0xee, 3, 4, 0xee, 0xee];
    assert_eq!(copy_rows_tight(&mapped, 4, 2, 2), vec![1, 2, 3, 4]);
    assert_eq!(bytes_per_pixel(62), Ok(1));
    assert_eq!(bytes_per_pixel(50), Ok(2));
    assert_eq!(bytes_per_pixel(87), Err(UnsupportedFormat(87)));
    let bgra = [10u8, 20, 30, 40, 0, 0, 50, 60, 70, 80];
    assert_eq!(bgra_rows_to_rgba(&bgra, 6, 1, 2), vec![30, 20, 10, 40, 70, 60, 50, 80]);
    assert_eq!(dispatch_groups(1920, 1080), (120, 68));
}

#[test]
fn event_helpers() {
    assert_eq!(next_ping_slot(0), 1);
    assert_eq!(next_ping_slot(1), 0);
    let pkt = EncodedPacket { data: vec![0, 0, 0, 1, 0x65], timestamp_us: 9, is_keyframe: true, codec: VideoCodec::H264 };
    let first = video_packet_for_slot(&pkt, 0);
    let repeat = video_packet_for_slot(&pkt, 1);
    assert!(first.is_keyframe && !repeat.is_keyframe);
    assert_eq!(first.annex_b, pkt.data);
    assert_eq!(repeat.timestamp_us, 9);
    let job = VideoEncodeJob { slot: 1, ts_us: 3 };
    assert_eq!(job.slot, 1);
    let stats = RunStats {
        frames_captured: 1,
        audio_samples_total: 2,
        stream_video_packets_sent: 3,
        stream_audio_chunks_sent: 4,
        stream_video_packets_dropped_full: 5,
        stream_audio_chunks_dropped_full: 6,
    };
    assert_eq!(stats.stream_audio_chunks_sent, 4);
    assert_eq!(StreamClock, StreamClock::default());
}

#[test]
fn bitstream_packet() {
    let layers = vec![Some(vec![Some(vec![0x67u8]), Some(vec![0x65u8, 1])])];
    let p = packet_from_bitstream(&layers, SoftwareFrameType::Idr, 42);
    assert_eq!(p.data, vec![0, 0, 0, 1, 0x67, 0, 0, 0, 1, 0x65, 1]);
    assert!(p.is_keyframe);
    assert_eq!(p.timestamp_us, 42);
    assert!(!packet_from_bitstream(&layers, SoftwareFrameType::P, 0).is_keyframe);
    assert!(packet_from_bitstream(&layers, SoftwareFrameType::I, 0).is_keyframe);
}

#[test]
fn openh264_encodes_a_frame() {
    let (w, h) = (64usize, 64usize);
    let mut enc = OpenH264VideoEncoder::new(w as u32, h as u32, 500_000).unwrap();
    assert_eq!(enc.codec(), VideoCodec::H264);
    assert!(matches!(enc.encode_i420(&[0u8; 10], 0), Err(SoftwareEncodeError::I420TooSmall)));
    let frame = vec![128u8; w * h * 3 / 2];
    let pkt = enc.encode_i420(&frame, 33_000).unwrap();
    assert!(pkt.is_keyframe);
    assert_eq!(pkt.timestamp_us, 33_000);
    assert!(pkt.data.starts_with(&[0, 0, 0, 1]));
}
