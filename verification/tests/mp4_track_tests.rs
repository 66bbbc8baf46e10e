use capture_pipeline::annexb::compressed_to_annex_b;
use capture_pipeline::mp4_track::{video_sample, Mp4Error, Mp4H264Track, MP4_TIMESCALE};

fn frame(nals: &[&[u8]]) -> Vec<u8> {
    let mut v = Vec::new();
    for n in nals {
        v.extend_from_slice(&[0, 0, 0, 1]);
        v.extend_from_slice(n);
    }
    v
}

#[test]
fn zero_fps_is_refused() {
    assert!(matches!(Mp4H264Track::new(1920, 1080, 0), Err(Mp4Error::ZeroFps)));
}

#[test]
fn frame_duration_from_fps() {
    let t = Mp4H264Track::new(1920, 1080, 60).unwrap();
    assert_eq!(t.video_timescale(), MP4_TIMESCALE);
    assert_eq!(t.frame_duration(), 500);
    assert!(!t.track_added());
}

#[test]
fn track_needs_parameter_sets() {
    let mut t = Mp4H264Track::new(64, 32, 30).unwrap();
    let nals = t.absorb_frame(&frame(&[&[0x65, 0x88]]));
    assert_eq!(nals.len(), 1);
    assert!(matches!(t.track_to_add(), Err(Mp4Error::MissingParameterSets)));
}

#[test]
fn first_parameter_sets_are_kept() {
    let mut t = Mp4H264Track::new(64, 32, 30).unwrap();
    t.absorb_frame(&frame(&[&[0x67, 1], &[0x68, 2], &[0x65, 0x88]]));
    t.absorb_frame(&frame(&[&[0x67, 9], &[0x68, 9], &[0x41, 0x9a]]));
    let cfg = t.track_to_add().unwrap().unwrap();
    assert_eq!(cfg.seq_param_set, vec![0x67, 1]);
    assert_eq!(cfg.pic_param_set, vec![0x68, 2]);
    assert_eq!((cfg.width, cfg.height, cfg.timescale), (64, 32, 30_000));
    t.mark_track_added();
    assert!(t.track_added());
    assert!(matches!(t.track_to_add(), Ok(None)));
}

#[test]
fn sample_holds_only_vcl_units() {
    let nals = vec![vec![0x67u8, 1], vec![0x68u8, 2], vec![0x65u8, 0x88], vec![0x06u8, 5], vec![0x41u8, 7]];
    let s = video_sample(&nals, true, 1000).unwrap();
    assert_eq!(s.duration, 1000);
    assert!(s.is_sync);
    assert_eq!(s.bytes, vec![0, 0, 0, 2, 0x65, 0x88, 0, 0, 0, 2, 0x41, 7]);
}

#[test]
fn sample_without_vcl_is_refused() {
    let nals = vec![vec![0x67u8, 1], vec![0x68u8, 2]];
    assert!(matches!(video_sample(&nals, false, 1000), Err(Mp4Error::NoVclNalUnits)));
}

#[test]
fn mp4_sample_reads_back_to_the_slices() {
    let mut t = Mp4H264Track::new(64, 32, 30).unwrap();
    let nals = t.absorb_frame(&frame(&[&[0x67, 0x42], &[0x68, 0xce], &[0x65, 0x88, 0x84], &[0x41, 0x9a]]));
    let s = video_sample(&nals, true, 1000).unwrap();
    assert_eq!(
        compressed_to_annex_b(&s.bytes),
        frame(&[&[0x65, 0x88, 0x84], &[0x41, 0x9a]])
    );
}
