use capture_pipeline::annexb::{
    annex_b_from_nal_layers, annex_b_keyframe, compressed_to_annex_b, nal_type, nal_units,
    nal_units_to_avcc_sample, start_code_len,
};

#[test]
fn parses_mixed_start_codes() {
    let annexb = [
        0, 0, 0, 1, 0x67, 0x11, 0x22, // SPS
        0, 0, 1, 0x68, 0x33, 0x44, // PPS
        0, 0, 0, 1, 0x65, 0xaa, 0xbb, // IDR
    ];
    let nals = nal_units(&annexb);
    assert_eq!(nals.len(), 3);
    assert_eq!(nal_type(&nals[0]), Some(7));
    assert_eq!(nal_type(&nals[1]), Some(8));
    assert_eq!(nal_type(&nals[2]), Some(5));
}

#[test]
fn builds_avcc_length_prefixed_sample() {
    let nals = vec![vec![0x65, 0x01, 0x02], vec![0x41, 0x03]];
    let avcc = nal_units_to_avcc_sample(&nals);
    assert_eq!(
        avcc,
        vec![
            0, 0, 0, 3, 0x65, 0x01, 0x02, //
            0, 0, 0, 2, 0x41, 0x03
        ]
    );
}

#[test]
fn length_prefixed_to_annex_b() {
    let nal = [0x09, 0x10];
    let mut v = vec![0u8, 0, 0, 2];
    v.extend_from_slice(&nal);
    let out = compressed_to_annex_b(&v);
    assert!(out.windows(4).any(|w| w == [0, 0, 0, 1]));
}

#[test]
fn start_code_lengths() {
    let buf = [0u8, 0, 0, 1, 0, 0, 1, 7];
    assert_eq!(start_code_len(&buf, 0), Some(4));
    assert_eq!(start_code_len(&buf, 1), Some(3));
    assert_eq!(start_code_len(&buf, 4), Some(3));
    assert_eq!(start_code_len(&buf, 2), None);
    assert_eq!(start_code_len(&buf, 6), None);
    assert_eq!(start_code_len(&buf, 100), None);
}

#[test]
fn nal_units_skip_leading_garbage_and_empty_payloads() {
    // Garbage before the first start code, then two start codes back to back.
    let buf = [0x55u8, 0x66, 0, 0, 1, 0, 0, 1, 0x41, 0x9a];
    let nals = nal_units(&buf);
    assert_eq!(nals, vec![vec![0x41, 0x9a]]);
}

#[test]
fn nal_units_without_start_code_is_empty() {
    assert!(nal_units(&[1, 2, 3, 4]).is_empty());
    assert!(nal_units(&[]).is_empty());
}

#[test]
fn nal_type_of_empty_is_none() {
    assert_eq!(nal_type(&[]), None);
    assert_eq!(nal_type(&[0xff]), Some(0x1f));
}

#[test]
fn join_then_split_gives_nal_units_back() {
    // The round-trip law on concrete well-formed NAL units.
    let nals = vec![vec![0x67u8, 0x42, 0x00, 0x1f], vec![0x68u8, 0xce], vec![0x65u8, 0x88, 0x84]];
    let mut annexb = Vec::new();
    for n in &nals {
        annexb.extend_from_slice(&[0, 0, 0, 1]);
        annexb.extend_from_slice(n);
    }
    assert_eq!(nal_units(&annexb), nals);
}

#[test]
fn split_payloads_hold_no_start_code() {
    let buf = [0u8, 0, 1, 0x41, 0, 0, 2, 0, 0, 0, 1, 0x01, 0x00];
    for nal in nal_units(&buf) {
        assert!(!nal.is_empty());
        assert!(!nal.windows(3).any(|w| w == [0, 0, 1]));
    }
}

#[test]
fn avcc_length_is_big_endian() {
    let nal = vec![0xabu8; 300];
    let avcc = nal_units_to_avcc_sample(&[nal.clone()]);
    assert_eq!(&avcc[0..4], &[0, 0, 1, 0x2c]);
    assert_eq!(avcc.len(), 304);
    assert_eq!(&avcc[4..], &nal[..]);
}

#[test]
fn compressed_passes_start_coded_input_through() {
    let v = vec![0u8, 0, 1, 0x65, 0x10];
    assert_eq!(compressed_to_annex_b(&v), v);
}

#[test]
fn compressed_converts_two_length_prefixed_units() {
    let v = vec![0u8, 0, 0, 2, 0x09, 0x10, 0, 0, 0, 0, 0, 0, 0, 3, 0x65, 0x11, 0x22];
    assert_eq!(
        compressed_to_annex_b(&v),
        vec![0, 0, 0, 1, 0x09, 0x10, 0, 0, 0, 1, 0x65, 0x11, 0x22]
    );
}

#[test]
fn compressed_truncated_length_keeps_input() {
    // Length runs past the end: nothing can be read, so the input passes through.
    let v = vec![0u8, 0, 0, 9, 0x65];
    assert_eq!(compressed_to_annex_b(&v), v);
    assert_eq!(compressed_to_annex_b(&[]), Vec::<u8>::new());
}

#[test]
fn keyframe_detection() {
    assert!(annex_b_keyframe(&[0, 0, 0, 1, 0x67, 0, 0, 1, 0x65, 0x88]));
    assert!(!annex_b_keyframe(&[0, 0, 0, 1, 0x41, 0x9a]));
    assert!(!annex_b_keyframe(&[0x65]));
    assert!(!annex_b_keyframe(&[0, 0, 1]));
}

#[test]
fn layers_become_start_coded_stream() {
    let layers = vec![
        Some(vec![Some(vec![0x67u8, 0x42]), None, Some(vec![0x68u8])]),
        None,
        Some(vec![Some(vec![0x65u8, 0x88])]),
    ];
    assert_eq!(
        annex_b_from_nal_layers(&layers),
        vec![0, 0, 0, 1, 0x67, 0x42, 0, 0, 0, 1, 0x68, 0, 0, 0, 1, 0x65, 0x88]
    );
    assert!(annex_b_from_nal_layers(&vec![]).is_empty());
}

#[test]
fn avcc_sample_converts_back_to_annex_b() {
    let nals = vec![vec![0x67u8, 0x42, 0x1f], vec![0x65u8, 0x88, 0x84]];
    let avcc = nal_units_to_avcc_sample(&nals);
    assert_eq!(
        compressed_to_annex_b(&avcc),
        vec![0, 0, 0, 1, 0x67, 0x42, 0x1f, 0, 0, 0, 1, 0x65, 0x88, 0x84]
    );
}

#[test]
fn length_prefix_that_looks_like_a_start_code_passes_through() {
    // A 256-byte unit's length prefix is 00 00 01 00: the input reads as already start-coded.
    let avcc = nal_units_to_avcc_sample(&[vec![0x65u8; 256]]);
    assert_eq!(&avcc[0..4], &[0, 0, 1, 0]);
    assert_eq!(compressed_to_annex_b(&avcc), avcc);
}
