use capture_pipeline::yuv::{i420_to_nv12, nv12_readback_to_i420, FrameSize, YuvError};

#[test]
fn i420_nv12_roundtrip_size() {
    let w = 32usize;
    let h = 32usize;
    let y = w * h;
    let c = (w / 2) * (h / 2);
    let mut i420 = vec![0u8; y + 2 * c];
    i420[0] = 16;
    i420[y] = 128;
    i420[y + c] = 128;
    let nv12 = i420_to_nv12(&i420, w, h).unwrap();
    assert_eq!(nv12.len(), y + 2 * c);
}

#[test]
fn i420_to_nv12_interleaves_chroma() {
    // 4x2 frame: 8 luma bytes, 2 U bytes, 2 V bytes.
    let i420: Vec<u8> = (0u8..12).collect();
    let nv12 = i420_to_nv12(&i420, 4, 2).unwrap();
    assert_eq!(nv12, vec![0, 1, 2, 3, 4, 5, 6, 7, 8, 10, 9, 11]);
}

#[test]
fn i420_to_nv12_errors() {
    assert_eq!(i420_to_nv12(&[0u8; 11], 4, 2), Err(YuvError::BufferTooSmall));
    assert_eq!(i420_to_nv12(&[], usize::MAX, 2), Err(YuvError::SizeOverflow));
}

#[test]
fn readback_to_i420_deinterleaves() {
    let y: Vec<u8> = (0u8..8).collect();
    let uv = vec![100u8, 200, 101, 201];
    let i420 = nv12_readback_to_i420(&y, &uv, 4, 2).unwrap();
    assert_eq!(i420, vec![0, 1, 2, 3, 4, 5, 6, 7, 100, 101, 200, 201]);
}

#[test]
fn readback_errors() {
    assert_eq!(nv12_readback_to_i420(&[0; 6], &[0; 4], 3, 2), Err(YuvError::OddDimensions));
    assert_eq!(nv12_readback_to_i420(&[0; 7], &[0; 4], 4, 2), Err(YuvError::LumaTooSmall));
    assert_eq!(nv12_readback_to_i420(&[0; 8], &[0; 3], 4, 2), Err(YuvError::ChromaTooSmall));
}

#[test]
fn i420_nv12_i420_roundtrip_restores_frame() {
    let (w, h) = (6usize, 4usize);
    let i420: Vec<u8> = (0..(w * h * 3 / 2) as u32).map(|x| (x * 7 % 251) as u8).collect();
    let nv12 = i420_to_nv12(&i420, w, h).unwrap();
    let back = nv12_readback_to_i420(&nv12[..w * h], &nv12[w * h..], w as u32, h as u32).unwrap();
    assert_eq!(back, i420);
}

#[test]
fn chroma_size_rounds_up() {
    assert_eq!(FrameSize { width: 1920, height: 1080 }.chroma_size(), (960, 540));
    assert_eq!(FrameSize { width: 5, height: 3 }.chroma_size(), (3, 2));
}
