use capture_pipeline::video::{
    any_adapter_from_vendor, aspect_ratio, frame_duration_hns, gcd, gop_frames,
    mf_caller_provides_sample, mf_output_alignment, mf_output_buffer_capacity, mf_want_idr,
    nvenc_bgra_pitch, nvenc_force_idr, pick_h264_preset, should_fall_back_to_software,
    EncoderConfig, NvencPresetError, AMD_VENDOR_ID, INTEL_VENDOR_ID, NV_ENC_CODEC_H264_GUID,
    NV_ENC_PRESET_P2_GUID, NV_ENC_PRESET_P5_GUID, NV_ENC_PRESET_P7_GUID,
};

#[test]
fn gcd_values() {
    assert_eq!(gcd(1920, 1080), 120);
    assert_eq!(gcd(0, 5), 5);
    assert_eq!(gcd(7, 0), 7);
    assert_eq!(gcd(0, 0), 0);
    assert_eq!(gcd(17, 5), 1);
}

#[test]
fn aspect_ratios() {
    assert_eq!(aspect_ratio(1920, 1080), [16, 9]);
    assert_eq!(aspect_ratio(0, 0), [0, 0]);
    assert_eq!(aspect_ratio(1280, 1024), [5, 4]);
}

#[test]
fn gop_and_keyframes() {
    assert_eq!(gop_frames(60), 120);
    assert_eq!(gop_frames(5), 30);
    assert_eq!(gop_frames(u32::MAX), u32::MAX);
    assert!(nvenc_force_idr(0, 120));
    assert!(nvenc_force_idr(240, 120));
    assert!(!nvenc_force_idr(241, 120));
    assert!(!nvenc_force_idr(5, 0));
    assert!(mf_want_idr(0, 60));
    assert!(mf_want_idr(60, 60));
    assert!(!mf_want_idr(61, 60));
    assert!(mf_want_idr(3, 0));
}

#[test]
fn mf_helpers() {
    assert_eq!(frame_duration_hns(30), 333_333);
    assert_eq!(frame_duration_hns(u32::MAX), 1);
    assert_eq!(mf_output_buffer_capacity(4096, 1920, 1080), 4096);
    assert_eq!(mf_output_buffer_capacity(0, 1920, 1080), 1920 * 1080 * 3 / 2 + 65_536);
    assert_eq!(mf_output_buffer_capacity(0, u32::MAX, 2), u32::MAX / 2 + 65_536);
    assert!(mf_caller_provides_sample(0));
    assert!(!mf_caller_provides_sample(0x100));
    assert!(!mf_caller_provides_sample(0x200));
    assert!(mf_caller_provides_sample(0x7));
    assert_eq!(mf_output_alignment(0), 1);
    assert_eq!(mf_output_alignment(16), 16);
}

#[test]
fn preset_choice_prefers_slowest() {
    let codecs = [NV_ENC_CODEC_H264_GUID];
    assert_eq!(
        pick_h264_preset(&codecs, &[NV_ENC_PRESET_P2_GUID, NV_ENC_PRESET_P5_GUID]),
        Ok((NV_ENC_PRESET_P5_GUID, "P5"))
    );
    assert_eq!(
        pick_h264_preset(&codecs, &[NV_ENC_PRESET_P7_GUID, NV_ENC_PRESET_P2_GUID]),
        Ok((NV_ENC_PRESET_P7_GUID, "P7"))
    );
    assert_eq!(pick_h264_preset(&[], &[NV_ENC_PRESET_P7_GUID]), Err(NvencPresetError::NoH264));
    assert_eq!(pick_h264_preset(&codecs, &[1, 2]), Err(NvencPresetError::NoSupportedPreset));
}

#[test]
fn fallback_classification() {
    assert!(should_fall_back_to_software(true, false, "encode_bgra_texture: register_resource_dx11: InvalidParam"));
    assert!(should_fall_back_to_software(true, false, "NVENC: InvalidEncoderDevice"));
    assert!(!should_fall_back_to_software(true, true, "InvalidDevice"));
    assert!(!should_fall_back_to_software(false, false, "InvalidDevice"));
    assert!(!should_fall_back_to_software(true, false, "encode_picture: NeedMoreInput"));
}

#[test]
fn vendor_probe_and_pitch() {
    assert!(any_adapter_from_vendor(&[0x10de, AMD_VENDOR_ID], AMD_VENDOR_ID));
    assert!(!any_adapter_from_vendor(&[0x10de], INTEL_VENDOR_ID));
    assert_eq!(nvenc_bgra_pitch(1920), 7680);
    assert_eq!(nvenc_bgra_pitch(u32::MAX), u32::MAX);
}

#[test]
fn encoder_config_fields() {
    let c = EncoderConfig::new(1920, 1080, 60, 8_000_000);
    assert_eq!((c.width, c.height, c.fps, c.bitrate_bps), (1920, 1080, 60, 8_000_000));
}
