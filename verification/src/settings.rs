//! Session settings and the `RS_CAPTURE_*` token rules that resolve them.
//!
//! Each `*_from_token` function takes the raw value of one variable (`None` when it is unset) and
//! returns the effective setting; reading the process environment is the host's job.

use vstd::prelude::*;

use crate::text::{
    eq_ignore_ascii_case, lowercase_chars, parse_unsigned, parse_unsigned_bounded, str_chars, str_is,
    str_is_ignore_case, to_ascii_lowercase, trim, trim_chars,
};

verus! {

/// Hint for encoder selection order.
#[derive(Clone, Copy, Debug, Default, PartialEq, Eq, Structural)]
pub enum VideoCodecPreference {
    #[default]
    Auto,
    PreferNvenc,
    PreferSoftware,
    RequireNvenc,
}

/// Audio codec for the session.
#[derive(Clone, Copy, Debug, Default, PartialEq, Eq, Structural)]
pub enum AudioCodecChoice {
    /// AAC-LC via Media Foundation for MP4.
    #[default]
    AacLcMf,
    /// Opus packets for low-latency stream consumers.
    Opus,
    PcmOnly,
}

/// What a stream sink does when its bounded queue is full.
#[derive(Clone, Copy, Debug, Default, PartialEq, Eq, Structural)]
pub enum StreamBackpressure {
    /// Wait for the consumer.
    #[default]
    Block,
    /// Drop the packet (`try_send`).
    DropWhenFull,
}

/// NVENC tuning profile.
#[derive(Clone, Copy, Debug, PartialEq, Eq, Structural)]
pub enum NvencTuning {
    HighQuality,
    LowLatency,
    UltraLowLatency,
    UltraHighQuality,
}

/// Encoder selection policy of the Windows encoder registry.
#[derive(Clone, Copy, Debug, Default, PartialEq, Eq, Structural)]
pub enum WindowsEncoderPreference {
    /// NVENC when available, then hardware Media Foundation, then OpenH264.
    #[default]
    Auto,
    /// As `Auto`; NVENC is the preferred backend.
    PreferNvenc,
    /// OpenH264 only.
    SoftwareOnly,
    /// NVENC or nothing.
    RequireNvenc,
}

/// The registry policy a session preference maps to.
pub open spec fn spec_windows_encoder_preference(p: VideoCodecPreference) -> WindowsEncoderPreference {
    match p {
        VideoCodecPreference::Auto => WindowsEncoderPreference::Auto,
        VideoCodecPreference::PreferNvenc => WindowsEncoderPreference::PreferNvenc,
        VideoCodecPreference::PreferSoftware => WindowsEncoderPreference::SoftwareOnly,
        VideoCodecPreference::RequireNvenc => WindowsEncoderPreference::RequireNvenc,
    }
}

/// Maps a session preference to the registry policy.
pub fn windows_encoder_preference(p: VideoCodecPreference) -> (r: WindowsEncoderPreference)
    ensures
        r == spec_windows_encoder_preference(p),
{
    match p {
        VideoCodecPreference::Auto => WindowsEncoderPreference::Auto,
        VideoCodecPreference::PreferNvenc => WindowsEncoderPreference::PreferNvenc,
        VideoCodecPreference::PreferSoftware => WindowsEncoderPreference::SoftwareOnly,
        VideoCodecPreference::RequireNvenc => WindowsEncoderPreference::RequireNvenc,
    }
}

impl WindowsEncoderPreference {
    /// Registry policy from the raw values of `RS_CAPTURE_ENCODER`, `RS_CAPTURE_NVENC` and
    /// `RS_CAPTURE_NVENC_REQUIRED`, by the same token rules as the session preference.
    pub fn from_env_tokens(
        rs_capture_encoder: Option<&str>,
        rs_capture_nvenc: Option<&str>,
        rs_capture_nvenc_required: Option<&str>,
    ) -> (r: Self)
        ensures
            r == spec_windows_encoder_preference(
                spec_video_codec_preference(
                    token_view(rs_capture_encoder),
                    token_view(rs_capture_nvenc),
                    token_view(rs_capture_nvenc_required),
                ),
            ),
    {
        windows_encoder_preference(
            video_codec_preference_from_tokens(
                rs_capture_encoder,
                rs_capture_nvenc,
                rs_capture_nvenc_required,
            ),
        )
    }
}

/// A video encoder backend the registry can open.
#[derive(Clone, Copy, Debug, PartialEq, Eq, Structural)]
pub enum EncoderBackend {
    /// NVIDIA NVENC on the capture device.
    Nvenc,
    /// A synchronous hardware Media Foundation H.264 transform (Intel, AMD and others).
    MfHardware,
    /// OpenH264 in software.
    OpenH264,
}

/// Backends to try, in order, until one opens: software-only tries OpenH264 alone; required
/// NVENC tries NVENC alone (nothing without a device); otherwise NVENC, hardware Media
/// Foundation and OpenH264 with a device, and OpenH264 alone without one.
pub open spec fn spec_encoder_attempts(pref: WindowsEncoderPreference, has_device: bool) -> Seq<
    EncoderBackend,
> {
    match pref {
        WindowsEncoderPreference::SoftwareOnly => seq![EncoderBackend::OpenH264],
        WindowsEncoderPreference::RequireNvenc => if has_device {
            seq![EncoderBackend::Nvenc]
        } else {
            Seq::empty()
        },
        _ => if has_device {
            seq![EncoderBackend::Nvenc, EncoderBackend::MfHardware, EncoderBackend::OpenH264]
        } else {
            seq![EncoderBackend::OpenH264]
        },
    }
}

/// The registry's selection order for `pref`, given whether a D3D11 device is available.
pub fn encoder_attempts(pref: WindowsEncoderPreference, has_device: bool) -> (r: Vec<EncoderBackend>)
    ensures
        r@ == spec_encoder_attempts(pref, has_device),
{
    let mut v: Vec<EncoderBackend> = Vec::new();
    match pref {
        WindowsEncoderPreference::SoftwareOnly => {
            v.push(EncoderBackend::OpenH264);
        },
        WindowsEncoderPreference::RequireNvenc => {
            if has_device {
                v.push(EncoderBackend::Nvenc);
            }
        },
        _ => {
            if has_device {
                v.push(EncoderBackend::Nvenc);
                v.push(EncoderBackend::MfHardware);
            }
            v.push(EncoderBackend::OpenH264);
        },
    }
    assert(v@ =~= spec_encoder_attempts(pref, has_device));
    v
}

/// Software encoding stays the last resort: every policy but required NVENC ends its attempts
/// with OpenH264, and required NVENC never tries anything but NVENC.
pub proof fn law_openh264_is_last_resort(pref: WindowsEncoderPreference, has_device: bool)
    ensures
        pref != WindowsEncoderPreference::RequireNvenc ==> {
            let a = spec_encoder_attempts(pref, has_device);
            a.len() >= 1 && a.last() == EncoderBackend::OpenH264
        },
        pref == WindowsEncoderPreference::RequireNvenc ==> forall|i: int|
            0 <= i < spec_encoder_attempts(pref, has_device).len() ==> #[trigger] spec_encoder_attempts(
                pref,
                has_device,
            )[i] == EncoderBackend::Nvenc,
        pref == WindowsEncoderPreference::SoftwareOnly ==> spec_encoder_attempts(pref, has_device)
            =~= seq![EncoderBackend::OpenH264],
{
}

/// Default nominal capture rate (frames per second).
pub const DEFAULT_FPS: u32 = 30;

/// Default video bitrate (bits per second).
pub const DEFAULT_VIDEO_BITRATE_BPS: u32 = 45_000_000;

/// The characters of an optional token.
pub open spec fn token_view(t: Option<&str>) -> Option<Seq<char>> {
    match t {
        Some(s) => Some(s@),
        None => None,
    }
}

/// A token is one of `0`, `off`, `false` (the last two in any ASCII case).
pub open spec fn is_off_token(s: Seq<char>) -> bool {
    s == "0"@ || eq_ignore_ascii_case(s, "off"@) || eq_ignore_ascii_case(s, "false"@)
}

/// A token is one of `1`, `on`, `true` (the last two in any ASCII case).
pub open spec fn is_on_token(s: Seq<char>) -> bool {
    s == "1"@ || eq_ignore_ascii_case(s, "on"@) || eq_ignore_ascii_case(s, "true"@)
}

/// Encoder preference from `RS_CAPTURE_ENCODER`, `RS_CAPTURE_NVENC` and
/// `RS_CAPTURE_NVENC_REQUIRED`.
pub open spec fn spec_video_codec_preference(
    encoder: Option<Seq<char>>,
    nvenc: Option<Seq<char>>,
    nvenc_required: Option<Seq<char>>,
) -> VideoCodecPreference {
    let force_sw = match encoder {
        Some(s) => eq_ignore_ascii_case(s, "openh264"@),
        None => false,
    };
    let skip_nvenc = match nvenc {
        Some(s) => s == "0"@ || eq_ignore_ascii_case(s, "off"@),
        None => false,
    };
    let required = match nvenc_required {
        Some(s) => {
            let t = trim(s);
            t == "1"@ || eq_ignore_ascii_case(t, "true"@) || eq_ignore_ascii_case(t, "yes"@)
        },
        None => false,
    };
    if force_sw || skip_nvenc {
        VideoCodecPreference::PreferSoftware
    } else if required {
        VideoCodecPreference::RequireNvenc
    } else {
        VideoCodecPreference::Auto
    }
}

/// Nominal frame rate from `RS_CAPTURE_FPS`: a number in 1..=240, else the default 30.
pub open spec fn spec_capture_fps(token: Option<Seq<char>>) -> u32 {
    match token {
        Some(s) => match parse_unsigned(s) {
            Some(n) => if 1 <= n <= 240 {
                n as u32
            } else {
                DEFAULT_FPS
            },
            None => DEFAULT_FPS,
        },
        None => DEFAULT_FPS,
    }
}

/// Video bitrate from `RS_CAPTURE_VIDEO_BITRATE`: a number in 500 000..=200 000 000, else the
/// default 45 000 000.
pub open spec fn spec_video_bitrate(token: Option<Seq<char>>) -> u32 {
    match token {
        Some(s) => match parse_unsigned(s) {
            Some(n) => if 500_000 <= n <= 200_000_000 {
                n as u32
            } else {
                DEFAULT_VIDEO_BITRATE_BPS
            },
            None => DEFAULT_VIDEO_BITRATE_BPS,
        },
        None => DEFAULT_VIDEO_BITRATE_BPS,
    }
}

/// A switch that is on unless set to an off token (frame pacing, async encode).
pub open spec fn spec_default_on(token: Option<Seq<char>>) -> bool {
    match token {
        Some(s) => !is_off_token(s),
        None => true,
    }
}

/// A switch that is off unless set to an on token (CFR muxing).
pub open spec fn spec_default_off(token: Option<Seq<char>>) -> bool {
    match token {
        Some(s) => is_on_token(s),
        None => false,
    }
}

/// A/V drift threshold (PCM frames) from `RS_CAPTURE_AV_DRIFT_SAMPLES`: blank or unparsable
/// means 0 (watchdog off).
pub open spec fn spec_av_drift_threshold(token: Option<Seq<char>>) -> u64 {
    match token {
        Some(s) => if trim(s).len() == 0 {
            0
        } else {
            match parse_unsigned(s) {
                Some(n) => if n <= u64::MAX {
                    n as u64
                } else {
                    0
                },
                None => 0,
            }
        },
        None => 0,
    }
}

/// Backpressure from `RS_CAPTURE_STREAM_BACKPRESSURE` (trimmed, ASCII case ignored).
pub open spec fn spec_stream_backpressure(token: Option<Seq<char>>) -> StreamBackpressure {
    match token {
        Some(raw) => {
            let s = to_ascii_lowercase(trim(raw));
            if s == "drop"@ || s == "drop_when_full"@ || s == "try"@ {
                StreamBackpressure::DropWhenFull
            } else {
                StreamBackpressure::Block
            }
        },
        None => StreamBackpressure::Block,
    }
}

/// Audio codec from `RS_CAPTURE_AUDIO_CODEC` (trimmed, ASCII case ignored): `opus` selects
/// Opus; anything else, or no value, keeps the default AAC-LC.
pub open spec fn spec_audio_codec(token: Option<Seq<char>>) -> AudioCodecChoice {
    match token {
        Some(raw) => if to_ascii_lowercase(trim(raw)) == "opus"@ {
            AudioCodecChoice::Opus
        } else {
            AudioCodecChoice::AacLcMf
        },
        None => AudioCodecChoice::AacLcMf,
    }
}

/// NVENC tuning from `RS_CAPTURE_NVENC_TUNING` (ASCII case ignored).
pub open spec fn spec_nvenc_tuning(token: Option<Seq<char>>) -> NvencTuning {
    match token {
        Some(raw) => {
            let x = to_ascii_lowercase(raw);
            if x == "low_latency"@ || x == "lowlatency"@ {
                NvencTuning::LowLatency
            } else if x == "ultra_low_latency"@ {
                NvencTuning::UltraLowLatency
            } else if x == "ultra_high_quality"@ || x == "uhq"@ {
                NvencTuning::UltraHighQuality
            } else {
                NvencTuning::HighQuality
            }
        },
        None => NvencTuning::HighQuality,
    }
}

/// Same token rules as the Windows encoder registry: `RS_CAPTURE_ENCODER=openh264` or
/// `RS_CAPTURE_NVENC=0|off` prefer software; otherwise `RS_CAPTURE_NVENC_REQUIRED=1|true|yes`
/// requires NVENC; otherwise automatic.
pub fn video_codec_preference_from_tokens(
    rs_capture_encoder: Option<&str>,
    rs_capture_nvenc: Option<&str>,
    rs_capture_nvenc_required: Option<&str>,
) -> (r: VideoCodecPreference)
    ensures
        r == spec_video_codec_preference(
            token_view(rs_capture_encoder),
            token_view(rs_capture_nvenc),
            token_view(rs_capture_nvenc_required),
        ),
{
    let force_sw = match rs_capture_encoder {
        Some(s) => {
            let c = str_chars(s);
            str_is_ignore_case(c.as_slice(), "openh264")
        },
        None => false,
    };
    let skip_nvenc = match rs_capture_nvenc {
        Some(s) => {
            let c = str_chars(s);
            str_is(c.as_slice(), "0") || str_is_ignore_case(c.as_slice(), "off")
        },
        None => false,
    };
    if force_sw || skip_nvenc {
        return VideoCodecPreference::PreferSoftware;
    }
    let required = match rs_capture_nvenc_required {
        Some(s) => {
            let c = str_chars(s);
            let t = trim_chars(c.as_slice());
            str_is(t.as_slice(), "1") || str_is_ignore_case(t.as_slice(), "true")
                || str_is_ignore_case(t.as_slice(), "yes")
        },
        None => false,
    };
    if required {
        VideoCodecPreference::RequireNvenc
    } else {
        VideoCodecPreference::Auto
    }
}

/// Nominal frame rate from the value of `RS_CAPTURE_FPS`.
pub fn capture_fps_from_token(token: Option<&str>) -> (r: u32)
    ensures
        r == spec_capture_fps(token_view(token)),
        1 <= r <= 240,
{
    match token {
        Some(s) => {
            let c = str_chars(s);
            match parse_unsigned_bounded(c.as_slice(), u32::MAX as u64) {
                Some(n) => if 1 <= n && n <= 240 {
                    n as u32
                } else {
                    DEFAULT_FPS
                },
                None => DEFAULT_FPS,
            }
        },
        None => DEFAULT_FPS,
    }
}

/// Video bitrate from the value of `RS_CAPTURE_VIDEO_BITRATE`.
pub fn video_bitrate_bps_from_token(token: Option<&str>) -> (r: u32)
    ensures
        r == spec_video_bitrate(token_view(token)),
{
    match token {
        Some(s) => {
            let c = str_chars(s);
            match parse_unsigned_bounded(c.as_slice(), u64::MAX) {
                Some(n) => if 500_000 <= n && n <= 200_000_000 {
                    n as u32
                } else {
                    DEFAULT_VIDEO_BITRATE_BPS
                },
                None => DEFAULT_VIDEO_BITRATE_BPS,
            }
        },
        None => DEFAULT_VIDEO_BITRATE_BPS,
    }
}

fn is_off(s: &str) -> (r: bool)
    ensures
        r == is_off_token(s@),
{
    let c = str_chars(s);
    str_is(c.as_slice(), "0") || str_is_ignore_case(c.as_slice(), "off") || str_is_ignore_case(
        c.as_slice(),
        "false",
    )
}

/// Frame pacing switch from the value of `RS_CAPTURE_FRAME_PACING` (on unless `0|off|false`).
pub fn frame_pacing_from_token(token: Option<&str>) -> (r: bool)
    ensures
        r == spec_default_on(token_view(token)),
{
    match token {
        Some(s) => !is_off(s),
        None => true,
    }
}

/// Async NVENC switch from the value of `RS_CAPTURE_ASYNC_ENCODE` (on unless `0|off|false`).
pub fn async_encode_from_token(token: Option<&str>) -> (r: bool)
    ensures
        r == spec_default_on(token_view(token)),
{
    match token {
        Some(s) => !is_off(s),
        None => true,
    }
}

/// CFR muxing switch from the value of `RS_CAPTURE_CFR` (off unless `1|on|true`).
pub fn cfr_mux_from_token(token: Option<&str>) -> (r: bool)
    ensures
        r == spec_default_off(token_view(token)),
{
    match token {
        Some(s) => {
            let c = str_chars(s);
            str_is(c.as_slice(), "1") || str_is_ignore_case(c.as_slice(), "on")
                || str_is_ignore_case(c.as_slice(), "true")
        },
        None => false,
    }
}

/// A/V drift threshold from the value of `RS_CAPTURE_AV_DRIFT_SAMPLES`.
pub fn av_drift_threshold_from_token(token: Option<&str>) -> (r: u64)
    ensures
        r == spec_av_drift_threshold(token_view(token)),
{
    match token {
        Some(s) => {
            let c = str_chars(s);
            let t = trim_chars(c.as_slice());
            if t.len() == 0 {
                0
            } else {
                match parse_unsigned_bounded(c.as_slice(), u64::MAX) {
                    Some(n) => n,
                    None => 0,
                }
            }
        },
        None => 0,
    }
}

/// Stream backpressure from the value of `RS_CAPTURE_STREAM_BACKPRESSURE`: `drop`,
/// `drop_when_full` or `try` drop packets; anything else blocks.
pub fn stream_backpressure_from_token(token: Option<&str>) -> (r: StreamBackpressure)
    ensures
        r == spec_stream_backpressure(token_view(token)),
{
    match token {
        Some(raw) => {
            let c = str_chars(raw);
            let t = trim_chars(c.as_slice());
            let s = lowercase_chars(t.as_slice());
            if str_is(s.as_slice(), "drop") || str_is(s.as_slice(), "drop_when_full") || str_is(
                s.as_slice(),
                "try",
            ) {
                StreamBackpressure::DropWhenFull
            } else {
                StreamBackpressure::Block
            }
        },
        None => StreamBackpressure::Block,
    }
}

/// Audio codec from the value of `RS_CAPTURE_AUDIO_CODEC`.
pub fn audio_codec_from_token(token: Option<&str>) -> (r: AudioCodecChoice)
    ensures
        r == spec_audio_codec(token_view(token)),
{
    match token {
        Some(raw) => {
            let c = str_chars(raw);
            let t = trim_chars(c.as_slice());
            let s = lowercase_chars(t.as_slice());
            if str_is(s.as_slice(), "opus") {
                AudioCodecChoice::Opus
            } else {
                AudioCodecChoice::AacLcMf
            }
        },
        None => AudioCodecChoice::AacLcMf,
    }
}

/// NVENC tuning from the value of `RS_CAPTURE_NVENC_TUNING`.
pub fn nvenc_tuning_from_token(token: Option<&str>) -> (r: NvencTuning)
    ensures
        r == spec_nvenc_tuning(token_view(token)),
{
    match token {
        Some(raw) => {
            let c = str_chars(raw);
            let x = lowercase_chars(c.as_slice());
            if str_is(x.as_slice(), "low_latency") || str_is(x.as_slice(), "lowlatency") {
                NvencTuning::LowLatency
            } else if str_is(x.as_slice(), "ultra_low_latency") {
                NvencTuning::UltraLowLatency
            } else if str_is(x.as_slice(), "ultra_high_quality") || str_is(x.as_slice(), "uhq") {
                NvencTuning::UltraHighQuality
            } else {
                NvencTuning::HighQuality
            }
        },
        None => NvencTuning::HighQuality,
    }
}

/// ffmpeg remux switch from the value of `RS_CAPTURE_FFMPEG_MUX` (exactly `1`).
pub fn ffmpeg_mux_from_token(token: Option<&str>) -> (r: bool)
    ensures
        r == (token_view(token) == Some("1"@)),
{
    match token {
        Some(s) => {
            let c = str_chars(s);
            str_is(c.as_slice(), "1")
        },
        None => false,
    }
}

/// Default AAC bitrate (bits per second).
pub const DEFAULT_AAC_BITRATE_BPS: u32 = 192_000;

/// Default Opus bitrate (bits per second).
pub const DEFAULT_OPUS_BITRATE_BPS: u32 = 128_000;

/// An audio bitrate from its variable: a positive decimal that fits 32 bits, else `default`.
pub open spec fn spec_audio_bitrate(token: Option<Seq<char>>, default: u32) -> u32 {
    match token {
        Some(s) => match parse_unsigned(s) {
            Some(n) => if 1 <= n <= u32::MAX {
                n as u32
            } else {
                default
            },
            None => default,
        },
        None => default,
    }
}

fn audio_bitrate_from_token(token: Option<&str>, default: u32) -> (r: u32)
    ensures
        r == spec_audio_bitrate(token_view(token), default),
{
    match token {
        Some(s) => {
            let c = str_chars(s);
            match parse_unsigned_bounded(c.as_slice(), u32::MAX as u64) {
                Some(n) => if n >= 1 {
                    n as u32
                } else {
                    default
                },
                None => default,
            }
        },
        None => default,
    }
}

/// AAC bitrate from the value of `RS_CAPTURE_AAC_BITRATE` (default 192 000).
pub fn aac_bitrate_from_token(token: Option<&str>) -> (r: u32)
    ensures
        r == spec_audio_bitrate(token_view(token), DEFAULT_AAC_BITRATE_BPS),
{
    audio_bitrate_from_token(token, DEFAULT_AAC_BITRATE_BPS)
}

/// Opus bitrate from the value of `RS_CAPTURE_OPUS_BITRATE` (default 128 000).
pub fn opus_bitrate_from_token(token: Option<&str>) -> (r: u32)
    ensures
        r == spec_audio_bitrate(token_view(token), DEFAULT_OPUS_BITRATE_BPS),
{
    audio_bitrate_from_token(token, DEFAULT_OPUS_BITRATE_BPS)
}

/// Presence emphasis switch from the value of `RS_CAPTURE_PRESENCE_EMPHASIS` (on unless
/// `0|off|false`).
pub fn presence_emphasis_from_token(token: Option<&str>) -> (r: bool)
    ensures
        r == spec_default_on(token_view(token)),
{
    match token {
        Some(s) => !is_off(s),
        None => true,
    }
}

/// `metrics.csv` switch from the value of `RS_CAPTURE_METRICS` (on unless `0|off|false`).
pub fn metrics_from_token(token: Option<&str>) -> (r: bool)
    ensures
        r == spec_default_on(token_view(token)),
{
    match token {
        Some(s) => !is_off(s),
        None => true,
    }
}

/// Whether the process priority boost is skipped: `RS_CAPTURE_NO_PRIORITY_BOOST` is exactly `1`.
pub fn no_priority_boost_from_token(token: Option<&str>) -> (r: bool)
    ensures
        r == (token_view(token) == Some("1"@)),
{
    match token {
        Some(s) => {
            let c = str_chars(s);
            str_is(c.as_slice(), "1")
        },
        None => false,
    }
}

/// Frame limit from the command line: a decimal that fits 32 bits, else 0 (unlimited).
pub fn frame_limit_from_arg(arg: Option<&str>) -> (r: u32)
    ensures
        r == match token_view(arg) {
            Some(s) => match parse_unsigned(s) {
                Some(n) => if n <= u32::MAX {
                    n as u32
                } else {
                    0u32
                },
                None => 0u32,
            },
            None => 0u32,
        },
{
    match arg {
        Some(s) => {
            let c = str_chars(s);
            match parse_unsigned_bounded(c.as_slice(), u32::MAX as u64) {
                Some(n) => n as u32,
                None => 0,
            }
        },
        None => 0,
    }
}

/// System audio is captured unless the command line says `noaudio`.
pub fn audio_enabled_from_arg(arg: Option<&str>) -> (r: bool)
    ensures
        r == (token_view(arg) != Some("noaudio"@)),
{
    match arg {
        Some(s) => {
            let c = str_chars(s);
            !str_is(c.as_slice(), "noaudio")
        },
        None => true,
    }
}

} // verus!
