//! Video encoder configuration and the decisions encoder backends make: keyframe cadence,
//! preset choice, aspect ratio, and output-buffer sizing.

use vstd::prelude::*;

use crate::arith::{clamp_max, sat_mul_u32};

verus! {

/// Target codec.
#[derive(Clone, Copy, Debug, PartialEq, Eq, Structural)]
pub enum VideoCodec {
    H264,
    H265,
    Av1,
}

/// One encoded access unit (Annex-B NAL aggregation).
#[derive(Clone, Debug)]
pub struct EncodedPacket {
    pub data: Vec<u8>,
    pub timestamp_us: u64,
    pub is_keyframe: bool,
    pub codec: VideoCodec,
}

/// Encoder configuration: width, height, frame rate and bitrate.
#[derive(Clone, Copy, Debug, PartialEq, Eq, Structural)]
pub struct EncoderConfig {
    pub width: u32,
    pub height: u32,
    pub fps: u32,
    pub bitrate_bps: u32,
}

impl EncoderConfig {
    pub fn new(width: u32, height: u32, fps: u32, bitrate_bps: u32) -> (r: Self)
        ensures
            r == (EncoderConfig { width, height, fps, bitrate_bps }),
    {
        EncoderConfig { width, height, fps, bitrate_bps }
    }
}

/// Greatest common divisor by Euclid's recurrence (`gcd(a, 0) = a`).
pub open spec fn spec_gcd(a: nat, b: nat) -> nat
    decreases b,
{
    if b == 0 {
        a
    } else {
        spec_gcd(b, a % b)
    }
}

/// `k * d`.
pub open spec fn times(k: int, d: int) -> int {
    k * d
}

/// `d` divides `n`.
pub open spec fn divides(d: int, n: int) -> bool {
    exists|k: int| #[trigger] times(k, d) == n
}

/// Greatest common divisor of `a` and `b` (`gcd(0, 0) = 0`).
pub fn gcd(a: u32, b: u32) -> (r: u32)
    ensures
        r == spec_gcd(a as nat, b as nat),
{
    let ghost a0 = a;
    let ghost b0 = b;
    let mut a = a;
    let mut b = b;
    while b != 0
        invariant
            spec_gcd(a as nat, b as nat) == spec_gcd(a0 as nat, b0 as nat),
        decreases b,
    {
        let t = b;
        b = a % b;
        a = t;
    }
    a
}

proof fn lemma_div_mod_parts(a: int, b: int)
    requires
        a >= 0,
        b > 0,
    ensures
        a == (a / b) * b + a % b,
{
    vstd::arithmetic::div_mod::lemma_fundamental_div_mod(a, b);
    assert(b * (a / b) == (a / b) * b) by (nonlinear_arith);
}

/// `gcd(a, b)` divides both `a` and `b`, and every common divisor of `a` and `b` divides it.
pub proof fn law_gcd_is_greatest_common_divisor(a: nat, b: nat, d: int)
    ensures
        divides(spec_gcd(a, b) as int, a as int),
        divides(spec_gcd(a, b) as int, b as int),
        divides(d, a as int) && divides(d, b as int) ==> divides(d, spec_gcd(a, b) as int),
    decreases b,
{
    if b == 0 {
        assert(times(1, a as int) == a);
        assert(times(0, a as int) == 0);
    } else {
        let g = spec_gcd(b, a % b);
        law_gcd_is_greatest_common_divisor(b, a % b, d);
        lemma_div_mod_parts(a as int, b as int);
        let q = (a / b) as int;
        let kb = choose|k: int| times(k, g as int) == b;
        let kr = choose|k: int| times(k, g as int) == (a % b) as int;
        assert(times(q * kb + kr, g as int) == a) by (nonlinear_arith)
            requires
                kb * g == b,
                kr * g == a % b,
                a == q * b + a % b,
        ;
        if divides(d, a as int) && divides(d, b as int) {
            let ka = choose|k: int| times(k, d) == a;
            let kd = choose|k: int| times(k, d) == b;
            assert(times(ka - q * kd, d) == a % b) by (nonlinear_arith)
                requires
                    ka * d == a,
                    kd * d == b,
                    a == q * b + a % b,
            ;
        }
    }
}

/// Display aspect ratio `[width / g, height / g]` with `g = max(gcd(width, height), 1)`.
pub fn aspect_ratio(width: u32, height: u32) -> (r: [u32; 2])
    ensures
        ({
            let g: nat = if spec_gcd(width as nat, height as nat) == 0 {
                1
            } else {
                spec_gcd(width as nat, height as nat)
            };
            r@ == seq![(width as nat / g) as u32, (height as nat / g) as u32]
        }),
{
    let g0 = gcd(width, height);
    let g = if g0 == 0 {
        1
    } else {
        g0
    };
    let r = [width / g, height / g];
    assert(r@ =~= seq![width / g, height / g]);
    r
}

/// GOP length in frames: two seconds of video, at least 30 frames.
pub fn gop_frames(fps: u32) -> (r: u32)
    ensures
        r == if clamp_max(fps * 2, u32::MAX as int) >= 30 {
            clamp_max(fps * 2, u32::MAX as int)
        } else {
            30
        },
{
    let two = sat_mul_u32(fps, 2);
    if two >= 30 {
        two
    } else {
        30
    }
}

/// NVENC picture type for frame `frame_idx`: IDR on the first frame and every `gop` frames
/// (the index is taken modulo 2^32, as a `u32` cast does).
pub fn nvenc_force_idr(frame_idx: usize, gop: u32) -> (r: bool)
    ensures
        r == (frame_idx == 0 || (gop > 0 && (frame_idx as u32) % gop == 0)),
{
    frame_idx == 0 || (gop > 0 && (frame_idx as u32) % gop == 0)
}

/// Media Foundation keyframe request: first frame, then every `max(gop, 1)` frames.
pub fn mf_want_idr(frame_index: u64, gop: u32) -> (r: bool)
    ensures
        r == (frame_index == 0 || frame_index % (if gop == 0 {
            1
        } else {
            gop as u64
        }) == 0),
{
    let g: u64 = if gop == 0 {
        1
    } else {
        gop as u64
    };
    frame_index == 0 || frame_index % g == 0
}

/// Duration of one frame in 100-ns units: `10 000 000 / fps`, at least 1.
pub fn frame_duration_hns(fps: u32) -> (r: i64)
    requires
        fps > 0,
    ensures
        r == if 10_000_000int / (fps as int) >= 1 {
            10_000_000int / (fps as int)
        } else {
            1
        },
{
    let d = 10_000_000i64 / (fps as i64);
    if d >= 1 {
        d
    } else {
        1
    }
}

/// Size of the output buffer a caller allocates for a Media Foundation H.264 transform: the
/// transform's own size when it reports one, else `width * height * 3 / 2 + 65 536`
/// (saturating).
pub fn mf_output_buffer_capacity(reported: u32, width: u32, height: u32) -> (r: u32)
    ensures
        reported != 0 ==> r == reported,
        reported == 0 ==> r == clamp_max(
            clamp_max(clamp_max(width * height, u32::MAX as int) * 3, u32::MAX as int) / 2
                + 65_536,
            u32::MAX as int,
        ),
{
    if reported == 0 {
        (sat_mul_u32(sat_mul_u32(width, height), 3) / 2).saturating_add(65_536)
    } else {
        reported
    }
}

/// Flag bit: the transform allocates its own output samples.
pub const MFT_OUTPUT_STREAM_PROVIDES_SAMPLES: u32 = 0x100;

/// Flag bit: the transform can allocate its own output samples.
pub const MFT_OUTPUT_STREAM_CAN_PROVIDE_SAMPLES: u32 = 0x200;

/// Whether the caller must supply the output sample: the transform neither provides nor can
/// provide one.
pub fn mf_caller_provides_sample(flags: u32) -> (r: bool)
    ensures
        r == (flags & MFT_OUTPUT_STREAM_PROVIDES_SAMPLES == 0 && flags
            & MFT_OUTPUT_STREAM_CAN_PROVIDE_SAMPLES == 0),
{
    flags & MFT_OUTPUT_STREAM_PROVIDES_SAMPLES == 0 && flags & MFT_OUTPUT_STREAM_CAN_PROVIDE_SAMPLES
        == 0
}

/// Output alignment for a caller-allocated sample: the reported alignment, at least 1.
pub fn mf_output_alignment(reported: u32) -> (r: u32)
    ensures
        r == if reported >= 1 {
            reported
        } else {
            1
        },
{
    if reported >= 1 {
        reported
    } else {
        1
    }
}

/// GUIDs as 128-bit big-endian values (`6BC82762-4E63-4CA4-...` is `0x6BC827624E634CA4...`).
pub const NV_ENC_CODEC_H264_GUID: u128 = 0x6BC82762_4E63_4CA4_AA85_1E50F321F6BF;

pub const NV_ENC_PRESET_P2_GUID: u128 = 0xF581CFB8_88D6_4381_93F0_DF13F9C27DAB;

pub const NV_ENC_PRESET_P3_GUID: u128 = 0x36850110_3A07_441F_94D5_3670631F91F6;

pub const NV_ENC_PRESET_P4_GUID: u128 = 0x90A7B826_DF06_4862_B9D2_CD6D73A08681;

pub const NV_ENC_PRESET_P5_GUID: u128 = 0x21C6E6B4_297A_4CBA_998F_B6CBDE72ADE3;

pub const NV_ENC_PRESET_P6_GUID: u128 = 0x8E75C279_6299_4AB6_8302_0B215A335CF5;

pub const NV_ENC_PRESET_P7_GUID: u128 = 0x84848C12_6F71_4C13_931B_53E283F57974;

/// Why an NVENC H.264 session cannot be configured.
#[derive(Clone, Copy, Debug, PartialEq, Eq, Structural)]
pub enum NvencPresetError {
    /// The session does not advertise the H.264 codec.
    NoH264,
    /// None of the presets P2 to P7 is offered.
    NoSupportedPreset,
}

/// Presets in order of preference: slowest / highest quality first.
pub open spec fn preset_preference() -> Seq<u128> {
    seq![
        NV_ENC_PRESET_P7_GUID,
        NV_ENC_PRESET_P6_GUID,
        NV_ENC_PRESET_P5_GUID,
        NV_ENC_PRESET_P4_GUID,
        NV_ENC_PRESET_P3_GUID,
        NV_ENC_PRESET_P2_GUID,
    ]
}

/// Label of preset `k` in [`preset_preference`].
pub open spec fn preset_label(k: int) -> Seq<char> {
    if k == 0 {
        "P7"@
    } else if k == 1 {
        "P6"@
    } else if k == 2 {
        "P5"@
    } else if k == 3 {
        "P4"@
    } else if k == 4 {
        "P3"@
    } else {
        "P2"@
    }
}

fn preset_at(k: usize) -> (r: (u128, &'static str))
    requires
        k < 6,
    ensures
        r.0 == preset_preference()[k as int],
        r.1@ == preset_label(k as int),
{
    if k == 0 {
        (NV_ENC_PRESET_P7_GUID, "P7")
    } else if k == 1 {
        (NV_ENC_PRESET_P6_GUID, "P6")
    } else if k == 2 {
        (NV_ENC_PRESET_P5_GUID, "P5")
    } else if k == 3 {
        (NV_ENC_PRESET_P4_GUID, "P4")
    } else if k == 4 {
        (NV_ENC_PRESET_P3_GUID, "P3")
    } else {
        (NV_ENC_PRESET_P2_GUID, "P2")
    }
}

fn contains_guid(list: &[u128], g: u128) -> (r: bool)
    ensures
        r == list@.contains(g),
{
    let mut i: usize = 0;
    while i < list.len()
        invariant
            i <= list.len(),
            forall|j: int| 0 <= j < i ==> list@[j] != g,
        decreases list.len() - i,
    {
        if list[i] == g {
            assert(list@[i as int] == g);
            return true;
        }
        i += 1;
    }
    false
}

/// Pick the best H.264 preset a session offers, preferring P7 down to P2.
pub fn pick_h264_preset(codecs: &[u128], presets: &[u128]) -> (r: Result<
    (u128, &'static str),
    NvencPresetError,
>)
    ensures
        !codecs@.contains(NV_ENC_CODEC_H264_GUID) ==> r == Err::<(u128, &'static str), NvencPresetError>(
            NvencPresetError::NoH264,
        ),
        codecs@.contains(NV_ENC_CODEC_H264_GUID) && (forall|k: int|
            0 <= k < 6 ==> !presets@.contains(#[trigger] preset_preference()[k])) ==> r == Err::<
            (u128, &'static str),
            NvencPresetError,
        >(NvencPresetError::NoSupportedPreset),
        codecs@.contains(NV_ENC_CODEC_H264_GUID) && (exists|k: int|
            0 <= k < 6 && presets@.contains(#[trigger] preset_preference()[k])) ==> r is Ok,
        r is Ok ==> codecs@.contains(NV_ENC_CODEC_H264_GUID),
        r matches Ok(p) ==> exists|k: int|
            0 <= k < 6 && p.0 == preset_preference()[k] && p.1@ == preset_label(k)
                && presets@.contains(p.0) && forall|j: int|
                0 <= j < k ==> !presets@.contains(#[trigger] preset_preference()[j]),
{
    if !contains_guid(codecs, NV_ENC_CODEC_H264_GUID) {
        return Err(NvencPresetError::NoH264);
    }
    let mut k: usize = 0;
    while k < 6
        invariant
            k <= 6,
            codecs@.contains(NV_ENC_CODEC_H264_GUID),
            forall|j: int| 0 <= j < k ==> !presets@.contains(#[trigger] preset_preference()[j]),
        decreases 6 - k,
    {
        let (g, label) = preset_at(k);
        if contains_guid(presets, g) {
            return Ok((g, label));
        }
        k += 1;
    }
    Err(NvencPresetError::NoSupportedPreset)
}

} // verus!

verus! {

/// An NVENC error message that names a device or resource-registration failure.
pub open spec fn is_nvenc_device_failure(msg: Seq<char>) -> bool {
    ||| crate::text::contains_chars(msg, "InvalidDevice"@)
    ||| crate::text::contains_chars(msg, "Device passed to the API"@)
    ||| crate::text::contains_chars(msg, "InvalidEncoderDevice"@)
    ||| crate::text::contains_chars(msg, "register_resource"@)
    ||| crate::text::contains_chars(msg, "ResourceRegisterFailed"@)
}

/// Whether a failed GPU encode switches the run to OpenH264: fallback is allowed, has not
/// happened yet, and the error names a device or registration failure.
pub fn should_fall_back_to_software(allow_fallback: bool, already_swapped: bool, msg: &str) -> (r:
    bool)
    ensures
        r == (allow_fallback && !already_swapped && is_nvenc_device_failure(msg@)),
{
    if !allow_fallback || already_swapped {
        return false;
    }
    let c = crate::text::str_chars(msg);
    let m = c.as_slice();
    crate::text::contains_lit(m, "InvalidDevice") || crate::text::contains_lit(
        m,
        "Device passed to the API",
    ) || crate::text::contains_lit(m, "InvalidEncoderDevice") || crate::text::contains_lit(
        m,
        "register_resource",
    ) || crate::text::contains_lit(m, "ResourceRegisterFailed")
}

} // verus!

verus! {

/// PCI vendor id of AMD adapters.
pub const AMD_VENDOR_ID: u32 = 0x1002;

/// PCI vendor id of Intel adapters.
pub const INTEL_VENDOR_ID: u32 = 0x8086;

/// Whether any enumerated adapter reports vendor `vendor`.
pub fn any_adapter_from_vendor(vendor_ids: &[u32], vendor: u32) -> (r: bool)
    ensures
        r == vendor_ids@.contains(vendor),
{
    let mut i: usize = 0;
    while i < vendor_ids.len()
        invariant
            i <= vendor_ids.len(),
            forall|j: int| 0 <= j < i ==> vendor_ids@[j] != vendor,
        decreases vendor_ids.len() - i,
    {
        if vendor_ids[i] == vendor {
            assert(vendor_ids@[i as int] == vendor);
            return true;
        }
        i += 1;
    }
    false
}

/// Row pitch in bytes of a registered BGRA texture: `4 * width`, saturating.
pub fn nvenc_bgra_pitch(width: u32) -> (r: u32)
    ensures
        r == clamp_max(width * 4, u32::MAX as int),
{
    sat_mul_u32(width, 4)
}

} // verus!

verus! {

/// Stream-change recoveries a hardware transform may ask for on one side of one frame.
pub const MF_MAX_STREAM_CHANGES: u32 = 8;

/// What a hardware H.264 transform answered to one request for output.
pub enum MfOutputEvent {
    /// It needs another input frame: the frame is fully drained.
    NeedMoreInput,
    /// Its output type changed; the streams must be reconfigured before asking again.
    StreamChange,
    /// The call produced no sample.
    NoSample,
    /// A sample with these bytes (empty when it carried no buffer).
    Sample(Vec<u8>),
}

/// What the encoder does after an output event.
#[derive(Clone, Copy, Debug, PartialEq, Eq, Structural)]
pub enum MfDrainStep {
    /// Ask for output again.
    Continue,
    /// Reconfigure the streams, then ask again.
    Reconfigure,
    /// The frame's output is complete.
    Done,
    /// Too many stream changes: the encode fails.
    TooManyStreamChanges,
}

/// Why a hardware encode produced no packet.
#[derive(Clone, Copy, Debug, PartialEq, Eq, Structural)]
pub enum MfEncodeError {
    /// The transform kept changing its output type.
    TooManyStreamChanges,
    /// The frame produced no bitstream bytes.
    EmptyBitstream,
}

/// Collects one frame's output from a hardware transform.
pub struct MfOutputDrain {
    accumulated: Vec<u8>,
    stream_changes: u32,
}

impl MfOutputDrain {
    /// Bytes collected so far.
    pub closed spec fn bytes(&self) -> Seq<u8> {
        self.accumulated@
    }

    /// Stream changes seen so far.
    pub closed spec fn stream_changes(&self) -> nat {
        self.stream_changes as nat
    }

    /// Nothing collected, no stream change seen.
    pub fn new() -> (r: Self)
        ensures
            r.bytes() == Seq::<u8>::empty(),
            r.stream_changes() == 0,
    {
        MfOutputDrain { accumulated: Vec::new(), stream_changes: 0 }
    }

    /// Handles one output event: a sample's bytes are appended; a stream change asks for a
    /// reconfiguration, up to eight per frame, after which the encode fails; no sample asks
    /// again; needing input ends the frame.
    pub fn on_output(&mut self, ev: MfOutputEvent) -> (r: MfDrainStep)
        requires
            old(self).stream_changes() <= MF_MAX_STREAM_CHANGES,
        ensures
            final(self).stream_changes() <= MF_MAX_STREAM_CHANGES,
            match ev {
                MfOutputEvent::NeedMoreInput => r == MfDrainStep::Done && final(self).bytes()
                    == old(self).bytes() && final(self).stream_changes() == old(
                    self,
                ).stream_changes(),
                MfOutputEvent::StreamChange => if old(self).stream_changes() < MF_MAX_STREAM_CHANGES {
                    r == MfDrainStep::Reconfigure && final(self).stream_changes() == old(
                        self,
                    ).stream_changes() + 1 && final(self).bytes() == old(self).bytes()
                } else {
                    r == MfDrainStep::TooManyStreamChanges && final(self).bytes() == old(
                        self,
                    ).bytes() && final(self).stream_changes() == old(self).stream_changes()
                },
                MfOutputEvent::NoSample => r == MfDrainStep::Continue && final(self).bytes()
                    == old(self).bytes() && final(self).stream_changes() == old(
                    self,
                ).stream_changes(),
                MfOutputEvent::Sample(b) => r == MfDrainStep::Continue && final(self).bytes()
                    == old(self).bytes() + b@ && final(self).stream_changes() == old(
                    self,
                ).stream_changes(),
            },
    {
        match ev {
            MfOutputEvent::NeedMoreInput => MfDrainStep::Done,
            MfOutputEvent::StreamChange => {
                if self.stream_changes < MF_MAX_STREAM_CHANGES {
                    self.stream_changes = self.stream_changes + 1;
                    MfDrainStep::Reconfigure
                } else {
                    MfDrainStep::TooManyStreamChanges
                }
            },
            MfOutputEvent::NoSample => MfDrainStep::Continue,
            MfOutputEvent::Sample(b) => {
                let mut b = b;
                self.accumulated.append(&mut b);
                MfDrainStep::Continue
            },
        }
    }

    /// The frame's packet: the collected bytes normalized to Annex-B, a keyframe when some NAL
    /// is an IDR slice. No bytes at all is an error.
    pub fn finish(&self, timestamp_us: u64) -> (r: Result<EncodedPacket, MfEncodeError>)
        ensures
            r is Err <==> self.bytes().len() == 0,
            r matches Err(e) ==> e == MfEncodeError::EmptyBitstream,
            r matches Ok(p) ==> {
                &&& p.data@ == crate::annexb::spec_compressed_to_annex_b(self.bytes())
                &&& p.is_keyframe == crate::annexb::spec_keyframe_from(p.data@, 0)
                &&& p.timestamp_us == timestamp_us
                &&& p.codec == VideoCodec::H264
            },
    {
        if self.accumulated.len() == 0 {
            return Err(MfEncodeError::EmptyBitstream);
        }
        let data = crate::annexb::compressed_to_annex_b(self.accumulated.as_slice());
        let is_keyframe = crate::annexb::annex_b_keyframe(data.as_slice());
        Ok(EncodedPacket { data, timestamp_us, is_keyframe, codec: VideoCodec::H264 })
    }
}

/// Whether a refused input frame is offered again after reconfiguring: the first
/// `MF_MAX_STREAM_CHANGES` attempts may end in a stream change.
pub fn mf_input_retry_allowed(attempts_made: u32) -> (r: bool)
    ensures
        r == (attempts_made < MF_MAX_STREAM_CHANGES),
{
    attempts_made < MF_MAX_STREAM_CHANGES
}

} // verus!
