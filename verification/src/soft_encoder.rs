//! Software H.264 encoding with OpenH264, producing Annex-B access units.

use vstd::prelude::*;

use openh264::encoder::{BitRate, Encoder, EncoderConfig as OpenH264Config, FrameType, UsageType};
use openh264::formats::YUVBuffer;
use openh264::{OpenH264API, Timestamp};

use crate::annexb::{annex_b_from_nal_layers, spec_annex_b_from_layers};
use crate::video::{EncodedPacket, VideoCodec};

verus! {

/// `openh264::encoder::Encoder`, carried as an opaque value.
#[verifier::external_type_specification]
#[verifier::external_body]
pub struct ExOpenH264Encoder(Encoder);

/// Frame type reported by OpenH264 for an encoded picture.
#[derive(Clone, Copy, Debug, PartialEq, Eq, Structural)]
pub enum SoftwareFrameType {
    Invalid,
    Idr,
    I,
    P,
    Skip,
    IpMixed,
}

/// Why a software encode failed.
#[derive(Clone, Debug, PartialEq, Eq)]
pub enum SoftwareEncodeError {
    /// The I420 buffer is shorter than `3 * width * height / 2`.
    I420TooSmall,
    /// OpenH264 reported an error; the text is its message.
    Backend(String),
}

/// NAL units of an encoded picture, layer by layer (`None` where the bitstream has no layer or
/// NAL unit at that index).
pub type NalLayers = Vec<Option<Vec<Option<Vec<u8>>>>>;

/// What OpenH264 tunes its rate control for (`openh264::encoder::UsageType`).
#[derive(Clone, Copy, Debug, PartialEq, Eq, Structural)]
pub enum EncoderUsage {
    CameraVideoRealTime,
    ScreenContentRealTime,
    CameraVideoNonRealTime,
    ScreenContentNonRealTime,
    InputContentTypeAll,
}

/// `Encoder::with_api_config` with the built-in OpenH264 source, the given usage and target
/// bitrate. Whether the native encoder initialises is not stated.
#[verifier::external_body]
fn openh264_encoder_new(usage: EncoderUsage, bitrate_bps: u32) -> Result<Encoder, String> {
    let usage = match usage {
        EncoderUsage::CameraVideoRealTime => UsageType::CameraVideoRealTime,
        EncoderUsage::ScreenContentRealTime => UsageType::ScreenContentRealTime,
        EncoderUsage::CameraVideoNonRealTime => UsageType::CameraVideoNonRealTime,
        EncoderUsage::ScreenContentNonRealTime => UsageType::ScreenContentNonRealTime,
        EncoderUsage::InputContentTypeAll => UsageType::InputContentTypeAll,
    };
    let config = OpenH264Config::new().usage_type(usage).bitrate(BitRate::from_bps(bitrate_bps));
    Encoder::with_api_config(OpenH264API::from_source(), config).map_err(|e| format!("{e}"))
}

/// `Encoder::encode_at` on an I420 frame: the NAL units of every layer of the bitstream and its
/// frame type. The output depends on the encoder's state (rate control, GOP position), so nothing
/// is stated of it. `YUVBuffer::from_vec` panics on odd dimensions or a mis-sized buffer, and the
/// timestamp conversion panics above `i64::MAX` milliseconds; `requires` rules those out.
#[verifier::external_body]
fn openh264_encode(enc: &mut Encoder, i420: Vec<u8>, width: usize, height: usize, ts_ms: u64) -> Result<
    (NalLayers, SoftwareFrameType),
    String,
>
    requires
        width % 2 == 0,
        height % 2 == 0,
        3 * (width * height) <= usize::MAX,
        i420.len() == 3 * (width * height) / 2,
        ts_ms <= i64::MAX,
{
    let yuv = YUVBuffer::from_vec(i420, width, height);
    let bs = enc.encode_at(&yuv, Timestamp::from_millis(ts_ms)).map_err(|e| format!("{e}"))?;
    let layers = (0..bs.num_layers()).map(|li| bs.layer(li).map(|l| (0..l.nal_count()).map(
        |ni| l.nal_unit(ni).map(|n| n.to_vec()),
    ).collect())).collect();
    let kind = match bs.frame_type() {
        FrameType::Invalid => SoftwareFrameType::Invalid,
        FrameType::IDR => SoftwareFrameType::Idr,
        FrameType::I => SoftwareFrameType::I,
        FrameType::P => SoftwareFrameType::P,
        FrameType::Skip => SoftwareFrameType::Skip,
        FrameType::IPMixed => SoftwareFrameType::IpMixed,
    };
    Ok((layers, kind))
}

/// An encoded picture is a keyframe when OpenH264 reports an IDR or I frame.
pub open spec fn is_intra(kind: SoftwareFrameType) -> bool {
    kind == SoftwareFrameType::Idr || kind == SoftwareFrameType::I
}

/// The packet for an encoded picture: its NAL units as Annex-B, flagged as a keyframe for IDR
/// and I frames.
pub fn packet_from_bitstream(layers: &NalLayers, kind: SoftwareFrameType, timestamp_us: u64) -> (r:
    EncodedPacket)
    ensures
        r.data@ == spec_annex_b_from_layers(layers.deep_view()),
        r.is_keyframe == is_intra(kind),
        r.timestamp_us == timestamp_us,
        r.codec == VideoCodec::H264,
{
    let data = annex_b_from_nal_layers(layers);
    let is_keyframe = match kind {
        SoftwareFrameType::Idr | SoftwareFrameType::I => true,
        _ => false,
    };
    EncodedPacket { data, timestamp_us, is_keyframe, codec: VideoCodec::H264 }
}

/// The settings a software encoder is opened with: tuned for real-time screen content, at the
/// requested bitrate.
pub fn openh264_settings(bitrate_bps: u32) -> (r: (EncoderUsage, u32))
    ensures
        r == (EncoderUsage::ScreenContentRealTime, bitrate_bps),
{
    (EncoderUsage::ScreenContentRealTime, bitrate_bps)
}

/// What one encode hands to OpenH264: the first `frame_bytes` bytes of `i420` (one I420 frame)
/// and the timestamp in whole milliseconds.
pub fn openh264_frame_input(i420: &[u8], frame_bytes: usize, timestamp_us: u64) -> (r: (Vec<u8>, u64))
    requires
        frame_bytes <= i420.len(),
    ensures
        r.0@ == i420@.subrange(0, frame_bytes as int),
        r.1 == timestamp_us / 1000,
{
    let frame = vstd::slice::slice_to_vec(&i420[0..frame_bytes]);
    (frame, timestamp_us / 1000)
}

/// OpenH264 software encoder.
pub struct OpenH264VideoEncoder {
    inner: Encoder,
    width: usize,
    height: usize,
}

impl OpenH264VideoEncoder {
    pub closed spec fn spec_width(&self) -> usize {
        self.width
    }

    pub closed spec fn spec_height(&self) -> usize {
        self.height
    }

    /// Bytes of one I420 frame: `3 * width * height / 2`.
    pub open spec fn frame_bytes(&self) -> int {
        3 * (self.spec_width() * self.spec_height()) / 2
    }

    pub fn new(width: u32, height: u32, bitrate_bps: u32) -> (r: Result<Self, SoftwareEncodeError>)
        ensures
            r matches Ok(e) ==> e.spec_width() == width && e.spec_height() == height,
            r matches Err(e) ==> e is Backend,
    {
        let (usage, bitrate) = openh264_settings(bitrate_bps);
        match openh264_encoder_new(usage, bitrate) {
            Ok(inner) => Ok(OpenH264VideoEncoder { inner, width: width as usize, height: height as usize }),
            Err(msg) => Err(SoftwareEncodeError::Backend(msg)),
        }
    }

    /// Encode one I420 frame (`Y`, `U`, `V` planes) stamped `timestamp_us`; bytes beyond one
    /// frame are ignored.
    pub fn encode_i420(&mut self, i420: &[u8], timestamp_us: u64) -> (r: Result<
        EncodedPacket,
        SoftwareEncodeError,
    >)
        requires
            old(self).spec_width() % 2 == 0,
            old(self).spec_height() % 2 == 0,
            3 * (old(self).spec_width() * old(self).spec_height()) <= usize::MAX,
        ensures
            final(self).spec_width() == old(self).spec_width(),
            final(self).spec_height() == old(self).spec_height(),
            r == Err::<EncodedPacket, SoftwareEncodeError>(SoftwareEncodeError::I420TooSmall)
                <==> i420.len() < old(self).frame_bytes(),
            r matches Ok(p) ==> i420.len() >= old(self).frame_bytes() && p.timestamp_us
                == timestamp_us && p.codec == VideoCodec::H264 && exists|
                    layers: Seq<Option<Seq<Option<Seq<u8>>>>>,
                    kind: SoftwareFrameType,
                | p.data@ == spec_annex_b_from_layers(layers) && p.is_keyframe == is_intra(kind),
    {
        proof {
            assert(self.width * self.height <= usize::MAX) by (nonlinear_arith)
                requires
                    3 * (self.width * self.height) <= usize::MAX,
            ;
        }
        let expected = 3 * (self.width * self.height) / 2;
        if i420.len() < expected {
            return Err(SoftwareEncodeError::I420TooSmall);
        }
        let (frame, ts_ms) = openh264_frame_input(i420, expected, timestamp_us);
        match openh264_encode(&mut self.inner, frame, self.width, self.height, ts_ms) {
            Ok((layers, kind)) => {
                let p = packet_from_bitstream(&layers, kind, timestamp_us);
                Ok(p)
            },
            Err(msg) => Err(SoftwareEncodeError::Backend(msg)),
        }
    }

    pub fn codec(&self) -> (r: VideoCodec)
        ensures
            r == VideoCodec::H264,
    {
        VideoCodec::H264
    }
}

} // verus!
