//! Progressive-MP4 H.264 video track bookkeeping: which parameter sets the `avc1` sample entry
//! carries, when the track may be added, and what each sample holds.
//!
//! The MP4 container itself is written by the host with the `mp4` crate; this module decides
//! every value that goes into it.

use vstd::prelude::*;

use crate::annexb::{
    avcc_payloads, law_avcc_length_prefixes_read_back, law_nal_units_of_annex_b_join, nal_type,
    nal_units, nal_units_to_avcc_sample, spec_annex_b_join, spec_avcc_sample,
    spec_length_prefixed_from, spec_nal_type, spec_nal_units, wf_nal,
};

verus! {

/// Movie and video track timescale (ticks per second).
pub const MP4_TIMESCALE: u32 = 30_000;

/// Why a video frame or track could not be produced.
#[derive(Clone, Copy, Debug, PartialEq, Eq, Structural)]
pub enum Mp4Error {
    /// The nominal frame rate was zero.
    ZeroFps,
    /// No SPS and PPS NAL units were seen before the first video sample.
    MissingParameterSets,
    /// The frame held no VCL NAL units (types 1 or 5).
    NoVclNalUnits,
    /// The AAC sample rate has no MP4 sampling-frequency index.
    UnsupportedSampleRate,
    /// The AAC channel count has no MP4 channel configuration (1 to 7).
    UnsupportedChannels,
}

/// The `avc1` track the host adds to the MP4 writer.
pub struct AvcTrackConfig {
    pub width: u16,
    pub height: u16,
    pub timescale: u32,
    pub seq_param_set: Vec<u8>,
    pub pic_param_set: Vec<u8>,
}

/// One MP4 video sample.
pub struct Mp4VideoSample {
    pub duration: u32,
    pub is_sync: bool,
    /// AVCC payload: VCL NAL units, each behind its 4-byte big-endian length.
    pub bytes: Vec<u8>,
}

/// State of the single H.264 video track of a progressive MP4.
pub struct Mp4H264Track {
    width: u16,
    height: u16,
    timescale: u32,
    frame_duration: u32,
    track_added: bool,
    sps: Vec<u8>,
    pps: Vec<u8>,
}

/// The first NAL unit of type `t`, if any.
pub open spec fn first_of_type(nals: Seq<Seq<u8>>, t: u8) -> Option<Seq<u8>>
    decreases nals.len(),
{
    if nals.len() == 0 {
        None
    } else if spec_nal_type(nals[0]) == Some(t) {
        Some(nals[0])
    } else {
        first_of_type(nals.drop_first(), t)
    }
}

/// A stored parameter set after a frame: kept once set, else the frame's first NAL of type `t`.
pub open spec fn updated_param_set(old: Seq<u8>, nals: Seq<Seq<u8>>, t: u8) -> Seq<u8> {
    if old.len() == 0 {
        match first_of_type(nals, t) {
            Some(n) => n,
            None => old,
        }
    } else {
        old
    }
}

/// The VCL NAL units (type 1, non-IDR slice; type 5, IDR slice) in order.
pub open spec fn vcl_nals(nals: Seq<Seq<u8>>) -> Seq<Seq<u8>>
    decreases nals.len(),
{
    if nals.len() == 0 {
        Seq::empty()
    } else {
        let t = match spec_nal_type(nals.last()) {
            Some(t) => t,
            None => 0u8,
        };
        vcl_nals(nals.drop_last()) + if t == 1 || t == 5 {
            seq![nals.last()]
        } else {
            Seq::empty()
        }
    }
}

/// A slice NAL unit: its type (low five bits of the first byte, whatever the `nal_ref_idc`
/// bits) is 1 (non-IDR slice) or 5 (IDR slice).
pub open spec fn is_slice_nal(n: Seq<u8>) -> bool {
    n.len() > 0 && ((n[0] & 0x1f) == 1 || (n[0] & 0x1f) == 5)
}

/// The units a sample keeps are exactly the slice NAL units, in their order.
pub proof fn law_vcl_nals_are_the_slices(nals: Seq<Seq<u8>>)
    ensures
        vcl_nals(nals) == nals.filter(|n: Seq<u8>| is_slice_nal(n)),
    decreases nals.len(),
{
    reveal(Seq::filter);
    if nals.len() > 0 {
        law_vcl_nals_are_the_slices(nals.drop_last());
        let f = nals.drop_last().filter(|n: Seq<u8>| is_slice_nal(n));
        assert(f.push(nals.last()) =~= f + seq![nals.last()]);
        assert(f + Seq::<Seq<u8>>::empty() =~= f);
    } else {
        assert(nals.filter(|n: Seq<u8>| is_slice_nal(n)) =~= Seq::<Seq<u8>>::empty());
    }
}

/// A frame has a sample exactly when one of its NAL units is a slice.
pub proof fn law_sample_needs_a_slice(nals: Seq<Seq<u8>>)
    ensures
        vcl_nals(nals).len() > 0 <==> exists|k: int| 0 <= k < nals.len() && #[trigger] is_slice_nal(nals[k]),
    decreases nals.len(),
{
    if nals.len() > 0 {
        let pre = nals.drop_last();
        law_sample_needs_a_slice(pre);
        let last = nals.len() - 1;
        if is_slice_nal(nals[last]) {
            assert(vcl_nals(nals).len() > 0);
        }
        if exists|k: int| 0 <= k < pre.len() && #[trigger] is_slice_nal(pre[k]) {
            let k = choose|k: int| 0 <= k < pre.len() && #[trigger] is_slice_nal(pre[k]);
            assert(is_slice_nal(nals[k]));
        }
        if exists|k: int| 0 <= k < nals.len() && #[trigger] is_slice_nal(nals[k]) {
            let k = choose|k: int| 0 <= k < nals.len() && #[trigger] is_slice_nal(nals[k]);
            if k < last {
                assert(is_slice_nal(pre[k]));
            }
        }
    }
}

/// The `avc1` sample entry keeps the first SPS and PPS it sees: once a parameter set is held,
/// later frames never replace it.
pub proof fn law_parameter_sets_are_kept(held: Seq<u8>, nals: Seq<Seq<u8>>, t: u8)
    requires
        held.len() > 0,
    ensures
        updated_param_set(held, nals, t) == held,
{
}

proof fn lemma_vcl_nals_are_nals(nals: Seq<Seq<u8>>)
    ensures
        forall|i: int|
            0 <= i < vcl_nals(nals).len() ==> exists|k: int|
                0 <= k < nals.len() && #[trigger] vcl_nals(nals)[i] == nals[k],
    decreases nals.len(),
{
    if nals.len() > 0 {
        let pre = nals.drop_last();
        lemma_vcl_nals_are_nals(pre);
        assert forall|i: int| 0 <= i < vcl_nals(nals).len() implies exists|k: int|
            0 <= k < nals.len() && #[trigger] vcl_nals(nals)[i] == nals[k] by {
            if i < vcl_nals(pre).len() {
                let k = choose|k: int| 0 <= k < pre.len() && vcl_nals(pre)[i] == pre[k];
                assert(nals[k] == pre[k]);
            } else {
                assert(vcl_nals(nals)[i] == nals[nals.len() - 1]);
            }
        }
    }
}

/// An MP4 video sample holds exactly the frame's slice data: for a frame written as well-formed
/// NAL units, reading the sample's length prefixes back gives the Annex-B stream of the frame's
/// VCL units, in order.
pub proof fn law_mp4_sample_reads_back(nals: Seq<Seq<u8>>)
    requires
        forall|k: int| 0 <= k < nals.len() ==> #[trigger] wf_nal(nals[k]),
        forall|k: int| 0 <= k < nals.len() ==> #[trigger] nals[k].len() <= u32::MAX,
    ensures
        spec_length_prefixed_from(
            spec_avcc_sample(vcl_nals(spec_nal_units(spec_annex_b_join(nals)))),
            0,
        ) == spec_annex_b_join(vcl_nals(nals)),
{
    law_nal_units_of_annex_b_join(nals);
    lemma_vcl_nals_are_nals(nals);
    assert(avcc_payloads(vcl_nals(nals))) by {
        assert forall|i: int| 0 <= i < vcl_nals(nals).len() implies 0 < #[trigger] vcl_nals(
            nals,
        )[i].len() <= u32::MAX by {
            let k = choose|k: int| 0 <= k < nals.len() && vcl_nals(nals)[i] == nals[k];
            assert(wf_nal(nals[k]));
            assert(nals[k].len() <= u32::MAX);
        }
    }
    law_avcc_length_prefixes_read_back(vcl_nals(nals));
}

impl Mp4H264Track {
    pub closed spec fn spec_width(&self) -> u16 {
        self.width
    }

    pub closed spec fn spec_height(&self) -> u16 {
        self.height
    }

    pub closed spec fn spec_frame_duration(&self) -> u32 {
        self.frame_duration
    }

    pub closed spec fn spec_track_added(&self) -> bool {
        self.track_added
    }

    pub closed spec fn spec_sps(&self) -> Seq<u8> {
        self.sps@
    }

    pub closed spec fn spec_pps(&self) -> Seq<u8> {
        self.pps@
    }

    pub closed spec fn spec_timescale(&self) -> u32 {
        self.timescale
    }

    /// Track for `width` x `height` video at nominal `fps`: timescale 30 000, each sample lasting
    /// `30 000 / fps` ticks.
    pub fn new(width: u16, height: u16, fps: u32) -> (r: Result<Self, Mp4Error>)
        ensures
            fps == 0 <==> r == Err::<Self, Mp4Error>(Mp4Error::ZeroFps),
            fps > 0 <==> r is Ok,
            r matches Ok(t) ==> {
                &&& t.spec_width() == width
                &&& t.spec_height() == height
                &&& t.spec_timescale() == MP4_TIMESCALE
                &&& t.spec_frame_duration() == MP4_TIMESCALE / fps
                &&& !t.spec_track_added()
                &&& t.spec_sps().len() == 0
                &&& t.spec_pps().len() == 0
            },
    {
        if fps == 0 {
            return Err(Mp4Error::ZeroFps);
        }
        Ok(Mp4H264Track {
            width,
            height,
            timescale: MP4_TIMESCALE,
            frame_duration: MP4_TIMESCALE / fps,
            track_added: false,
            sps: Vec::new(),
            pps: Vec::new(),
        })
    }

    /// Video track timescale (ticks per second).
    pub fn video_timescale(&self) -> (r: u32)
        ensures
            r == self.spec_timescale(),
    {
        self.timescale
    }

    /// Nominal duration of one sample, in timescale ticks.
    pub fn frame_duration(&self) -> (r: u32)
        ensures
            r == self.spec_frame_duration(),
    {
        self.frame_duration
    }

    /// Whether the host has added the video track.
    pub fn track_added(&self) -> (r: bool)
        ensures
            r == self.spec_track_added(),
    {
        self.track_added
    }

    /// Split one Annex-B frame into NAL units and remember the first SPS (type 7) and PPS
    /// (type 8) seen, for the `avc1` sample entry.
    pub fn absorb_frame(&mut self, annex_b: &[u8]) -> (nals: Vec<Vec<u8>>)
        ensures
            nals.deep_view() == spec_nal_units(annex_b@),
            final(self).spec_sps() == updated_param_set(old(self).spec_sps(), nals.deep_view(), 7),
            final(self).spec_pps() == updated_param_set(old(self).spec_pps(), nals.deep_view(), 8),
            final(self).spec_width() == old(self).spec_width(),
            final(self).spec_height() == old(self).spec_height(),
            final(self).spec_timescale() == old(self).spec_timescale(),
            final(self).spec_frame_duration() == old(self).spec_frame_duration(),
            final(self).spec_track_added() == old(self).spec_track_added(),
    {
        let nals = nal_units(annex_b);
        let ghost all = nals.deep_view();
        let ghost sps0 = self.sps@;
        let ghost pps0 = self.pps@;
        assert(all.skip(0) =~= all);
        let mut k: usize = 0;
        while k < nals.len()
            invariant
                k <= nals.len(),
                all == nals.deep_view(),
                self.width == old(self).width,
                self.height == old(self).height,
                self.timescale == old(self).timescale,
                self.frame_duration == old(self).frame_duration,
                self.track_added == old(self).track_added,
                sps0 == old(self).sps@,
                pps0 == old(self).pps@,
                updated_param_set(self.sps@, all.skip(k as int), 7) == updated_param_set(
                    sps0,
                    all,
                    7,
                ),
                updated_param_set(self.pps@, all.skip(k as int), 8) == updated_param_set(
                    pps0,
                    all,
                    8,
                ),
            decreases nals.len() - k,
        {
            let nal = &nals[k];
            let t = nal_type(nal.as_slice());
            assert(nal@ == all[k as int]);
            assert(all.skip(k as int).drop_first() =~= all.skip(k + 1));
            assert(all.skip(k as int)[0] == all[k as int]);
            if t == Some(7u8) && self.sps.len() == 0 {
                self.sps = nal.clone();
            } else if t == Some(8u8) && self.pps.len() == 0 {
                self.pps = nal.clone();
            }
            k += 1;
        }
        assert(all.skip(nals.len() as int) =~= Seq::<Seq<u8>>::empty());
        nals
    }

    /// The `avc1` track to add before the first sample, once both parameter sets are known;
    /// `None` when the track is already added.
    pub fn track_to_add(&self) -> (r: Result<Option<AvcTrackConfig>, Mp4Error>)
        ensures
            self.spec_track_added() ==> r matches Ok(None),
            !self.spec_track_added() && (self.spec_sps().len() == 0 || self.spec_pps().len()
                == 0) ==> r == Err::<Option<AvcTrackConfig>, Mp4Error>(
                Mp4Error::MissingParameterSets,
            ),
            !self.spec_track_added() && self.spec_sps().len() > 0 && self.spec_pps().len() > 0
                ==> (r matches Ok(Some(c)) && c.width == self.spec_width() && c.height
                == self.spec_height() && c.timescale == self.spec_timescale()
                && c.seq_param_set@ == self.spec_sps() && c.pic_param_set@ == self.spec_pps()),
    {
        if self.track_added {
            return Ok(None);
        }
        if self.sps.len() == 0 || self.pps.len() == 0 {
            return Err(Mp4Error::MissingParameterSets);
        }
        Ok(
            Some(
                AvcTrackConfig {
                    width: self.width,
                    height: self.height,
                    timescale: self.timescale,
                    seq_param_set: self.sps.clone(),
                    pic_param_set: self.pps.clone(),
                },
            ),
        )
    }

    /// Record that the host added the video track.
    pub fn mark_track_added(&mut self)
        ensures
            final(self).spec_track_added(),
            final(self).spec_sps() == old(self).spec_sps(),
            final(self).spec_pps() == old(self).spec_pps(),
            final(self).spec_width() == old(self).spec_width(),
            final(self).spec_height() == old(self).spec_height(),
            final(self).spec_timescale() == old(self).spec_timescale(),
            final(self).spec_frame_duration() == old(self).spec_frame_duration(),
    {
        self.track_added = true;
    }
}

/// The MP4 sample for a frame's NAL units: its VCL NAL units as an AVCC payload.
pub fn video_sample(nals: &[Vec<u8>], is_keyframe: bool, duration: u32) -> (r: Result<
    Mp4VideoSample,
    Mp4Error,
>)
    ensures
        vcl_nals(nals.deep_view()).len() == 0 <==> r == Err::<Mp4VideoSample, Mp4Error>(
            Mp4Error::NoVclNalUnits,
        ),
        vcl_nals(nals.deep_view()).len() > 0 <==> r is Ok,
        r matches Ok(s) ==> s.duration == duration && s.is_sync == is_keyframe && s.bytes@
            == spec_avcc_sample(vcl_nals(nals.deep_view())),
{
    let mut vcl: Vec<Vec<u8>> = Vec::new();
    let mut k: usize = 0;
    while k < nals.len()
        invariant
            k <= nals.len(),
            vcl.deep_view() == vcl_nals(nals.deep_view().subrange(0, k as int)),
        decreases nals.len() - k,
    {
        let t = match nal_type(nals[k].as_slice()) {
            Some(t) => t,
            None => 0u8,
        };
        let ghost pre = nals.deep_view().subrange(0, k + 1);
        assert(pre.drop_last() =~= nals.deep_view().subrange(0, k as int));
        assert(pre.last() == nals[k as int]@);
        if t == 1 || t == 5 {
            let n = nals[k].clone();
            assert(n.deep_view() =~= n@);
            vcl.push(n);
            assert(vcl.deep_view() =~= vcl_nals(pre));
        } else {
            assert(vcl.deep_view() =~= vcl_nals(pre));
        }
        k += 1;
    }
    assert(nals.deep_view().subrange(0, nals.len() as int) =~= nals.deep_view());
    if vcl.len() == 0 {
        return Err(Mp4Error::NoVclNalUnits);
    }
    let payload = nal_units_to_avcc_sample(vcl.as_slice());
    Ok(Mp4VideoSample { duration, is_sync: is_keyframe, bytes: payload })
}

/// Track id of the video track (added first).
pub const VIDEO_TRACK_ID: u32 = 1;

/// Track id of the AAC track (added right after the video track).
pub const AAC_TRACK_ID: u32 = 2;

/// The `mp4a` AAC-LC track the host adds after the video track.
#[derive(Clone, Copy, Debug, PartialEq, Eq, Structural)]
pub struct AacTrackConfig {
    pub bitrate: u32,
    /// Track timescale: the sample rate, so each access unit lasts 1024 ticks.
    pub timescale: u32,
    /// MP4 sampling-frequency index.
    pub freq_index: u8,
    /// MP4 channel configuration.
    pub channel_config: u8,
}

/// The sampling-frequency index of an AAC sample rate, if the MP4 table has one.
pub open spec fn spec_aac_freq_index(rate: u32) -> Option<u8> {
    if rate == 96_000 {
        Some(0u8)
    } else if rate == 88_200 {
        Some(1u8)
    } else if rate == 64_000 {
        Some(2u8)
    } else if rate == 48_000 {
        Some(3u8)
    } else if rate == 44_100 {
        Some(4u8)
    } else if rate == 32_000 {
        Some(5u8)
    } else if rate == 24_000 {
        Some(6u8)
    } else if rate == 22_050 {
        Some(7u8)
    } else if rate == 16_000 {
        Some(8u8)
    } else if rate == 12_000 {
        Some(9u8)
    } else if rate == 11_025 {
        Some(10u8)
    } else if rate == 8_000 {
        Some(11u8)
    } else if rate == 7_350 {
        Some(12u8)
    } else {
        None
    }
}

/// The AAC track for `sample_rate` Hz, `channels` channels and `bitrate` bits per second.
pub fn aac_track_config(sample_rate: u32, channels: u16, bitrate: u32) -> (r: Result<
    AacTrackConfig,
    Mp4Error,
>)
    ensures
        spec_aac_freq_index(sample_rate) is None ==> r == Err::<AacTrackConfig, Mp4Error>(
            Mp4Error::UnsupportedSampleRate,
        ),
        spec_aac_freq_index(sample_rate) is Some && !(1 <= channels <= 7) ==> r == Err::<
            AacTrackConfig,
            Mp4Error,
        >(Mp4Error::UnsupportedChannels),
        spec_aac_freq_index(sample_rate) is Some && 1 <= channels <= 7 ==> r == Ok::<
            AacTrackConfig,
            Mp4Error,
        >(
            AacTrackConfig {
                bitrate,
                timescale: sample_rate,
                freq_index: spec_aac_freq_index(sample_rate)->0,
                channel_config: channels as u8,
            },
        ),
{
    let freq_index: u8 = if sample_rate == 96_000 {
        0
    } else if sample_rate == 88_200 {
        1
    } else if sample_rate == 64_000 {
        2
    } else if sample_rate == 48_000 {
        3
    } else if sample_rate == 44_100 {
        4
    } else if sample_rate == 32_000 {
        5
    } else if sample_rate == 24_000 {
        6
    } else if sample_rate == 22_050 {
        7
    } else if sample_rate == 16_000 {
        8
    } else if sample_rate == 12_000 {
        9
    } else if sample_rate == 11_025 {
        10
    } else if sample_rate == 8_000 {
        11
    } else if sample_rate == 7_350 {
        12
    } else {
        return Err(Mp4Error::UnsupportedSampleRate);
    };
    if channels < 1 || channels > 7 {
        return Err(Mp4Error::UnsupportedChannels);
    }
    Ok(
        AacTrackConfig {
            bitrate,
            timescale: sample_rate,
            freq_index,
            channel_config: channels as u8,
        },
    )
}

} // verus!
