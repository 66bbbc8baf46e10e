//! Session configuration and resolved recording parameters: where encoded media goes, what a
//! host chose, and how the `RS_CAPTURE_*` values resolve or override it.
//!
//! `A` is the audio chunk type the host's stream consumers receive; the library only carries
//! its senders.

use vstd::prelude::*;

use std::path::PathBuf;

use crossbeam_channel::{Receiver, Sender};

use crate::events::{RuntimeError, VideoPacket};
use crate::settings::{
    async_encode_from_token, audio_codec_from_token, av_drift_threshold_from_token,
    capture_fps_from_token, cfr_mux_from_token, ffmpeg_mux_from_token, frame_pacing_from_token,
    spec_audio_codec, spec_av_drift_threshold, spec_capture_fps, spec_default_off,
    spec_default_on, spec_stream_backpressure, spec_video_bitrate, spec_video_codec_preference,
    spec_windows_encoder_preference, stream_backpressure_from_token, token_view,
    video_bitrate_bps_from_token, video_codec_preference_from_tokens, windows_encoder_preference,
    AudioCodecChoice, StreamBackpressure, VideoCodecPreference, WindowsEncoderPreference,
    DEFAULT_FPS, DEFAULT_VIDEO_BITRATE_BPS,
};
use crate::stage_queue::channel_bounded;

verus! {

/// `std::path::PathBuf`, carried as an opaque value (output directories).
#[verifier::external_type_specification]
#[verifier::external_body]
pub struct ExPathBuf(PathBuf);

/// Where encoded media goes.
#[verifier::reject_recursive_types(A)]
pub enum OutputTarget<A> {
    /// Write `clip.h264`, `clip.mp4` and `audio.wav` under this directory.
    Files { directory: PathBuf },
    /// Push encoded packets to these channels.
    StreamOnly { video: Sender<VideoPacket>, audio: Sender<A> },
    /// Record to disk and push to channels.
    FilesAndStream { directory: PathBuf, video: Sender<VideoPacket>, audio: Sender<A> },
}

/// Everything a host chooses to start a session.
#[verifier::reject_recursive_types(A)]
pub struct SessionConfig<A> {
    pub output: OutputTarget<A>,
    pub fps: u32,
    pub video_bitrate_bps: u32,
    pub frame_pacing: bool,
    pub async_nvenc: bool,
    pub cfr_mux: bool,
    /// `0` = drift watchdog off (recommended).
    pub av_drift_threshold_pcm_frames: u64,
    pub video_preference: VideoCodecPreference,
    pub audio_codec: AudioCodecChoice,
    pub limit_frames: Option<u32>,
    pub capture_system_audio: bool,
}

/// The session defaults: 30 fps, 45 Mbps, frame pacing and async NVENC on, CFR muxing and the
/// drift watchdog off, automatic encoder choice, AAC audio, no frame limit, system audio on.
pub open spec fn has_session_defaults<A>(c: SessionConfig<A>) -> bool {
    &&& c.fps == 30
    &&& c.video_bitrate_bps == 45_000_000
    &&& c.frame_pacing
    &&& c.async_nvenc
    &&& !c.cfr_mux
    &&& c.av_drift_threshold_pcm_frames == 0
    &&& c.video_preference == VideoCodecPreference::Auto
    &&& c.audio_codec == AudioCodecChoice::AacLcMf
    &&& c.limit_frames is None
    &&& c.capture_system_audio
}

impl<A> SessionConfig<A> {
    fn with_output(output: OutputTarget<A>) -> (r: Self)
        ensures
            r.output == output,
            has_session_defaults(r),
    {
        SessionConfig {
            output,
            fps: DEFAULT_FPS,
            video_bitrate_bps: DEFAULT_VIDEO_BITRATE_BPS,
            frame_pacing: true,
            async_nvenc: true,
            cfr_mux: false,
            av_drift_threshold_pcm_frames: 0,
            video_preference: VideoCodecPreference::Auto,
            audio_codec: AudioCodecChoice::AacLcMf,
            limit_frames: None,
            capture_system_audio: true,
        }
    }

    /// MP4 and WAV under `directory`, with the session defaults.
    pub fn files_only(directory: PathBuf) -> (r: Self)
        ensures
            r.output == (OutputTarget::<A>::Files { directory }),
            has_session_defaults(r),
    {
        Self::with_output(OutputTarget::Files { directory })
    }

    /// Stream-only: the host keeps the receivers and forwards packets.
    pub fn with_stream_endpoints(video: Sender<VideoPacket>, audio: Sender<A>) -> (r: Self)
        ensures
            r.output == (OutputTarget::<A>::StreamOnly { video, audio }),
            has_session_defaults(r),
    {
        Self::with_output(OutputTarget::StreamOnly { video, audio })
    }

    /// Files under `directory` plus a duplicate packet stream.
    pub fn files_and_stream(directory: PathBuf, video: Sender<VideoPacket>, audio: Sender<A>) -> (r:
        Self)
        ensures
            r.output == (OutputTarget::<A>::FilesAndStream { directory, video, audio }),
            has_session_defaults(r),
    {
        Self::with_output(OutputTarget::FilesAndStream { directory, video, audio })
    }
}

/// Bounded channels for streaming: `(video_tx, audio_tx, video_rx, audio_rx)`, holding at most
/// `video_cap` video packets and `audio_cap` audio chunks.
pub fn stream_pair<A>(video_cap: usize, audio_cap: usize) -> (Sender<VideoPacket>, Sender<A>, Receiver<
    VideoPacket,
>, Receiver<A>)
    requires
        video_cap <= usize::MAX / 4,
        audio_cap <= usize::MAX / 4,
{
    let (vtx, vrx) = channel_bounded::<VideoPacket>(video_cap);
    let (atx, arx) = channel_bounded::<A>(audio_cap);
    (vtx, atx, vrx, arx)
}

/// Where muxed artifacts go: disk, channels, or both.
#[verifier::reject_recursive_types(A)]
pub enum RecordingOutputs<A> {
    /// `clip.h264`, `clip.mp4`, `audio.wav` under `directory`.
    Files { directory: PathBuf },
    /// Encoded samples only, on the channels.
    Stream { video_tx: Sender<VideoPacket>, audio_tx: Sender<A> },
    /// File outputs plus a duplicate stream.
    FilesAndStream { directory: PathBuf, video_tx: Sender<VideoPacket>, audio_tx: Sender<A> },
}

impl<A> RecordingOutputs<A> {
    /// The output directory, for the variants that write files.
    pub open spec fn spec_directory(self) -> Option<PathBuf> {
        match self {
            RecordingOutputs::Files { directory } => Some(directory),
            RecordingOutputs::Stream { .. } => None,
            RecordingOutputs::FilesAndStream { directory, .. } => Some(directory),
        }
    }

    /// The stream senders, for the variants that stream.
    pub open spec fn spec_stream_senders(self) -> Option<(Sender<VideoPacket>, Sender<A>)> {
        match self {
            RecordingOutputs::Files { .. } => None,
            RecordingOutputs::Stream { video_tx, audio_tx } => Some((video_tx, audio_tx)),
            RecordingOutputs::FilesAndStream { video_tx, audio_tx, .. } => Some(
                (video_tx, audio_tx),
            ),
        }
    }

    pub fn directory(&self) -> (r: Option<&PathBuf>)
        ensures
            match r {
                Some(d) => self.spec_directory() == Some(*d),
                None => self.spec_directory() is None,
            },
    {
        match self {
            RecordingOutputs::Files { directory } => Some(directory),
            RecordingOutputs::Stream { .. } => None,
            RecordingOutputs::FilesAndStream { directory, .. } => Some(directory),
        }
    }

    pub fn stream_senders(&self) -> (r: Option<(&Sender<VideoPacket>, &Sender<A>)>)
        ensures
            match r {
                Some((v, a)) => self.spec_stream_senders() == Some((*v, *a)),
                None => self.spec_stream_senders() is None,
            },
    {
        match self {
            RecordingOutputs::Files { .. } => None,
            RecordingOutputs::Stream { video_tx, audio_tx } => Some((video_tx, audio_tx)),
            RecordingOutputs::FilesAndStream { video_tx, audio_tx, .. } => Some(
                (video_tx, audio_tx),
            ),
        }
    }

    /// Whether `clip.h264` and `clip.mp4` are written: exactly when there is a directory.
    pub fn writes_video_files(&self) -> (r: bool)
        ensures
            r == self.spec_directory() is Some,
    {
        match self {
            RecordingOutputs::Files { .. } => true,
            RecordingOutputs::Stream { .. } => false,
            RecordingOutputs::FilesAndStream { .. } => true,
        }
    }
}

/// The recording outputs a session output target stands for.
pub open spec fn spec_outputs_of_target<A>(t: OutputTarget<A>) -> RecordingOutputs<A> {
    match t {
        OutputTarget::Files { directory } => RecordingOutputs::Files { directory },
        OutputTarget::StreamOnly { video, audio } => RecordingOutputs::Stream {
            video_tx: video,
            audio_tx: audio,
        },
        OutputTarget::FilesAndStream { directory, video, audio } => RecordingOutputs::FilesAndStream {
            directory,
            video_tx: video,
            audio_tx: audio,
        },
    }
}

/// Raw values of the `RS_CAPTURE_*` variables (`None` when unset).
#[derive(Clone, Debug, Default)]
pub struct CaptureEnv {
    /// `RS_CAPTURE_ENCODER`
    pub encoder: Option<String>,
    /// `RS_CAPTURE_NVENC`
    pub nvenc: Option<String>,
    /// `RS_CAPTURE_NVENC_REQUIRED`
    pub nvenc_required: Option<String>,
    /// `RS_CAPTURE_FPS`
    pub fps: Option<String>,
    /// `RS_CAPTURE_VIDEO_BITRATE`
    pub video_bitrate: Option<String>,
    /// `RS_CAPTURE_FRAME_PACING`
    pub frame_pacing: Option<String>,
    /// `RS_CAPTURE_ASYNC_ENCODE`
    pub async_encode: Option<String>,
    /// `RS_CAPTURE_CFR`
    pub cfr: Option<String>,
    /// `RS_CAPTURE_AV_DRIFT_SAMPLES`
    pub av_drift_samples: Option<String>,
    /// `RS_CAPTURE_STREAM_BACKPRESSURE`
    pub stream_backpressure: Option<String>,
    /// `RS_CAPTURE_AUDIO_CODEC`
    pub audio_codec: Option<String>,
    /// `RS_CAPTURE_FFMPEG_MUX`
    pub ffmpeg_mux: Option<String>,
}

/// The characters of an optional owned token.
pub open spec fn opt_view(o: Option<String>) -> Option<Seq<char>> {
    match o {
        Some(s) => Some(s@),
        None => None,
    }
}

fn token(o: &Option<String>) -> (r: Option<&str>)
    ensures
        token_view(r) == opt_view(*o),
{
    match o {
        Some(s) => Some(s.as_str()),
        None => None,
    }
}

/// Encoder preference the variables resolve to.
pub open spec fn env_video_preference(env: CaptureEnv) -> VideoCodecPreference {
    spec_video_codec_preference(opt_view(env.encoder), opt_view(env.nvenc), opt_view(env.nvenc_required))
}

/// Fully resolved options for a recording session.
#[verifier::reject_recursive_types(A)]
pub struct PipelineParams<A> {
    pub outputs: RecordingOutputs<A>,
    /// `0` = unlimited frames.
    pub frame_limit: u32,
    pub capture_system_audio: bool,
    pub fps: u32,
    pub video_bitrate_bps: u32,
    pub frame_pacing: bool,
    pub async_nvenc: bool,
    pub cfr_mux: bool,
    pub av_drift_threshold_pcm_frames: u64,
    pub video_codec_preference: VideoCodecPreference,
    pub stream_backpressure: StreamBackpressure,
    pub audio_codec: AudioCodecChoice,
    pub remux_with_ffmpeg: bool,
}

/// Nominal frame rates a session accepts.
pub open spec fn fps_in_range(fps: u32) -> bool {
    1 <= fps <= 240
}

/// Video bitrates a session accepts.
pub open spec fn bitrate_in_range(bps: u32) -> bool {
    500_000 <= bps <= 200_000_000
}

/// The parameters `from_env` stands for: the given outputs, frame limit and audio switch, and
/// every other setting resolved from the variables.
pub open spec fn params_from_env<A>(
    p: PipelineParams<A>,
    outputs: RecordingOutputs<A>,
    frame_limit: u32,
    capture_system_audio: bool,
    env: CaptureEnv,
) -> bool {
    &&& p.outputs == outputs
    &&& p.frame_limit == frame_limit
    &&& p.capture_system_audio == capture_system_audio
    &&& p.fps == spec_capture_fps(opt_view(env.fps))
    &&& p.video_bitrate_bps == spec_video_bitrate(opt_view(env.video_bitrate))
    &&& p.frame_pacing == spec_default_on(opt_view(env.frame_pacing))
    &&& p.async_nvenc == spec_default_on(opt_view(env.async_encode))
    &&& p.cfr_mux == spec_default_off(opt_view(env.cfr))
    &&& p.av_drift_threshold_pcm_frames == spec_av_drift_threshold(opt_view(env.av_drift_samples))
    &&& p.video_codec_preference == env_video_preference(env)
    &&& p.stream_backpressure == spec_stream_backpressure(opt_view(env.stream_backpressure))
    &&& p.audio_codec == spec_audio_codec(opt_view(env.audio_codec))
    &&& p.remux_with_ffmpeg == (opt_view(env.ffmpeg_mux) == Some("1"@))
}

fn build_pipeline_params<A>(
    outputs: RecordingOutputs<A>,
    frame_limit: u32,
    capture_system_audio: bool,
    env: &CaptureEnv,
) -> (p: PipelineParams<A>)
    ensures
        params_from_env(p, outputs, frame_limit, capture_system_audio, *env),
        p.wf(),
{
    let fps = capture_fps_from_token(token(&env.fps));
    let video_bitrate_bps = video_bitrate_bps_from_token(token(&env.video_bitrate));
    let frame_pacing = frame_pacing_from_token(token(&env.frame_pacing));
    let async_nvenc = async_encode_from_token(token(&env.async_encode));
    let cfr_mux = cfr_mux_from_token(token(&env.cfr));
    let av_drift_threshold_pcm_frames = av_drift_threshold_from_token(token(&env.av_drift_samples));
    let video_codec_preference = video_codec_preference_from_tokens(
        token(&env.encoder),
        token(&env.nvenc),
        token(&env.nvenc_required),
    );
    let stream_backpressure = stream_backpressure_from_token(token(&env.stream_backpressure));
    let audio_codec = audio_codec_from_token(token(&env.audio_codec));
    let remux_with_ffmpeg = ffmpeg_mux_from_token(token(&env.ffmpeg_mux));
    PipelineParams {
        outputs,
        frame_limit,
        capture_system_audio,
        fps,
        video_bitrate_bps,
        frame_pacing,
        async_nvenc,
        cfr_mux,
        av_drift_threshold_pcm_frames,
        video_codec_preference,
        stream_backpressure,
        audio_codec,
        remux_with_ffmpeg,
    }
}

/// Files under `output_directory`, every other setting from the `RS_CAPTURE_*` values.
pub fn pipeline_params_from_cli_and_env<A>(
    output_directory: PathBuf,
    frame_limit: u32,
    capture_system_audio: bool,
    env: &CaptureEnv,
) -> (p: PipelineParams<A>)
    ensures
        params_from_env(
            p,
            RecordingOutputs::Files { directory: output_directory },
            frame_limit,
            capture_system_audio,
            *env,
        ),
        p.wf(),
{
    build_pipeline_params(
        RecordingOutputs::Files { directory: output_directory },
        frame_limit,
        capture_system_audio,
        env,
    )
}

/// Stream-only session on the given senders, every other setting from the `RS_CAPTURE_*`
/// values.
pub fn pipeline_params_stream_only<A>(
    video_tx: Sender<VideoPacket>,
    audio_tx: Sender<A>,
    frame_limit: u32,
    capture_system_audio: bool,
    env: &CaptureEnv,
) -> (p: PipelineParams<A>)
    ensures
        params_from_env(
            p,
            RecordingOutputs::Stream { video_tx, audio_tx },
            frame_limit,
            capture_system_audio,
            *env,
        ),
        p.wf(),
{
    build_pipeline_params(
        RecordingOutputs::Stream { video_tx, audio_tx },
        frame_limit,
        capture_system_audio,
        env,
    )
}

/// Files under `directory` plus a duplicate stream, every other setting from the
/// `RS_CAPTURE_*` values.
pub fn pipeline_params_files_and_stream<A>(
    directory: PathBuf,
    video_tx: Sender<VideoPacket>,
    audio_tx: Sender<A>,
    frame_limit: u32,
    capture_system_audio: bool,
    env: &CaptureEnv,
) -> (p: PipelineParams<A>)
    ensures
        params_from_env(
            p,
            RecordingOutputs::FilesAndStream { directory, video_tx, audio_tx },
            frame_limit,
            capture_system_audio,
            *env,
        ),
        p.wf(),
{
    build_pipeline_params(
        RecordingOutputs::FilesAndStream { directory, video_tx, audio_tx },
        frame_limit,
        capture_system_audio,
        env,
    )
}

/// The encoder preference a session gets: the variables' software forcing or NVENC requirement
/// wins; otherwise the host's choice stands.
pub open spec fn session_video_preference(chosen: VideoCodecPreference, env: CaptureEnv) -> VideoCodecPreference {
    let e = env_video_preference(env);
    if e == VideoCodecPreference::PreferSoftware || e == VideoCodecPreference::RequireNvenc {
        e
    } else {
        chosen
    }
}

/// The parameters a host-built session resolves to: its settings carry over (no frame limit
/// is 0), the variables' encoder forcing wins over its choice, and the variables set the stream
/// backpressure.
pub open spec fn params_from_session<A>(
    p: PipelineParams<A>,
    session: SessionConfig<A>,
    remux_with_ffmpeg: bool,
    env: CaptureEnv,
) -> bool {
    &&& p.outputs == spec_outputs_of_target(session.output)
    &&& p.frame_limit == match session.limit_frames {
        Some(n) => n,
        None => 0u32,
    }
    &&& p.capture_system_audio == session.capture_system_audio
    &&& p.fps == session.fps
    &&& p.video_bitrate_bps == session.video_bitrate_bps
    &&& p.frame_pacing == session.frame_pacing
    &&& p.async_nvenc == session.async_nvenc
    &&& p.cfr_mux == session.cfr_mux
    &&& p.av_drift_threshold_pcm_frames == session.av_drift_threshold_pcm_frames
    &&& p.video_codec_preference == session_video_preference(session.video_preference, env)
    &&& p.stream_backpressure == spec_stream_backpressure(opt_view(env.stream_backpressure))
    &&& p.audio_codec == session.audio_codec
    &&& p.remux_with_ffmpeg == remux_with_ffmpeg
}

/// No `RS_CAPTURE_*` variable is set.
pub open spec fn env_is_unset(env: CaptureEnv) -> bool {
    &&& env.encoder is None
    &&& env.nvenc is None
    &&& env.nvenc_required is None
    &&& env.fps is None
    &&& env.video_bitrate is None
    &&& env.frame_pacing is None
    &&& env.async_encode is None
    &&& env.cfr is None
    &&& env.av_drift_samples is None
    &&& env.stream_backpressure is None
    &&& env.audio_codec is None
    &&& env.ffmpeg_mux is None
}

/// A host that builds a session with the defaults gets what the command-line path gets with no
/// variables set: both resolve to the same parameters for the same outputs (no frame limit,
/// system audio on, no remux).
pub proof fn law_default_session_matches_default_env<A>(
    session: SessionConfig<A>,
    p: PipelineParams<A>,
    env: CaptureEnv,
)
    requires
        has_session_defaults(session),
        env_is_unset(env),
        params_from_session(p, session, false, env),
    ensures
        params_from_env(p, spec_outputs_of_target(session.output), 0, true, env),
{
}

impl<A> PipelineParams<A> {
    /// Every resolved session runs at a frame rate in 1..=240 with a bitrate in
    /// 500 000..=200 000 000.
    pub open spec fn wf(self) -> bool {
        fps_in_range(self.fps) && bitrate_in_range(self.video_bitrate_bps)
    }

    /// Whether encoding is forced to OpenH264.
    pub fn force_software_encoder_only(&self) -> (r: bool)
        ensures
            r == (self.video_codec_preference == VideoCodecPreference::PreferSoftware),
    {
        matches!(self.video_codec_preference, VideoCodecPreference::PreferSoftware)
    }

    /// The encoder registry policy for this session.
    pub fn windows_encoder_preference(&self) -> (r: WindowsEncoderPreference)
        ensures
            r == spec_windows_encoder_preference(self.video_codec_preference),
    {
        windows_encoder_preference(self.video_codec_preference)
    }

    /// Resolves a host-built session. It is refused, as an invalid configuration, when its frame
    /// rate is outside 1..=240 or its bitrate outside 500 000..=200 000 000. Otherwise the
    /// session's settings carry over (no frame limit becomes 0 = unlimited), the variables may
    /// force software encoding or require NVENC, and they set the stream backpressure.
    pub fn try_from_session_config(
        session: SessionConfig<A>,
        remux_with_ffmpeg: bool,
        env: &CaptureEnv,
    ) -> (r: Result<Self, RuntimeError>)
        ensures
            r is Err <==> !(fps_in_range(session.fps) && bitrate_in_range(session.video_bitrate_bps)),
            r matches Err(e) ==> e is InvalidConfig,
            r matches Ok(p) ==> p.wf() && params_from_session(p, session, remux_with_ffmpeg, *env),
    {
        if !(1 <= session.fps && session.fps <= 240) {
            return Err(RuntimeError::InvalidConfig("fps must be between 1 and 240".to_owned()));
        }
        if !(500_000 <= session.video_bitrate_bps && session.video_bitrate_bps <= 200_000_000) {
            return Err(
                RuntimeError::InvalidConfig(
                    "video bitrate must be between 500000 and 200000000 bps".to_owned(),
                ),
            );
        }
        let from_env = video_codec_preference_from_tokens(
            token(&env.encoder),
            token(&env.nvenc),
            token(&env.nvenc_required),
        );
        let SessionConfig {
            output,
            fps,
            video_bitrate_bps,
            frame_pacing,
            async_nvenc,
            cfr_mux,
            av_drift_threshold_pcm_frames,
            video_preference,
            audio_codec,
            limit_frames,
            capture_system_audio,
        } = session;
        let video_codec_preference = match from_env {
            VideoCodecPreference::PreferSoftware => VideoCodecPreference::PreferSoftware,
            VideoCodecPreference::RequireNvenc => VideoCodecPreference::RequireNvenc,
            _ => video_preference,
        };
        let outputs = match output {
            OutputTarget::Files { directory } => RecordingOutputs::Files { directory },
            OutputTarget::StreamOnly { video, audio } => RecordingOutputs::Stream {
                video_tx: video,
                audio_tx: audio,
            },
            OutputTarget::FilesAndStream { directory, video, audio } => {
                RecordingOutputs::FilesAndStream { directory, video_tx: video, audio_tx: audio }
            },
        };
        let frame_limit: u32 = match limit_frames {
            Some(n) => n,
            None => 0,
        };
        Ok(
            PipelineParams {
                outputs,
                frame_limit,
                capture_system_audio,
                fps,
                video_bitrate_bps,
                frame_pacing,
                async_nvenc,
                cfr_mux,
                av_drift_threshold_pcm_frames,
                video_codec_preference,
                stream_backpressure: stream_backpressure_from_token(token(&env.stream_backpressure)),
                audio_codec,
                remux_with_ffmpeg,
            },
        )
    }
}

} // verus!
