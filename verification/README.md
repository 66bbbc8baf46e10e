# capture_pipeline

Screen and system-audio capture for Windows: Windows Graphics Capture frames are converted to
NV12 on the GPU, encoded to H.264 (Media Foundation hardware or OpenH264), written to
`clip.h264` / `clip.mp4` / `audio.wav` and, optionally, pushed as Annex-B video packets and
AAC or Opus audio chunks to bounded channels for a streaming host.

## Layout

- `src/` — the verified library (Verus): the pipeline's parsing, format, timing and
  configuration rules, each with its contract. Floating-point audio processing and the Windows
  driver code stay in `app/` (see below):
  - `annexb` — Annex-B parsing, AVCC conversion, keyframe detection;
  - `yuv` — I420 / NV12 repacking; `readback` — staging-texture row repacking;
  - `video` — encoder configuration, keyframe cadence, NVENC preset choice, the Media
    Foundation output drain;
  - `soft_encoder` — OpenH264 encoding (through `openh264`);
  - `mp4_track` — what goes into the MP4 video and AAC tracks;
  - `audio` — PCM trim/pad, frame queues, AAC / Opus / WAV formats;
  - `timing`, `recording` — MP4 sample placement, A/V drift watchdog, the run's timeline,
    stream delivery under backpressure;
  - `settings`, `text`, `session` — `RS_CAPTURE_*` token rules, session configuration and
    resolved parameters;
  - `stage_queue`, `pool`, `events` — stage queues (through `crossbeam-channel`), the texture
    pool, and the values handed to consumers.
- `app/` — the `capture-pipeline` program: argument and environment reading, logging, file
  writers (`mp4`, WAV), floating-point audio processing, metrics, and the Windows capture,
  conversion and encoder backends that drive the library. There is no NVENC encoder backend:
  its binding crate is not available, so the NVENC attempt always fails and the selection moves
  on to the next backend the preference allows (if any). Only the NVENC preset choice and the
  software-fallback rule are in `src/video`.
- `tests/` — tests of the library.

The GPU conversion loads `color_convert.cso` (the `color_convert.hlsl` compute shader compiled
with `fxc /T cs_5_0 /E CSMain`) from the executable's directory.
