//! Verified core of a screen and system-audio capture pipeline.

pub mod annexb;
pub mod arith;
pub mod yuv;
pub mod mp4_track;
pub mod text;
pub mod settings;
pub mod video;
pub mod timing;
pub mod audio;
pub mod stage_queue;
pub mod events;
pub mod session;
pub mod recording;
pub mod pool;
pub mod soft_encoder;
pub mod readback;
