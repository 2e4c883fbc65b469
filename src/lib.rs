//! Real-time audio pipeline core: ring buffer transfer, streaming resampling,
//! silence suppression, frame assembly and the capture session life cycle.
pub mod agc;
pub mod context;
pub mod device;
pub mod pcm;
pub mod pipeline;
pub mod resampler;
pub mod ring;
pub mod schema;
pub mod session;
pub mod suppression;
