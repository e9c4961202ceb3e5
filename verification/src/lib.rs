//! Size-targeted H.264 compression for sharing clips on Discord.
//!
//! A clip is measured, a plan is made that spreads the bytes of a ceiling over
//! its length, and it is encoded to that plan until the file fits. This crate
//! decides; it touches no file and no codec itself:
//!
//! - [`session`] is the measure-then-re-encode loop, entered by
//!   [`compress_to_target`];
//! - [`plan`] turns a clip and a budget into bitrate, frame and frame rate;
//! - [`encoder`] picks an H.264 encoder and says how to open it;
//! - [`streams`], [`filters`] and [`pipeline`] set up one pass and keep its
//!   order;
//! - [`jobs`], [`paths`], [`text`], [`theme`] and [`timer`] are what a window
//!   needs.
//!
//! Every quantity is an integer, and every rate an exact ratio rounded once.
//! What holds of all clips is proved next to what it is about, in functions
//! whose names begin with `law`.

pub mod arith;
pub mod encoder;
pub mod errors;
pub mod filters;
pub mod jobs;
pub mod media;
pub mod options;
pub mod paths;
pub mod pipeline;
pub mod pipeline_laws;
pub mod plan;
pub mod plan_effects;
pub mod plan_laws;
pub mod session;
pub mod session_laws;
pub mod streams;
pub mod text;
pub mod theme;
pub mod timer;

pub use encoder::resolve_encoder;
pub use media::MediaInfo;
pub use options::{CompressOptions, Encoder, EncoderKind};
pub use plan::{AudioAction, EncodePlan};
pub use session::{compress_to_target, CompressOutcome, PassInfo};
