//! What to compress to, and with which encoder.

use vstd::prelude::*;

verus! {

/// Parts per billion in a whole: the unit of progress.
pub const WHOLE_PPB: u32 = 1_000_000_000;

/// Which H.264 encoder to use. `Auto` prefers NVENC, then libx264, then
/// libopenh264, whichever the FFmpeg build provides and the machine can open.
#[derive(Clone, Copy, Debug, PartialEq, Eq, Structural)]
pub enum Encoder {
    Auto,
    Nvenc,
    X264,
    OpenH264,
}

impl Default for Encoder {
    fn default() -> (r: Self)
        ensures
            r == Encoder::Auto,
    {
        Encoder::Auto
    }
}

/// A concrete H.264 encoder.
#[derive(Clone, Copy, Debug, PartialEq, Eq, Structural)]
pub enum EncoderKind {
    Nvenc,
    X264,
    OpenH264,
}

#[derive(Clone, Copy, Debug, PartialEq, Eq, Structural)]
pub struct CompressOptions {
    /// Hard ceiling: the output must end up at or below this many bytes.
    pub max_bytes: u64,
    /// First-pass aim below the ceiling, in parts per million of it, leaving
    /// headroom so a correction pass is usually avoided.
    pub margin_ppm: u32,
    /// Most encode passes before giving up with the best effort so far.
    pub max_passes: u32,
    pub encoder: Encoder,
    /// Keep the source frame rate instead of halving it when bits are tight.
    pub keep_fps: bool,
    /// Keep the source resolution instead of scaling down when bits are tight.
    pub keep_resolution: bool,
    /// Keep the source audio (vs. drop it).
    pub include_audio: bool,
}

impl Default for CompressOptions {
    /// Discord's free tier: 10 MB, aimed at a little under, in at most three
    /// passes, with nothing held back and the audio kept.
    fn default() -> (r: Self)
        ensures
            r == (CompressOptions {
                max_bytes: 10_000_000,
                margin_ppm: 920_000,
                max_passes: 3,
                encoder: Encoder::Auto,
                keep_fps: false,
                keep_resolution: false,
                include_audio: true,
            }),
    {
        CompressOptions {
            max_bytes: 10_000_000,
            margin_ppm: 920_000,
            max_passes: 3,
            encoder: Encoder::Auto,
            keep_fps: false,
            keep_resolution: false,
            include_audio: true,
        }
    }
}

} // verus!
