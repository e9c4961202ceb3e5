//! What probing a clip found out about it.

use vstd::prelude::*;

verus! {

/// The facts of a source clip that planning rests on.
#[derive(Debug)]
pub struct MediaInfo {
    pub width: i32,
    pub height: i32,
    /// Frame rate as a rational; a denominator below one counts as one.
    pub fps_num: i32,
    pub fps_den: i32,
    /// Length in microseconds, the unit of FFmpeg's own container clock.
    pub duration_us: u64,
    /// Zero or less where the container does not say.
    pub video_bitrate_bps: i64,
    /// Zero or less where the container does not say.
    pub audio_bitrate_bps: i64,
    pub has_audio: bool,
    pub audio_tracks: usize,
    /// FFmpeg's short name of the video codec, such as `h264`.
    pub video_codec: String,
}

impl Clone for MediaInfo {
    fn clone(&self) -> (r: Self)
        ensures
            r == *self,
    {
        MediaInfo {
            width: self.width,
            height: self.height,
            fps_num: self.fps_num,
            fps_den: self.fps_den,
            duration_us: self.duration_us,
            video_bitrate_bps: self.video_bitrate_bps,
            audio_bitrate_bps: self.audio_bitrate_bps,
            has_audio: self.has_audio,
            audio_tracks: self.audio_tracks,
            video_codec: self.video_codec.clone(),
        }
    }
}

/// A denominator as a rate uses it.
pub open spec fn rate_den(den: i32) -> int {
    if den >= 1 {
        den as int
    } else {
        1
    }
}

/// The denominator of a rate, at least one.
pub fn sound_den(den: i32) -> (r: i32)
    ensures
        r == rate_den(den),
        r >= 1,
{
    if den >= 1 {
        den
    } else {
        1
    }
}

impl MediaInfo {
    /// Frames per second, as numerator and positive denominator.
    pub fn fps(&self) -> (r: (i32, i32))
        ensures
            r.0 == self.fps_num,
            r.1 == rate_den(self.fps_den),
    {
        (self.fps_num, sound_den(self.fps_den))
    }
}

} // verus!
