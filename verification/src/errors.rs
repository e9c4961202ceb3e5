//! What can go wrong before any frame is touched.

use crate::encoder;
use crate::options::EncoderKind;
use vstd::prelude::*;

verus! {

#[derive(Clone, Copy, Debug, PartialEq, Eq, Structural)]
pub enum EngineError {
    /// The input has no video stream to encode.
    NoVideoStream,
    /// A mix was asked for and there is nothing to mix.
    NoAudioTracks,
    /// An encoder asked for by name is not in the build.
    EncoderMissing { wanted: EncoderKind },
    /// No candidate encoder works on this machine.
    NoUsableEncoder,
}

/// An error in words.
pub open spec fn error_text(e: EngineError) -> Seq<char> {
    match e {
        EngineError::NoVideoStream => "input has no video stream"@,
        EngineError::NoAudioTracks => "no audio tracks to encode"@,
        EngineError::EncoderMissing { wanted } => "encoder \""@ + encoder::encoder_name(wanted)
            + "\" is not present in this FFmpeg build"@,
        EngineError::NoUsableEncoder =>
            "no usable H.264 encoder on this machine. Tried h264_nvenc (needs an NVIDIA GPU with a recent driver), libx264, and libopenh264."@,
    }
}

impl EngineError {
    /// This error in words.
    pub fn message(&self) -> (r: String)
        ensures
            r@ == error_text(*self),
    {
        match self {
            EngineError::NoVideoStream => "input has no video stream".to_owned(),
            EngineError::NoAudioTracks => "no audio tracks to encode".to_owned(),
            EngineError::EncoderMissing { wanted } => {
                let mut s = "encoder \"".to_owned();
                s.append(wanted.name());
                s.append("\" is not present in this FFmpeg build");
                s
            },
            EngineError::NoUsableEncoder =>
                "no usable H.264 encoder on this machine. Tried h264_nvenc (needs an NVIDIA GPU with a recent driver), libx264, and libopenh264.".to_owned(),
        }
    }
}

/// Each error says what is missing, by name where it has one.
pub proof fn law_errors_say_what_is_missing(e: EngineError)
    ensures
        e == EngineError::NoVideoStream ==> error_text(e) == "input has no video stream"@,
        e == EngineError::NoAudioTracks ==> error_text(e) == "no audio tracks to encode"@,
        e matches EngineError::EncoderMissing { wanted } ==> error_text(e) == "encoder \""@ + (
        match wanted {
            EncoderKind::Nvenc => "h264_nvenc"@,
            EncoderKind::X264 => "libx264"@,
            EncoderKind::OpenH264 => "libopenh264"@,
        }) + "\" is not present in this FFmpeg build"@,
        e == EngineError::NoUsableEncoder ==> error_text(e)
            == "no usable H.264 encoder on this machine. Tried h264_nvenc (needs an NVIDIA GPU with a recent driver), libx264, and libopenh264."@,
{
}

} // verus!
