//! The order of work in one pass: read, decode, filter, encode, write, and at
//! the end of the input drain every stage in turn before the file is closed.
//!
//! The codecs do the work elsewhere. A [`Pipeline`] says what is to be done
//! next, and is told what came of it.

use crate::session;
use crate::streams;
use crate::streams::{AudioRoute, Route};
use vstd::prelude::*;

verus! {

/// One of the two output streams.
#[derive(Clone, Copy, Debug, PartialEq, Eq, Structural)]
pub enum Lane {
    Video,
    Audio,
}

/// One decoder: that of the video, or that of one input of the audio mix.
#[derive(Clone, Copy, Debug, PartialEq, Eq, Structural)]
pub enum Source {
    Video,
    Audio { place: usize },
}

/// Why a lane's filter or encoder is being drained, and so what comes after.
#[derive(Clone, Copy, Debug, PartialEq, Eq, Structural)]
pub enum Reason {
    /// A frame was pushed in; more may wait in the decoder it came from.
    Frame { source: Source, ending: bool },
    /// A branch was closed.
    Closed { source: Source },
    /// Every branch of the mix is closed.
    AllClosed,
    /// The encoder was told that there is no more.
    Flushed,
}

/// What is to be done next.
#[derive(Clone, Copy, Debug, PartialEq, Eq, Structural)]
pub enum Stage {
    /// Read a packet of the input.
    ReadPacket,
    /// Write the packet that was read to a lane as it is.
    CopyPacket { lane: Lane },
    /// Hand the packet that was read to a decoder.
    SubmitPacket { source: Source },
    /// Tell a decoder that there is no more.
    FlushDecoder { source: Source },
    /// Take a frame from a decoder.
    ReceiveFrame { source: Source, ending: bool },
    /// Push the frame into its branch of the filter.
    PushFrame { source: Source, ending: bool },
    /// Close a branch of the filter.
    CloseBranch { source: Source },
    /// Take a frame out of a lane's filter.
    PullFiltered { lane: Lane, reason: Reason },
    /// Hand that frame to the lane's encoder.
    SendFiltered { lane: Lane, reason: Reason },
    /// Tell a lane's encoder that there is no more.
    FlushEncoder { lane: Lane },
    /// Take a packet from a lane's encoder.
    ReceivePacket { lane: Lane, reason: Reason },
    /// Write that packet.
    WritePacket { lane: Lane, reason: Reason },
    /// Close the file.
    WriteTrailer,
    Done,
    Failed,
}

/// What came of it.
#[derive(Clone, Copy, Debug, PartialEq, Eq, Structural)]
pub enum Event {
    /// A packet of this stream was read.
    Packet { index: usize },
    /// The input is at its end.
    EndOfInput,
    /// It was done.
    Ready,
    /// Something was taken.
    Item,
    /// There is nothing to take for now, or no more at all.
    Drained,
    /// It went wrong.
    Error,
}

/// How a pass is set up, as a model of [`Pipeline`].
#[verifier::ext_equal]
pub struct Setup {
    pub video_in: usize,
    /// The video is decoded and encoded, rather than copied.
    pub encode_video: bool,
    /// The video encoder holds frames back and has to be flushed.
    pub flush_video: bool,
    pub audio: Route,
}

/// The lane that a decoder's frames end up in.
pub open spec fn lane_of(source: Source) -> Lane {
    match source {
        Source::Video => Lane::Video,
        Source::Audio { .. } => Lane::Audio,
    }
}

/// What to do with a packet of a stream. Packets of other streams are passed
/// over.
pub open spec fn packet_stage(setup: Setup, index: usize) -> Stage {
    if index == setup.video_in {
        if setup.encode_video {
            Stage::SubmitPacket { source: Source::Video }
        } else {
            Stage::CopyPacket { lane: Lane::Video }
        }
    } else {
        match setup.audio {
            Route::Silent => Stage::ReadPacket,
            Route::Copy { from } => if index == from {
                Stage::CopyPacket { lane: Lane::Audio }
            } else {
                Stage::ReadPacket
            },
            Route::Mix { tracks, .. } => {
                let place = streams::place_of(tracks, index, 0);
                if place < tracks.len() {
                    Stage::SubmitPacket { source: Source::Audio { place: place as usize } }
                } else {
                    Stage::ReadPacket
                }
            },
        }
    }
}

/// How many inputs the audio mix has.
pub open spec fn mix_inputs(setup: Setup) -> nat {
    match setup.audio {
        Route::Mix { tracks, .. } => tracks.len(),
        _ => 0,
    }
}

/// Ending the audio, with the first `closed` branches of the mix closed.
pub open spec fn end_audio(setup: Setup, closed: int) -> Stage {
    match setup.audio {
        Route::Mix { tracks, .. } => if closed < tracks.len() {
            Stage::FlushDecoder { source: Source::Audio { place: closed as usize } }
        } else {
            Stage::PullFiltered { lane: Lane::Audio, reason: Reason::AllClosed }
        },
        _ => Stage::WriteTrailer,
    }
}

/// What comes first once the input is at its end.
pub open spec fn end_input(setup: Setup) -> Stage {
    if setup.encode_video {
        Stage::FlushDecoder { source: Source::Video }
    } else {
        end_audio(setup, 0)
    }
}

/// What comes once a lane's filter has nothing more to give.
pub open spec fn filter_drained(setup: Setup, lane: Lane, reason: Reason) -> Stage {
    match reason {
        Reason::Frame { source, ending } => Stage::ReceiveFrame { source, ending },
        Reason::Closed { source: Source::Video } => if setup.flush_video {
            Stage::FlushEncoder { lane: Lane::Video }
        } else {
            end_audio(setup, 0)
        },
        Reason::Closed { source: Source::Audio { place } } => end_audio(setup, place + 1),
        Reason::AllClosed => Stage::FlushEncoder { lane },
        Reason::Flushed => Stage::Failed,
    }
}

/// What comes once a lane's encoder has nothing more to give.
pub open spec fn encoder_drained(setup: Setup, lane: Lane, reason: Reason) -> Stage {
    match reason {
        Reason::Flushed => match lane {
            Lane::Video => end_audio(setup, 0),
            Lane::Audio => Stage::WriteTrailer,
        },
        _ => Stage::PullFiltered { lane, reason },
    }
}

/// What comes next. Anything that does not answer what was to be done is a
/// failure, and a failure stays one.
pub open spec fn next_stage(setup: Setup, stage: Stage, event: Event) -> Stage {
    match (stage, event) {
        (Stage::ReadPacket, Event::Packet { index }) => packet_stage(setup, index),
        (Stage::ReadPacket, Event::EndOfInput) => end_input(setup),
        (Stage::CopyPacket { .. }, Event::Ready) => Stage::ReadPacket,
        (Stage::SubmitPacket { source }, Event::Ready) => Stage::ReceiveFrame {
            source,
            ending: false,
        },
        (Stage::FlushDecoder { source }, Event::Ready) => Stage::ReceiveFrame {
            source,
            ending: true,
        },
        (Stage::ReceiveFrame { source, ending }, Event::Item) => Stage::PushFrame {
            source,
            ending,
        },
        (Stage::ReceiveFrame { source, ending }, Event::Drained) => if ending {
            Stage::CloseBranch { source }
        } else {
            Stage::ReadPacket
        },
        (Stage::PushFrame { source, ending }, Event::Ready) => Stage::PullFiltered {
            lane: lane_of(source),
            reason: Reason::Frame { source, ending },
        },
        (Stage::CloseBranch { source }, Event::Ready) => Stage::PullFiltered {
            lane: lane_of(source),
            reason: Reason::Closed { source },
        },
        (Stage::PullFiltered { lane, reason }, Event::Item) => Stage::SendFiltered {
            lane,
            reason,
        },
        (Stage::PullFiltered { lane, reason }, Event::Drained) => filter_drained(
            setup,
            lane,
            reason,
        ),
        (Stage::SendFiltered { lane, reason }, Event::Ready) => Stage::ReceivePacket {
            lane,
            reason,
        },
        (Stage::FlushEncoder { lane }, Event::Ready) => Stage::ReceivePacket {
            lane,
            reason: Reason::Flushed,
        },
        (Stage::ReceivePacket { lane, reason }, Event::Item) => Stage::WritePacket {
            lane,
            reason,
        },
        (Stage::ReceivePacket { lane, reason }, Event::Drained) => encoder_drained(
            setup,
            lane,
            reason,
        ),
        (Stage::WritePacket { lane, reason }, Event::Ready) => Stage::ReceivePacket {
            lane,
            reason,
        },
        (Stage::WriteTrailer, Event::Ready) => Stage::Done,
        (Stage::Done, _) => Stage::Done,
        _ => Stage::Failed,
    }
}

/// What reading a packet says of how far the pass has come, in parts per
/// billion. Only a packet of the video that is encoded says anything, and only
/// where it has a timestamp and the clip a length.
pub open spec fn progress_of(
    setup: Setup,
    index: usize,
    pts: Option<i64>,
    time_base: (i32, i32),
    duration_us: u64,
) -> Option<u32> {
    match pts {
        Some(p) if setup.encode_video && index == setup.video_in && duration_us > 0 => Some(
            session::fraction_of(p as int, time_base, duration_us as int) as u32,
        ),
        _ => None,
    }
}

/// One pass in progress.
#[derive(Debug)]
pub struct Pipeline {
    pub video_in: usize,
    pub encode_video: bool,
    pub flush_video: bool,
    pub audio: AudioRoute,
    pub stage: Stage,
}

impl Pipeline {
    /// How this pass is set up.
    pub open spec fn setup(self) -> Setup {
        Setup {
            video_in: self.video_in,
            encode_video: self.encode_video,
            flush_video: self.flush_video,
            audio: self.audio@,
        }
    }

    /// A place in the mix that the stage speaks of is one that there is.
    pub open spec fn sound(self) -> bool {
        stage_sound(self.setup(), self.stage)
    }

    /// A pass that decodes and encodes the video. `flush_video` says that the
    /// encoder holds frames back, and so has to be told when there are no more.
    pub fn encoding(video_in: usize, flush_video: bool, audio: AudioRoute) -> (r: Pipeline)
        ensures
            r.setup() == (Setup { video_in, encode_video: true, flush_video, audio: audio@ }),
            r.stage == Stage::ReadPacket,
            r.sound(),
    {
        Pipeline { video_in, encode_video: true, flush_video, audio, stage: Stage::ReadPacket }
    }

    /// A pass that copies the video.
    pub fn copying(video_in: usize, audio: AudioRoute) -> (r: Pipeline)
        ensures
            r.setup() == (Setup {
                video_in,
                encode_video: false,
                flush_video: false,
                audio: audio@,
            }),
            r.stage == Stage::ReadPacket,
            r.sound(),
    {
        Pipeline {
            video_in,
            encode_video: false,
            flush_video: false,
            audio,
            stage: Stage::ReadPacket,
        }
    }

    fn on_packet(&self, index: usize) -> (r: Stage)
        ensures
            r == packet_stage(self.setup(), index),
    {
        if index == self.video_in {
            return if self.encode_video {
                Stage::SubmitPacket { source: Source::Video }
            } else {
                Stage::CopyPacket { lane: Lane::Video }
            };
        }
        match &self.audio {
            AudioRoute::Silent => Stage::ReadPacket,
            AudioRoute::Copy { from } => if index == *from {
                Stage::CopyPacket { lane: Lane::Audio }
            } else {
                Stage::ReadPacket
            },
            AudioRoute::Mix { tracks, .. } => match streams::input_place(tracks, index) {
                Some(place) => Stage::SubmitPacket { source: Source::Audio { place } },
                None => Stage::ReadPacket,
            },
        }
    }

    fn finish_audio(&self, closed: usize) -> (r: Stage)
        ensures
            r == end_audio(self.setup(), closed as int),
    {
        match &self.audio {
            AudioRoute::Mix { tracks, .. } => if closed < tracks.len() {
                Stage::FlushDecoder { source: Source::Audio { place: closed } }
            } else {
                Stage::PullFiltered { lane: Lane::Audio, reason: Reason::AllClosed }
            },
            _ => Stage::WriteTrailer,
        }
    }

    fn close_next(&self, place: usize) -> (r: Stage)
        ensures
            r == end_audio(self.setup(), place + 1),
    {
        match &self.audio {
            AudioRoute::Mix { tracks, .. } => if place < tracks.len() {
                self.finish_audio(place + 1)
            } else {
                Stage::PullFiltered { lane: Lane::Audio, reason: Reason::AllClosed }
            },
            _ => Stage::WriteTrailer,
        }
    }

    fn after_filter(&self, lane: Lane, reason: Reason) -> (r: Stage)
        ensures
            r == filter_drained(self.setup(), lane, reason),
    {
        match reason {
            Reason::Frame { source, ending } => Stage::ReceiveFrame { source, ending },
            Reason::Closed { source } => match source {
                Source::Video => if self.flush_video {
                    Stage::FlushEncoder { lane: Lane::Video }
                } else {
                    self.finish_audio(0)
                },
                Source::Audio { place } => self.close_next(place),
            },
            Reason::AllClosed => Stage::FlushEncoder { lane },
            Reason::Flushed => Stage::Failed,
        }
    }

    proof fn lemma_mix_fits(&self)
        ensures
            mix_inputs(self.setup()) <= usize::MAX,
    {
        match &self.audio {
            AudioRoute::Mix { tracks, .. } => {
                assert(tracks.len() <= usize::MAX);
            },
            _ => {},
        }
    }

    fn after_encoder(&self, lane: Lane, reason: Reason) -> (r: Stage)
        ensures
            r == encoder_drained(self.setup(), lane, reason),
    {
        match reason {
            Reason::Flushed => match lane {
                Lane::Video => self.finish_audio(0),
                Lane::Audio => Stage::WriteTrailer,
            },
            _ => Stage::PullFiltered { lane, reason },
        }
    }

    /// How far the pass has come, from a packet that was read: its stream, its
    /// timestamp and the unit of that. `None` where the packet says nothing of
    /// it.
    pub fn progress(
        &self,
        index: usize,
        pts: Option<i64>,
        time_base: (i32, i32),
        duration_us: u64,
    ) -> (r: Option<u32>)
        ensures
            r == progress_of(self.setup(), index, pts, time_base, duration_us),
    {
        if self.encode_video && index == self.video_in {
            session::pass_fraction(pts, time_base, duration_us)
        } else {
            None
        }
    }

    /// Take note of what came of the current stage, and move to the next.
    pub fn advance(&mut self, event: Event)
        ensures
            final(self).setup() == old(self).setup(),
            final(self).stage == next_stage(old(self).setup(), old(self).stage, event),
            old(self).sound() ==> final(self).sound(),
    {
        let next = match (self.stage, event) {
            (Stage::ReadPacket, Event::Packet { index }) => self.on_packet(index),
            (Stage::ReadPacket, Event::EndOfInput) => if self.encode_video {
                Stage::FlushDecoder { source: Source::Video }
            } else {
                self.finish_audio(0)
            },
            (Stage::CopyPacket { .. }, Event::Ready) => Stage::ReadPacket,
            (Stage::SubmitPacket { source }, Event::Ready) => Stage::ReceiveFrame {
                source,
                ending: false,
            },
            (Stage::FlushDecoder { source }, Event::Ready) => Stage::ReceiveFrame {
                source,
                ending: true,
            },
            (Stage::ReceiveFrame { source, ending }, Event::Item) => Stage::PushFrame {
                source,
                ending,
            },
            (Stage::ReceiveFrame { source, ending }, Event::Drained) => if ending {
                Stage::CloseBranch { source }
            } else {
                Stage::ReadPacket
            },
            (Stage::PushFrame { source, ending }, Event::Ready) => Stage::PullFiltered {
                lane: lane(source),
                reason: Reason::Frame { source, ending },
            },
            (Stage::CloseBranch { source }, Event::Ready) => Stage::PullFiltered {
                lane: lane(source),
                reason: Reason::Closed { source },
            },
            (Stage::PullFiltered { lane, reason }, Event::Item) => Stage::SendFiltered {
                lane,
                reason,
            },
            (Stage::PullFiltered { lane, reason }, Event::Drained) => self.after_filter(
                lane,
                reason,
            ),
            (Stage::SendFiltered { lane, reason }, Event::Ready) => Stage::ReceivePacket {
                lane,
                reason,
            },
            (Stage::FlushEncoder { lane }, Event::Ready) => Stage::ReceivePacket {
                lane,
                reason: Reason::Flushed,
            },
            (Stage::ReceivePacket { lane, reason }, Event::Item) => Stage::WritePacket {
                lane,
                reason,
            },
            (Stage::ReceivePacket { lane, reason }, Event::Drained) => self.after_encoder(
                lane,
                reason,
            ),
            (Stage::WritePacket { lane, reason }, Event::Ready) => Stage::ReceivePacket {
                lane,
                reason,
            },
            (Stage::WriteTrailer, Event::Ready) => Stage::Done,
            (Stage::Done, _) => Stage::Done,
            _ => Stage::Failed,
        };
        proof {
            self.lemma_mix_fits();
            if self.sound() {
                lemma_next_is_sound(self.setup(), self.stage, event);
            }
        }
        self.stage = next;
    }
}

fn lane(source: Source) -> (r: Lane)
    ensures
        r == lane_of(source),
{
    match source {
        Source::Video => Lane::Video,
        Source::Audio { .. } => Lane::Audio,
    }
}

/// A decoder that there is.
pub open spec fn source_sound(setup: Setup, source: Source) -> bool {
    match source {
        Source::Video => setup.encode_video,
        Source::Audio { place } => place < mix_inputs(setup),
    }
}

pub open spec fn reason_sound(setup: Setup, reason: Reason) -> bool {
    match reason {
        Reason::Frame { source, .. } => source_sound(setup, source),
        Reason::Closed { source } => source_sound(setup, source),
        _ => true,
    }
}

/// A stage that only speaks of decoders that there are.
pub open spec fn stage_sound(setup: Setup, stage: Stage) -> bool {
    match stage {
        Stage::SubmitPacket { source } => source_sound(setup, source),
        Stage::FlushDecoder { source } => source_sound(setup, source),
        Stage::ReceiveFrame { source, .. } => source_sound(setup, source),
        Stage::PushFrame { source, .. } => source_sound(setup, source),
        Stage::CloseBranch { source } => source_sound(setup, source),
        Stage::PullFiltered { reason, .. } => reason_sound(setup, reason),
        Stage::SendFiltered { reason, .. } => reason_sound(setup, reason),
        Stage::ReceivePacket { reason, .. } => reason_sound(setup, reason),
        Stage::WritePacket { reason, .. } => reason_sound(setup, reason),
        _ => true,
    }
}

proof fn lemma_next_is_sound(setup: Setup, stage: Stage, event: Event)
    requires
        stage_sound(setup, stage),
        mix_inputs(setup) <= usize::MAX,
    ensures
        stage_sound(setup, next_stage(setup, stage, event)),
{
    if let Event::Packet { index } = event {
        if let Route::Mix { tracks, .. } = setup.audio {
            streams::lemma_place(tracks, index, 0);
        }
    }
}

} // verus!
