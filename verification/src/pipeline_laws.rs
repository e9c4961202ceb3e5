//! What holds of every pass, however the codecs answer: nothing that was
//! decoded or encoded is lost, and the file is closed only once everything
//! before it has been drained.

use crate::pipeline;
use crate::pipeline::{Event, Lane, Reason, Setup, Source, Stage};
use crate::session;
use crate::streams;
use crate::streams::Route;
use vstd::prelude::*;

verus! {

/// The stage after a history of events.
pub open spec fn run(setup: Setup, events: Seq<Event>) -> Stage
    decreases events.len(),
{
    if events.len() == 0 {
        Stage::ReadPacket
    } else {
        pipeline::next_stage(setup, run(setup, events.drop_last()), events.last())
    }
}

/// How often, in a history, a step of a kind was taken.
pub open spec fn count(
    setup: Setup,
    events: Seq<Event>,
    kind: spec_fn(Stage, Event) -> bool,
) -> nat
    decreases events.len(),
{
    if events.len() == 0 {
        0
    } else {
        count(setup, events.drop_last(), kind) + if kind(
            run(setup, events.drop_last()),
            events.last(),
        ) {
            1nat
        } else {
            0nat
        }
    }
}

/// The step that does what a stage asks for.
pub open spec fn doing(stage: Stage) -> spec_fn(Stage, Event) -> bool {
    |s: Stage, e: Event| s == stage && e == Event::Ready
}

pub open spec fn frame_taken() -> spec_fn(Stage, Event) -> bool {
    |s: Stage, e: Event| s is ReceiveFrame && e == Event::Item
}

pub open spec fn frame_pushed() -> spec_fn(Stage, Event) -> bool {
    |s: Stage, e: Event| s is PushFrame && e == Event::Ready
}

pub open spec fn filtered_taken() -> spec_fn(Stage, Event) -> bool {
    |s: Stage, e: Event| s is PullFiltered && e == Event::Item
}

pub open spec fn filtered_sent() -> spec_fn(Stage, Event) -> bool {
    |s: Stage, e: Event| s is SendFiltered && e == Event::Ready
}

pub open spec fn packet_taken() -> spec_fn(Stage, Event) -> bool {
    |s: Stage, e: Event| s is ReceivePacket && e == Event::Item
}

pub open spec fn packet_written() -> spec_fn(Stage, Event) -> bool {
    |s: Stage, e: Event| s is WritePacket && e == Event::Ready
}

/// Nothing is lost between stages: when the input is read on, and when the file
/// is closed, every frame that a decoder gave has gone into a filter, every
/// frame that a filter gave has gone into an encoder, and every packet that an
/// encoder gave has been written.
pub proof fn law_nothing_lost(setup: Setup, events: Seq<Event>)
    requires
        ({
            let stage = run(setup, events);
            stage == Stage::ReadPacket || stage == Stage::WriteTrailer || stage == Stage::Done
        }),
    ensures
        count(setup, events, frame_taken()) == count(setup, events, frame_pushed()),
        count(setup, events, filtered_taken()) == count(setup, events, filtered_sent()),
        count(setup, events, packet_taken()) == count(setup, events, packet_written()),
{
    lemma_in_hand(setup, events);
}

/// What is in hand is what a stage is about to pass on.
proof fn lemma_in_hand(setup: Setup, events: Seq<Event>)
    requires
        !(run(setup, events) is Failed),
    ensures
        ({
            let stage = run(setup, events);
            &&& count(setup, events, frame_taken()) == count(setup, events, frame_pushed()) + (
            if stage is PushFrame {
                1nat
            } else {
                0nat
            })
            &&& count(setup, events, filtered_taken()) == count(setup, events, filtered_sent()) + (
            if stage is SendFiltered {
                1nat
            } else {
                0nat
            })
            &&& count(setup, events, packet_taken()) == count(setup, events, packet_written()) + (
            if stage is WritePacket {
                1nat
            } else {
                0nat
            })
        }),
    decreases events.len(),
{
    if events.len() > 0 {
        lemma_in_hand(setup, events.drop_last());
    }
}

/// How far along a stage is. Reading comes first; then the video is drained,
/// closed and flushed; then the audio; then the file is closed.
pub open spec fn phase(stage: Stage) -> int {
    match stage {
        Stage::ReadPacket => 0,
        Stage::CopyPacket { .. } => 0,
        Stage::SubmitPacket { .. } => 0,
        Stage::FlushDecoder { source } => drain_phase(source),
        Stage::ReceiveFrame { source, ending } => if ending {
            drain_phase(source)
        } else {
            0
        },
        Stage::PushFrame { source, ending } => if ending {
            drain_phase(source)
        } else {
            0
        },
        Stage::CloseBranch { source } => drain_phase(source),
        Stage::PullFiltered { lane, reason } => reason_phase(lane, reason),
        Stage::SendFiltered { lane, reason } => reason_phase(lane, reason),
        Stage::FlushEncoder { lane: Lane::Video } => 2,
        Stage::FlushEncoder { lane: Lane::Audio } => 5,
        Stage::ReceivePacket { lane, reason } => reason_phase(lane, reason),
        Stage::WritePacket { lane, reason } => reason_phase(lane, reason),
        Stage::WriteTrailer => 7,
        Stage::Done => 8,
        Stage::Failed => 9,
    }
}

pub open spec fn drain_phase(source: Source) -> int {
    match source {
        Source::Video => 1,
        Source::Audio { .. } => 4,
    }
}

pub open spec fn reason_phase(lane: Lane, reason: Reason) -> int {
    match reason {
        Reason::Frame { source, ending } => if ending {
            drain_phase(source)
        } else {
            0
        },
        Reason::Closed { source: Source::Video } => 2,
        Reason::Closed { source: Source::Audio { .. } } => 4,
        Reason::AllClosed => 5,
        Reason::Flushed => if lane == Lane::Video {
            3
        } else {
            6
        },
    }
}

/// How many branches of the mix are closed at a stage.
pub open spec fn closed_at(setup: Setup, stage: Stage) -> int {
    match stage {
        Stage::FlushDecoder { source } => closed_before(source),
        Stage::ReceiveFrame { source, ending } => if ending {
            closed_before(source)
        } else {
            0
        },
        Stage::PushFrame { source, ending } => if ending {
            closed_before(source)
        } else {
            0
        },
        Stage::CloseBranch { source } => closed_before(source),
        Stage::PullFiltered { lane, reason } => closed_for(setup, lane, reason),
        Stage::SendFiltered { lane, reason } => closed_for(setup, lane, reason),
        Stage::FlushEncoder { lane: Lane::Audio } => pipeline::mix_inputs(setup) as int,
        Stage::ReceivePacket { lane, reason } => closed_for(setup, lane, reason),
        Stage::WritePacket { lane, reason } => closed_for(setup, lane, reason),
        Stage::WriteTrailer => pipeline::mix_inputs(setup) as int,
        Stage::Done => pipeline::mix_inputs(setup) as int,
        _ => 0,
    }
}

pub open spec fn closed_before(source: Source) -> int {
    match source {
        Source::Video => 0,
        Source::Audio { place } => place as int,
    }
}

pub open spec fn closed_for(setup: Setup, lane: Lane, reason: Reason) -> int {
    match reason {
        Reason::Frame { source, ending } => if ending {
            closed_before(source)
        } else {
            0
        },
        Reason::Closed { source: Source::Video } => 0,
        Reason::Closed { source: Source::Audio { place } } => place + 1,
        Reason::AllClosed => pipeline::mix_inputs(setup) as int,
        Reason::Flushed => if lane == Lane::Video {
            0
        } else {
            pipeline::mix_inputs(setup) as int
        },
    }
}

/// The stages that a pass can be in.
pub open spec fn reachable(setup: Setup, stage: Stage) -> bool {
    &&& pipeline::stage_sound(setup, stage)
    &&& match stage {
        Stage::PullFiltered { lane, reason } => fits(setup, lane, reason) && !(reason is Flushed),
        Stage::SendFiltered { lane, reason } => fits(setup, lane, reason) && !(reason is Flushed),
        Stage::ReceivePacket { lane, reason } => fits(setup, lane, reason),
        Stage::WritePacket { lane, reason } => fits(setup, lane, reason),
        Stage::FlushEncoder { lane: Lane::Video } => setup.encode_video && setup.flush_video,
        Stage::FlushEncoder { lane: Lane::Audio } => setup.audio is Mix,
        _ => true,
    }
}

pub open spec fn fits(setup: Setup, lane: Lane, reason: Reason) -> bool {
    match reason {
        Reason::Frame { source, .. } => lane == pipeline::lane_of(source),
        Reason::Closed { source } => lane == pipeline::lane_of(source),
        Reason::AllClosed => lane == Lane::Audio && setup.audio is Mix,
        Reason::Flushed => if lane == Lane::Video {
            setup.encode_video && setup.flush_video
        } else {
            setup.audio is Mix
        },
    }
}

#[verifier::rlimit(60)]
proof fn lemma_step(setup: Setup, stage: Stage, event: Event)
    requires
        reachable(setup, stage),
        pipeline::mix_inputs(setup) <= usize::MAX,
    ensures
        reachable(setup, pipeline::next_stage(setup, stage, event)),
        phase(pipeline::next_stage(setup, stage, event)) >= phase(stage) || stage is Failed,
{
    if let Event::Packet { index } = event {
        if let Route::Mix { tracks, .. } = setup.audio {
            streams::lemma_place(tracks, index, 0);
        }
    }
    match stage {
        Stage::ReadPacket => {},
        Stage::CopyPacket { .. } => {},
        Stage::SubmitPacket { .. } => {},
        Stage::FlushDecoder { .. } => {},
        Stage::ReceiveFrame { .. } => {},
        Stage::PushFrame { .. } => {},
        Stage::CloseBranch { .. } => {},
        Stage::PullFiltered { reason, .. } => match reason {
            Reason::Frame { .. } => {},
            Reason::Closed { source: Source::Video } => {},
            Reason::Closed { .. } => {},
            Reason::AllClosed => {},
            Reason::Flushed => {},
        },
        Stage::SendFiltered { .. } => {},
        Stage::FlushEncoder { .. } => {},
        Stage::ReceivePacket { reason, .. } => match reason {
            Reason::Frame { .. } => {},
            Reason::Closed { .. } => {},
            Reason::AllClosed => {},
            Reason::Flushed => {},
        },
        _ => {},
    }
}

proof fn lemma_reachable(setup: Setup, events: Seq<Event>)
    requires
        pipeline::mix_inputs(setup) <= usize::MAX,
    ensures
        reachable(setup, run(setup, events)),
    decreases events.len(),
{
    if events.len() > 0 {
        lemma_reachable(setup, events.drop_last());
        lemma_step(setup, run(setup, events.drop_last()), events.last());
    }
}

/// Work only moves forward: once the input has ended nothing more is read, and
/// nothing that was drained is fed again.
pub proof fn law_only_forward(setup: Setup, events: Seq<Event>, event: Event)
    requires
        pipeline::mix_inputs(setup) <= usize::MAX,
    ensures
        phase(run(setup, events.push(event))) >= phase(run(setup, events)),
{
    lemma_reachable(setup, events);
    assert(events.push(event).drop_last() =~= events);
    lemma_step(setup, run(setup, events), event);
}

/// The file is closed once, after everything before it was drained: the video
/// branch and every branch of the mix closed exactly once, and each encoder
/// that holds anything back flushed exactly once.
pub proof fn law_all_drained_before_trailer(setup: Setup, events: Seq<Event>)
    requires
        pipeline::mix_inputs(setup) <= usize::MAX,
        run(setup, events) == Stage::WriteTrailer || run(setup, events) == Stage::Done,
    ensures
        count(setup, events, doing(Stage::CloseBranch { source: Source::Video }))
            == if setup.encode_video {
            1nat
        } else {
            0nat
        },
        count(setup, events, doing(Stage::FlushEncoder { lane: Lane::Video }))
            == if setup.encode_video && setup.flush_video {
            1nat
        } else {
            0nat
        },
        forall|place: usize|
            place < pipeline::mix_inputs(setup) ==> count(
                setup,
                events,
                #[trigger] doing(Stage::CloseBranch { source: Source::Audio { place } }),
            ) == 1,
        count(setup, events, doing(Stage::FlushEncoder { lane: Lane::Audio }))
            == if setup.audio is Mix {
            1nat
        } else {
            0nat
        },
        count(setup, events, doing(Stage::WriteTrailer)) == if run(setup, events) == Stage::Done {
            1nat
        } else {
            0nat
        },
{
    lemma_drained(setup, events);
    assert forall|place: usize| place < pipeline::mix_inputs(setup) implies count(
        setup,
        events,
        #[trigger] doing(Stage::CloseBranch { source: Source::Audio { place } }),
    ) == 1 by {
        lemma_branches_closed(setup, events, place);
    }
}

/// Every branch of the mix is closed before its encoder is told that there is
/// no more; were one left open, the mix would keep waiting on it.
pub proof fn law_mix_closed_before_flush(setup: Setup, events: Seq<Event>, place: usize)
    requires
        pipeline::mix_inputs(setup) <= usize::MAX,
        run(setup, events) == (Stage::FlushEncoder { lane: Lane::Audio }),
        place < pipeline::mix_inputs(setup),
    ensures
        count(setup, events, doing(Stage::CloseBranch { source: Source::Audio { place } })) == 1,
{
    lemma_branches_closed(setup, events, place);
}

/// Closing a branch of the mix is the one step that adds to the closed ones.
#[verifier::rlimit(60)]
proof fn lemma_closed_step(setup: Setup, stage: Stage, event: Event)
    requires
        reachable(setup, stage),
        pipeline::mix_inputs(setup) <= usize::MAX,
        !(pipeline::next_stage(setup, stage, event) is Failed),
    ensures
        closed_at(setup, pipeline::next_stage(setup, stage, event)) == closed_at(setup, stage) + (
        if stage matches Stage::CloseBranch { source: Source::Audio { .. } } && event
            == Event::Ready {
            1int
        } else {
            0int
        }),
{
    match stage {
        Stage::ReadPacket => {},
        Stage::PullFiltered { reason, .. } => match reason {
            Reason::Frame { .. } => {},
            Reason::Closed { source: Source::Video } => {},
            Reason::Closed { .. } => {},
            Reason::AllClosed => {},
            Reason::Flushed => {},
        },
        Stage::ReceivePacket { reason, .. } => match reason {
            Reason::Frame { .. } => {},
            Reason::Closed { .. } => {},
            Reason::AllClosed => {},
            Reason::Flushed => {},
        },
        _ => {},
    }
}

proof fn lemma_branches_closed(setup: Setup, events: Seq<Event>, place: usize)
    requires
        pipeline::mix_inputs(setup) <= usize::MAX,
        !(run(setup, events) is Failed),
    ensures
        count(setup, events, doing(Stage::CloseBranch { source: Source::Audio { place } }))
            == if place < closed_at(setup, run(setup, events)) {
            1nat
        } else {
            0nat
        },
    decreases events.len(),
{
    if events.len() > 0 {
        lemma_branches_closed(setup, events.drop_last(), place);
        lemma_reachable(setup, events.drop_last());
        lemma_closed_step(setup, run(setup, events.drop_last()), events.last());
    }
}

proof fn lemma_drained(setup: Setup, events: Seq<Event>)
    requires
        pipeline::mix_inputs(setup) <= usize::MAX,
        !(run(setup, events) is Failed),
    ensures
        count(setup, events, doing(Stage::CloseBranch { source: Source::Video }))
            == if setup.encode_video && phase(run(setup, events)) >= 2 {
            1nat
        } else {
            0nat
        },
        count(setup, events, doing(Stage::FlushEncoder { lane: Lane::Video }))
            == if setup.encode_video && setup.flush_video && phase(run(setup, events)) >= 3 {
            1nat
        } else {
            0nat
        },
        count(setup, events, doing(Stage::FlushEncoder { lane: Lane::Audio }))
            == if setup.audio is Mix && phase(run(setup, events)) >= 6 {
            1nat
        } else {
            0nat
        },
        count(setup, events, doing(Stage::WriteTrailer)) == if phase(run(setup, events)) >= 8 {
            1nat
        } else {
            0nat
        },
    decreases events.len(),
{
    if events.len() > 0 {
        lemma_drained(setup, events.drop_last());
        lemma_reachable(setup, events.drop_last());
        lemma_step(setup, run(setup, events.drop_last()), events.last());
    }
}

/// A failure is never forgotten.
pub proof fn law_failure_is_final(setup: Setup, event: Event)
    ensures
        pipeline::next_stage(setup, Stage::Failed, event) == Stage::Failed,
{
}

/// The progress that reading packets reports, in order: each has a stream and a
/// timestamp.
pub open spec fn reports(
    setup: Setup,
    packets: Seq<(usize, Option<i64>)>,
    time_base: (i32, i32),
    duration_us: u64,
) -> Seq<u32>
    decreases packets.len(),
{
    if packets.len() == 0 {
        Seq::empty()
    } else {
        let before = reports(setup, packets.drop_last(), time_base, duration_us);
        let (index, pts) = packets.last();
        match pipeline::progress_of(setup, index, pts, time_base, duration_us) {
            Some(f) => before.push(f),
            None => before,
        }
    }
}

/// Only the video reports progress: a packet of another stream, or one without a
/// timestamp, adds nothing, and nor does any packet where the video is copied.
/// Every other one adds how far it is through the clip.
pub proof fn law_only_video_reports(
    setup: Setup,
    packets: Seq<(usize, Option<i64>)>,
    index: usize,
    pts: Option<i64>,
    time_base: (i32, i32),
    duration_us: u64,
)
    ensures
        reports(setup, packets.push((index, pts)), time_base, duration_us) == if setup.encode_video
            && index == setup.video_in && pts is Some && duration_us > 0 {
            reports(setup, packets, time_base, duration_us).push(
                session::fraction_of(pts->0 as int, time_base, duration_us as int) as u32,
            )
        } else {
            reports(setup, packets, time_base, duration_us)
        },
{
    assert(packets.push((index, pts)).drop_last() =~= packets);
}

/// A packet goes where its stream belongs: one of the video to the video's
/// decoder, or across as it is where the video is copied; one of the audio
/// stream that is copied across as it is; one of a mixed stream to the decoder
/// at that stream's place in the mix; and any other is passed over.
pub proof fn law_packets_go_where_they_belong(setup: Setup, index: usize)
    requires
        pipeline::mix_inputs(setup) <= usize::MAX,
    ensures
        ({
            let next = pipeline::next_stage(setup, Stage::ReadPacket, Event::Packet { index });
            &&& index == setup.video_in && setup.encode_video ==> next == (Stage::SubmitPacket {
                source: Source::Video,
            })
            &&& index == setup.video_in && !setup.encode_video ==> next == (Stage::CopyPacket {
                lane: Lane::Video,
            })
            &&& index != setup.video_in ==> match setup.audio {
                Route::Silent => next == Stage::ReadPacket,
                Route::Copy { from } => {
                    &&& index == from ==> next == (Stage::CopyPacket { lane: Lane::Audio })
                    &&& index != from ==> next == Stage::ReadPacket
                },
                Route::Mix { tracks, .. } => {
                    &&& tracks.contains(index) ==> {
                        &&& next matches Stage::SubmitPacket { source: Source::Audio { place } }
                        &&& place < tracks.len() && tracks[place as int] == index
                    }
                    &&& !tracks.contains(index) ==> next == Stage::ReadPacket
                },
            }
        }),
{
    if let Route::Mix { tracks, .. } = setup.audio {
        streams::law_each_track_has_its_place(tracks, index);
    }
}

/// At the end of the input the video that is encoded is drained first. Then, or
/// at once where it is copied, the mix is, from its first branch on; and where
/// there is no mix the file is closed.
pub proof fn law_end_of_input(setup: Setup)
    ensures
        ({
            let next = pipeline::next_stage(setup, Stage::ReadPacket, Event::EndOfInput);
            &&& setup.encode_video ==> next == (Stage::FlushDecoder { source: Source::Video })
            &&& !setup.encode_video ==> next == after_video(setup)
        }),
        pipeline::next_stage(
            setup,
            Stage::ReceivePacket { lane: Lane::Video, reason: Reason::Flushed },
            Event::Drained,
        ) == after_video(setup),
        pipeline::next_stage(
            setup,
            Stage::PullFiltered {
                lane: Lane::Video,
                reason: Reason::Closed { source: Source::Video },
            },
            Event::Drained,
        ) == if setup.flush_video {
            Stage::FlushEncoder { lane: Lane::Video }
        } else {
            after_video(setup)
        },
{
}

/// What follows the video: the first branch of a mix, or the end of the file.
pub open spec fn after_video(setup: Setup) -> Stage {
    match setup.audio {
        Route::Mix { tracks, .. } => if tracks.len() > 0 {
            Stage::FlushDecoder { source: Source::Audio { place: 0 } }
        } else {
            Stage::PullFiltered { lane: Lane::Audio, reason: Reason::AllClosed }
        },
        _ => Stage::WriteTrailer,
    }
}

/// A decoder that was told that there is no more is emptied before its branch is
/// closed, each branch of a mix before the next, and the mix and its encoder
/// after the last; then the file is closed, and the pass is done.
pub proof fn law_draining_goes_on_in_order(setup: Setup, source: Source, place: usize)
    requires
        setup.audio is Mix,
        place < setup.audio->tracks.len() <= usize::MAX,
    ensures
        pipeline::next_stage(setup, Stage::FlushDecoder { source }, Event::Ready) == (
        Stage::ReceiveFrame { source, ending: true }),
        pipeline::next_stage(setup, Stage::ReceiveFrame { source, ending: true }, Event::Drained)
            == (Stage::CloseBranch { source }),
        pipeline::next_stage(setup, Stage::CloseBranch { source }, Event::Ready) == (
        Stage::PullFiltered {
            lane: if source == Source::Video {
                Lane::Video
            } else {
                Lane::Audio
            },
            reason: Reason::Closed { source },
        }),
        ({
            let next = pipeline::next_stage(
                setup,
                Stage::PullFiltered {
                    lane: Lane::Audio,
                    reason: Reason::Closed { source: Source::Audio { place } },
                },
                Event::Drained,
            );
            &&& place + 1 < setup.audio->tracks.len() ==> next == (Stage::FlushDecoder {
                source: Source::Audio { place: (place + 1) as usize },
            })
            &&& place + 1 == setup.audio->tracks.len() ==> next == (Stage::PullFiltered {
                lane: Lane::Audio,
                reason: Reason::AllClosed,
            })
        }),
        pipeline::next_stage(
            setup,
            Stage::PullFiltered { lane: Lane::Audio, reason: Reason::AllClosed },
            Event::Drained,
        ) == (Stage::FlushEncoder { lane: Lane::Audio }),
        pipeline::next_stage(
            setup,
            Stage::ReceivePacket { lane: Lane::Audio, reason: Reason::Flushed },
            Event::Drained,
        ) == Stage::WriteTrailer,
        pipeline::next_stage(setup, Stage::WriteTrailer, Event::Ready) == Stage::Done,
{
}

/// What was taken is passed on at once, and more is asked for until there is no
/// more: a decoder's frame to the filter of its own lane, a filter's to that
/// lane's encoder, an encoder's packet to the file. With all of it passed on,
/// the same decoder is asked again, and with that empty the input.
pub proof fn law_what_is_taken_is_passed_on(
    setup: Setup,
    source: Source,
    ending: bool,
    lane: Lane,
    reason: Reason,
)
    ensures
        pipeline::next_stage(setup, Stage::SubmitPacket { source }, Event::Ready) == (
        Stage::ReceiveFrame { source, ending: false }),
        pipeline::next_stage(setup, Stage::CopyPacket { lane }, Event::Ready) == Stage::ReadPacket,
        pipeline::next_stage(setup, Stage::ReceiveFrame { source, ending }, Event::Item) == (
        Stage::PushFrame { source, ending }),
        pipeline::next_stage(setup, Stage::ReceiveFrame { source, ending: false }, Event::Drained)
            == Stage::ReadPacket,
        pipeline::next_stage(setup, Stage::PushFrame { source, ending }, Event::Ready) == (
        Stage::PullFiltered {
            lane: if source == Source::Video {
                Lane::Video
            } else {
                Lane::Audio
            },
            reason: Reason::Frame { source, ending },
        }),
        pipeline::next_stage(setup, Stage::PullFiltered { lane, reason }, Event::Item) == (
        Stage::SendFiltered { lane, reason }),
        pipeline::next_stage(setup, Stage::SendFiltered { lane, reason }, Event::Ready) == (
        Stage::ReceivePacket { lane, reason }),
        pipeline::next_stage(setup, Stage::ReceivePacket { lane, reason }, Event::Item) == (
        Stage::WritePacket { lane, reason }),
        pipeline::next_stage(setup, Stage::WritePacket { lane, reason }, Event::Ready) == (
        Stage::ReceivePacket { lane, reason }),
        !(reason is Flushed) ==> pipeline::next_stage(
            setup,
            Stage::ReceivePacket { lane, reason },
            Event::Drained,
        ) == (Stage::PullFiltered { lane, reason }),
        pipeline::next_stage(
            setup,
            Stage::PullFiltered { lane, reason: Reason::Frame { source, ending } },
            Event::Drained,
        ) == (Stage::ReceiveFrame { source, ending }),
        pipeline::next_stage(setup, Stage::FlushEncoder { lane }, Event::Ready) == (
        Stage::ReceivePacket { lane, reason: Reason::Flushed }),
{
}

/// An answer to what a stage asks.
pub open spec fn answers(stage: Stage, event: Event) -> bool {
    match stage {
        Stage::ReadPacket => event is Packet || event is EndOfInput,
        Stage::ReceiveFrame { .. } => event is Item || event is Drained,
        Stage::PullFiltered { .. } => event is Item || event is Drained,
        Stage::ReceivePacket { .. } => event is Item || event is Drained,
        Stage::Done => true,
        Stage::Failed => false,
        _ => event is Ready,
    }
}

/// A pass fails exactly when something went wrong or was out of step: as long as
/// every stage is answered it goes on, and it stays done once it is.
pub proof fn law_only_wrong_answers_fail(setup: Setup, events: Seq<Event>, event: Event)
    requires
        pipeline::mix_inputs(setup) <= usize::MAX,
    ensures
        run(setup, events.push(event)) is Failed <==> !answers(run(setup, events), event),
        run(setup, events) is Done ==> run(setup, events.push(event)) is Done,
{
    lemma_reachable(setup, events);
    assert(events.push(event).drop_last() =~= events);
    let stage = run(setup, events);
    match stage {
        Stage::PullFiltered { reason, .. } => match reason {
            Reason::Frame { .. } => {},
            Reason::Closed { source: Source::Video } => {},
            Reason::Closed { .. } => {},
            Reason::AllClosed => {},
            Reason::Flushed => {},
        },
        _ => {},
    }
}

} // verus!
