//! Which streams of an input are read, and what becomes of each.

use crate::arith;
use crate::encoder;
use crate::encoder::VideoSettings;
use crate::errors::EngineError;
use crate::filters;
use crate::options::EncoderKind;
use crate::plan::{AudioAction, EncodePlan};
use vstd::prelude::*;

verus! {

/// What a container's stream carries.
#[derive(Clone, Copy, Debug, PartialEq, Eq, Structural)]
pub enum StreamKind {
    Video,
    Audio,
    Other,
}

/// The first video stream from `from` on, or how many streams there are.
pub open spec fn first_video(streams: Seq<StreamKind>, from: int) -> int
    decreases streams.len() - from,
{
    if from < 0 || from >= streams.len() || streams[from] == StreamKind::Video {
        from
    } else {
        first_video(streams, from + 1)
    }
}

/// The audio streams among the first `n`, in order. Every one counts, not just
/// the first: a capture that keeps game sound and microphone apart carries two,
/// and dropping one loses half the sound.
pub open spec fn audio_streams(streams: Seq<StreamKind>, n: int) -> Seq<usize>
    decreases n,
{
    if n <= 0 {
        Seq::empty()
    } else if streams[n - 1] == StreamKind::Audio {
        audio_streams(streams, n - 1).push((n - 1) as usize)
    } else {
        audio_streams(streams, n - 1)
    }
}

/// What becomes of the audio streams, as a model of [`AudioRoute`].
#[verifier::ext_equal]
pub enum Route {
    Silent,
    Copy { from: usize },
    Mix { tracks: Seq<usize>, bps: i64 },
}

/// What becomes of the audio streams.
#[derive(Debug)]
pub enum AudioRoute {
    /// None is written.
    Silent,
    /// This one is copied across.
    Copy { from: usize },
    /// These are decoded, mixed where there are several, and encoded to AAC.
    Mix { tracks: Vec<usize>, bps: i64 },
}

impl View for AudioRoute {
    type V = Route;

    open spec fn view(&self) -> Route {
        match self {
            AudioRoute::Silent => Route::Silent,
            AudioRoute::Copy { from } => Route::Copy { from: *from },
            AudioRoute::Mix { tracks, bps } => Route::Mix { tracks: tracks@, bps: *bps },
        }
    }
}

/// Where the audio goes when the video is encoded.
pub open spec fn encode_route(audio: AudioAction, tracks: Seq<usize>) -> Route {
    match audio {
        AudioAction::Drop => Route::Silent,
        AudioAction::Copy => if tracks.len() == 0 {
            Route::Silent
        } else {
            Route::Copy { from: tracks[0] }
        },
        AudioAction::Reencode { bps } => if tracks.len() == 0 {
            Route::Silent
        } else {
            Route::Mix { tracks, bps }
        },
    }
}

/// Where the audio goes when the video is copied. A single track is copied too.
/// Several have to be mixed, and mixing means encoding even though the picture
/// is untouched; without a rate to mix at, the first is kept rather than one
/// invented.
pub open spec fn remux_route(tracks: Seq<usize>, mix_bps: Option<i64>) -> Route {
    if tracks.len() == 0 {
        Route::Silent
    } else if tracks.len() == 1 {
        Route::Copy { from: tracks[0] }
    } else {
        match mix_bps {
            Some(bps) => Route::Mix { tracks, bps },
            None => Route::Copy { from: tracks[0] },
        }
    }
}

fn find_video(streams: &Vec<StreamKind>) -> (r: Option<usize>)
    ensures
        match r {
            Some(i) => i == first_video(streams@, 0) && i < streams.len(),
            None => first_video(streams@, 0) == streams.len(),
        },
{
    let mut i: usize = 0;
    while i < streams.len()
        invariant
            i <= streams.len(),
            first_video(streams@, i as int) == first_video(streams@, 0),
        decreases streams.len() - i,
    {
        if streams[i] == StreamKind::Video {
            return Some(i);
        }
        i = i + 1;
    }
    None
}

fn find_audio(streams: &Vec<StreamKind>) -> (r: Vec<usize>)
    ensures
        r@ == audio_streams(streams@, streams.len() as int),
{
    let mut found: Vec<usize> = Vec::new();
    let mut i: usize = 0;
    while i < streams.len()
        invariant
            i <= streams.len(),
            found@ == audio_streams(streams@, i as int),
        decreases streams.len() - i,
    {
        if streams[i] == StreamKind::Audio {
            found.push(i);
        }
        i = i + 1;
    }
    found
}

/// Everything one encode pass needs to know before it starts.
#[derive(Debug)]
pub struct TranscodeJob {
    pub video_in: usize,
    pub settings: VideoSettings,
    /// The video filter chain.
    pub filter: String,
    pub audio: AudioRoute,
}

/// Set up one encode pass: the first video stream is decoded, filtered and
/// encoded to the plan, and the audio streams go where the plan says.
pub fn transcode(streams: &Vec<StreamKind>, plan: &EncodePlan, kind: EncoderKind) -> (r: Result<
    TranscodeJob,
    EngineError,
>)
    ensures
        first_video(streams@, 0) >= streams.len() ==> r == Err::<TranscodeJob, EngineError>(
            EngineError::NoVideoStream,
        ),
        first_video(streams@, 0) < streams.len() ==> {
            &&& r is Ok
            &&& r->Ok_0.video_in == first_video(streams@, 0)
            &&& r->Ok_0.settings == encoder::settings_for(*plan, kind)
            &&& r->Ok_0.filter@ == filters::video_filter_text(*plan)
            &&& r->Ok_0.audio@ == encode_route(
                plan.audio,
                audio_streams(streams@, streams.len() as int),
            )
            &&& r->Ok_0.audio@ is Silent <==> plan.audio is Drop || forall|i: int|
                0 <= i < streams.len() ==> streams[i] != StreamKind::Audio
        },
{
    proof {
        law_encoding_keeps_the_sound(streams@, plan.audio);
    }
    let video_in: usize = match find_video(streams) {
        Some(i) => i,
        None => {
            return Err(EngineError::NoVideoStream);
        },
    };
    let tracks = find_audio(streams);
    let audio = match plan.audio {
        AudioAction::Drop => AudioRoute::Silent,
        AudioAction::Copy => if tracks.len() == 0 {
            AudioRoute::Silent
        } else {
            AudioRoute::Copy { from: tracks[0] }
        },
        AudioAction::Reencode { bps } => if tracks.len() == 0 {
            AudioRoute::Silent
        } else {
            AudioRoute::Mix { tracks, bps }
        },
    };
    Ok(
        TranscodeJob {
            video_in,
            settings: encoder::video_settings(plan, kind),
            filter: filters::video_filter_spec(plan),
            audio,
        },
    )
}

/// Everything one copying pass needs to know before it starts.
#[derive(Debug)]
pub struct RemuxJob {
    pub video_in: usize,
    pub audio: AudioRoute,
}

/// The audio streams a copying pass takes up.
pub open spec fn remux_tracks(streams: Seq<StreamKind>, include_audio: bool) -> Seq<usize> {
    if include_audio {
        audio_streams(streams, streams.len() as int)
    } else {
        Seq::empty()
    }
}

/// Set up a pass that copies the picture into an MP4 without touching it. Used
/// when the source already fits the ceiling: re-encoding it would spend a
/// generation of quality and come out about the same size regardless.
pub fn remux(streams: &Vec<StreamKind>, include_audio: bool, mix_bps: Option<i64>) -> (r: Result<
    RemuxJob,
    EngineError,
>)
    ensures
        first_video(streams@, 0) >= streams.len() ==> r == Err::<RemuxJob, EngineError>(
            EngineError::NoVideoStream,
        ),
        first_video(streams@, 0) < streams.len() ==> {
            &&& r is Ok
            &&& r->Ok_0.video_in == first_video(streams@, 0)
            &&& r->Ok_0.audio@ == remux_route(remux_tracks(streams@, include_audio), mix_bps)
            &&& r->Ok_0.audio@ is Silent <==> !include_audio || forall|i: int|
                0 <= i < streams.len() ==> streams[i] != StreamKind::Audio
        },
{
    proof {
        law_copying_keeps_the_sound(streams@, include_audio, mix_bps);
    }
    let video_in: usize = match find_video(streams) {
        Some(i) => i,
        None => {
            return Err(EngineError::NoVideoStream);
        },
    };
    let tracks: Vec<usize> = if include_audio {
        find_audio(streams)
    } else {
        Vec::new()
    };
    let audio = if tracks.len() == 0 {
        AudioRoute::Silent
    } else if tracks.len() == 1 {
        AudioRoute::Copy { from: tracks[0] }
    } else {
        match mix_bps {
            Some(bps) => AudioRoute::Mix { tracks, bps },
            None => AudioRoute::Copy { from: tracks[0] },
        }
    };
    Ok(RemuxJob { video_in, audio })
}

// ---- audio encoding ----

/// What an audio decoder says of its track.
#[derive(Clone, Copy, Debug, PartialEq, Eq, Structural)]
pub struct AudioTrack {
    pub stream_index: usize,
    pub sample_rate: i32,
    pub channels: i32,
}

/// The audio re-encode path: one decoder per source track, all meeting in one
/// AAC encoder.
#[derive(Debug)]
pub struct AudioEncode {
    /// Stream index of each input, by its place in the mix.
    pub inputs: Vec<usize>,
    pub sample_rate: i32,
    pub channels: i32,
    pub bit_rate: i64,
}

/// Sample rate of a mix: the first track's, or a usual one where it is unknown.
pub open spec fn mix_rate(first: AudioTrack) -> int {
    if first.sample_rate > 0 {
        first.sample_rate as int
    } else {
        48_000
    }
}

/// Channels of a mix: the first track's, between one and eight.
pub open spec fn mix_channels(first: AudioTrack) -> int {
    arith::smaller(arith::larger(first.channels as int, 1), 8)
}

/// The place of a stream in the mix: the first input with that index.
pub open spec fn place_of(inputs: Seq<usize>, stream_index: usize, from: int) -> int
    decreases inputs.len() - from,
{
    if from < 0 || from >= inputs.len() || inputs[from] == stream_index {
        from
    } else {
        place_of(inputs, stream_index, from + 1)
    }
}

/// What the place of a stream says of the inputs.
pub proof fn lemma_place(inputs: Seq<usize>, stream_index: usize, from: int)
    requires
        0 <= from <= inputs.len(),
    ensures
        from <= place_of(inputs, stream_index, from) <= inputs.len(),
        place_of(inputs, stream_index, from) < inputs.len() ==> inputs[place_of(
            inputs,
            stream_index,
            from,
        )] == stream_index,
        forall|i: int|
            from <= i < place_of(inputs, stream_index, from) ==> inputs[i] != stream_index,
    decreases inputs.len() - from,
{
    if from < inputs.len() && inputs[from] != stream_index {
        lemma_place(inputs, stream_index, from + 1);
    }
}

/// Find the place of a stream among the inputs of a mix.
pub fn input_place(inputs: &Vec<usize>, stream_index: usize) -> (r: Option<usize>)
    ensures
        match r {
            Some(i) => i == place_of(inputs@, stream_index, 0) && i < inputs.len(),
            None => place_of(inputs@, stream_index, 0) == inputs.len(),
        },
{
    let mut i: usize = 0;
    while i < inputs.len()
        invariant
            i <= inputs.len(),
            place_of(inputs@, stream_index, i as int) == place_of(inputs@, stream_index, 0),
        decreases inputs.len() - i,
    {
        if inputs[i] == stream_index {
            return Some(i);
        }
        i = i + 1;
    }
    None
}

impl AudioEncode {
    /// Set up a mix of the tracks at a bitrate. The mix takes its shape from the
    /// first track.
    pub fn new(tracks: &Vec<AudioTrack>, bps: i64) -> (r: Result<AudioEncode, EngineError>)
        ensures
            tracks.len() == 0 ==> r == Err::<AudioEncode, EngineError>(EngineError::NoAudioTracks),
            tracks.len() > 0 ==> {
                &&& r is Ok
                &&& r->Ok_0.inputs@ == tracks@.map_values(|t: AudioTrack| t.stream_index)
                &&& r->Ok_0.sample_rate == mix_rate(tracks[0])
                &&& r->Ok_0.channels == mix_channels(tracks[0])
                &&& r->Ok_0.bit_rate == bps
            },
    {
        if tracks.len() == 0 {
            return Err(EngineError::NoAudioTracks);
        }
        let mut inputs: Vec<usize> = Vec::new();
        let mut i: usize = 0;
        while i < tracks.len()
            invariant
                i <= tracks.len(),
                inputs.len() == i,
                forall|j: int| 0 <= j < i ==> inputs[j] == tracks[j].stream_index,
            decreases tracks.len() - i,
        {
            inputs.push(tracks[i].stream_index);
            i = i + 1;
        }
        assert(inputs@ =~= tracks@.map_values(|t: AudioTrack| t.stream_index));
        let first = tracks[0];
        let sample_rate: i32 = if first.sample_rate > 0 {
            first.sample_rate
        } else {
            48_000
        };
        let channels: i32 = if first.channels < 1 {
            1
        } else if first.channels > 8 {
            8
        } else {
            first.channels
        };
        Ok(AudioEncode { inputs, sample_rate, channels, bit_rate: bps })
    }
}

// ---- laws ----

/// The streams taken up for audio are exactly the audio streams, each once and
/// in order.
pub proof fn law_no_track_lost(streams: Seq<StreamKind>)
    requires
        streams.len() <= usize::MAX,
    ensures
        ({
            let tracks = audio_streams(streams, streams.len() as int);
            &&& forall|i: int|
                0 <= i < streams.len() ==> (#[trigger] streams[i] == StreamKind::Audio
                    <==> tracks.contains(i as usize))
            &&& forall|a: int, b: int| 0 <= a < b < tracks.len() ==> tracks[a] < tracks[b]
            &&& forall|a: int| 0 <= a < tracks.len() ==> #[trigger] tracks[a] < streams.len()
        }),
{
    lemma_audio_streams(streams, streams.len() as int);
}

proof fn lemma_audio_streams(streams: Seq<StreamKind>, n: int)
    requires
        0 <= n <= streams.len() <= usize::MAX,
    ensures
        ({
            let tracks = audio_streams(streams, n);
            &&& forall|i: int|
                0 <= i < n ==> (#[trigger] streams[i] == StreamKind::Audio <==> tracks.contains(
                    i as usize,
                ))
            &&& forall|a: int, b: int| 0 <= a < b < tracks.len() ==> tracks[a] < tracks[b]
            &&& forall|a: int| 0 <= a < tracks.len() ==> #[trigger] tracks[a] < n
        }),
    decreases n,
{
    if n > 0 {
        lemma_audio_streams(streams, n - 1);
        let before = audio_streams(streams, n - 1);
        let tracks = audio_streams(streams, n);
        if streams[n - 1] == StreamKind::Audio {
            assert(tracks[tracks.len() - 1] == (n - 1) as usize);
            assert forall|i: int| 0 <= i < n implies (#[trigger] streams[i] == StreamKind::Audio
                <==> tracks.contains(i as usize)) by {
                if i < n - 1 {
                    if before.contains(i as usize) {
                        let a = choose|a: int| 0 <= a < before.len() && before[a] == i as usize;
                        assert(tracks[a] == i as usize);
                    }
                    if tracks.contains(i as usize) {
                        let a = choose|a: int| 0 <= a < tracks.len() && tracks[a] == i as usize;
                        assert(before[a] == i as usize);
                    }
                }
            }
        } else {
            if tracks.contains((n - 1) as usize) {
                let a = choose|a: int| 0 <= a < tracks.len() && tracks[a] == (n - 1) as usize;
                assert(tracks[a] < n - 1);
            }
        }
    }
}

/// The stream that is encoded or copied as video is the first video stream.
pub proof fn law_first_video(streams: Seq<StreamKind>)
    ensures
        ({
            let v = first_video(streams, 0);
            &&& 0 <= v <= streams.len()
            &&& v < streams.len() ==> streams[v] == StreamKind::Video
            &&& forall|i: int| 0 <= i < v ==> streams[i] != StreamKind::Video
        }),
{
    lemma_first_video(streams, 0);
}

proof fn lemma_first_video(streams: Seq<StreamKind>, from: int)
    requires
        0 <= from <= streams.len(),
    ensures
        from <= first_video(streams, from) <= streams.len(),
        first_video(streams, from) < streams.len() ==> streams[first_video(streams, from)]
            == StreamKind::Video,
        forall|i: int| from <= i < first_video(streams, from) ==> streams[i] != StreamKind::Video,
    decreases streams.len() - from,
{
    if from < streams.len() && streams[from] != StreamKind::Video {
        lemma_first_video(streams, from + 1);
    }
}

/// Several tracks are never silently cut to one: re-encoding mixes all of them,
/// and copying the picture mixes all of them once a rate is given.
pub proof fn law_several_tracks_are_mixed(tracks: Seq<usize>, bps: i64)
    requires
        tracks.len() > 1,
    ensures
        encode_route(AudioAction::Reencode { bps }, tracks) == (Route::Mix { tracks, bps }),
        remux_route(tracks, Some(bps)) == (Route::Mix { tracks, bps }),
{
}

/// An encode pass is silent exactly when the plan drops the sound or no stream
/// is audio. Otherwise, with one track as with several: a plan to copy copies
/// the first audio stream, and a plan to re-encode mixes every audio stream, in
/// order, at the planned rate.
pub proof fn law_encoding_keeps_the_sound(streams: Seq<StreamKind>, audio: AudioAction)
    requires
        streams.len() <= usize::MAX,
    ensures
        ({
            let route = encode_route(audio, audio_streams(streams, streams.len() as int));
            &&& route is Silent <==> audio is Drop || forall|i: int|
                0 <= i < streams.len() ==> streams[i] != StreamKind::Audio
            &&& route is Copy ==> audio is Copy
            &&& route matches Route::Copy { from } ==> {
                &&& from < streams.len() && streams[from as int] == StreamKind::Audio
                &&& forall|i: int| 0 <= i < from ==> streams[i] != StreamKind::Audio
            }
            &&& route matches Route::Mix { tracks, bps } ==> {
                &&& audio == (AudioAction::Reencode { bps })
                &&& forall|i: int|
                    0 <= i < streams.len() ==> (#[trigger] streams[i] == StreamKind::Audio
                        <==> tracks.contains(i as usize))
                &&& forall|a: int, b: int| 0 <= a < b < tracks.len() ==> tracks[a] < tracks[b]
                &&& forall|a: int| 0 <= a < tracks.len() ==> #[trigger] tracks[a] < streams.len()
            }
        }),
{
    lemma_tracks(streams);
}

/// A copying pass is silent exactly when the sound is not wanted or no stream is
/// audio. Otherwise a single track is copied; several are all mixed where a rate
/// to mix at is given, and without one the first of them is copied.
pub proof fn law_copying_keeps_the_sound(
    streams: Seq<StreamKind>,
    include_audio: bool,
    mix_bps: Option<i64>,
)
    requires
        streams.len() <= usize::MAX,
    ensures
        ({
            let route = remux_route(remux_tracks(streams, include_audio), mix_bps);
            &&& route is Silent <==> !include_audio || forall|i: int|
                0 <= i < streams.len() ==> streams[i] != StreamKind::Audio
            &&& route is Mix <==> include_audio && mix_bps is Some && exists|i: int, j: int|
                0 <= i < j < streams.len() && #[trigger] streams[i] == StreamKind::Audio
                    && #[trigger] streams[j] == StreamKind::Audio
            &&& route matches Route::Copy { from } ==> {
                &&& from < streams.len() && streams[from as int] == StreamKind::Audio
                &&& forall|i: int| 0 <= i < from ==> streams[i] != StreamKind::Audio
            }
            &&& route matches Route::Mix { tracks, bps } ==> {
                &&& mix_bps == Some(bps)
                &&& forall|i: int|
                    0 <= i < streams.len() ==> (#[trigger] streams[i] == StreamKind::Audio
                        <==> tracks.contains(i as usize))
                &&& forall|a: int, b: int| 0 <= a < b < tracks.len() ==> tracks[a] < tracks[b]
                &&& forall|a: int| 0 <= a < tracks.len() ==> #[trigger] tracks[a] < streams.len()
            }
        }),
{
    lemma_tracks(streams);
    let tracks = audio_streams(streams, streams.len() as int);
    if tracks.len() > 1 {
        let (i, j) = (tracks[0] as int, tracks[1] as int);
        assert(0 <= i < j < streams.len() && streams[i] == StreamKind::Audio && streams[j]
            == StreamKind::Audio);
    } else if exists|i: int, j: int|
        0 <= i < j < streams.len() && #[trigger] streams[i] == StreamKind::Audio
            && #[trigger] streams[j] == StreamKind::Audio {
        let (i, j) = choose|i: int, j: int|
            0 <= i < j < streams.len() && #[trigger] streams[i] == StreamKind::Audio
                && #[trigger] streams[j] == StreamKind::Audio;
        assert(tracks.contains(i as usize) && tracks.contains(j as usize));
        let a = choose|a: int| 0 <= a < tracks.len() && tracks[a] == i as usize;
        let b = choose|b: int| 0 <= b < tracks.len() && tracks[b] == j as usize;
        assert(a == 0 && b == 0);
    }
}

proof fn lemma_tracks(streams: Seq<StreamKind>)
    requires
        streams.len() <= usize::MAX,
    ensures
        ({
            let tracks = audio_streams(streams, streams.len() as int);
            &&& forall|i: int|
                0 <= i < streams.len() ==> (#[trigger] streams[i] == StreamKind::Audio
                    <==> tracks.contains(i as usize))
            &&& forall|a: int, b: int| 0 <= a < b < tracks.len() ==> tracks[a] < tracks[b]
            &&& forall|a: int|
                0 <= a < tracks.len() ==> #[trigger] tracks[a] < streams.len()
                    && streams[tracks[a] as int] == StreamKind::Audio
            &&& tracks.len() == 0 <==> forall|i: int|
                0 <= i < streams.len() ==> streams[i] != StreamKind::Audio
            &&& tracks.len() > 0 ==> forall|i: int|
                0 <= i < tracks[0] ==> streams[i] != StreamKind::Audio
        }),
{
    lemma_audio_streams(streams, streams.len() as int);
    let tracks = audio_streams(streams, streams.len() as int);
    assert forall|a: int| 0 <= a < tracks.len() implies #[trigger] tracks[a] < streams.len()
        && streams[tracks[a] as int] == StreamKind::Audio by {
        assert(tracks.contains(tracks[a]));
        assert(streams[tracks[a] as int] == StreamKind::Audio);
    }
    if tracks.len() > 0 {
        assert(streams[tracks[0] as int] == StreamKind::Audio);
        assert forall|i: int| 0 <= i < tracks[0] implies streams[i] != StreamKind::Audio by {
            if streams[i] == StreamKind::Audio {
                assert(tracks.contains(i as usize));
                let a = choose|a: int| 0 <= a < tracks.len() && tracks[a] == i as usize;
                assert(tracks[0] <= tracks[a]);
            }
        }
    } else {
        assert forall|i: int| 0 <= i < streams.len() implies streams[i] != StreamKind::Audio by {
            if streams[i] == StreamKind::Audio {
                assert(tracks.contains(i as usize));
            }
        }
    }
}

/// A mix sounds as its first track does: at that track's sample rate, or 48 kHz
/// where that is unknown, and in as many channels, kept between one and eight.
pub proof fn law_mix_sounds_as_its_first_track(first: AudioTrack)
    ensures
        first.sample_rate > 0 ==> mix_rate(first) == first.sample_rate,
        first.sample_rate <= 0 ==> mix_rate(first) == 48_000,
        1 <= mix_channels(first) <= 8,
        1 <= first.channels <= 8 ==> mix_channels(first) == first.channels,
        first.channels > 8 ==> mix_channels(first) == 8,
        first.channels < 1 ==> mix_channels(first) == 1,
{
}

/// A packet of a mixed stream finds its own decoder, and one of any other finds
/// none.
pub proof fn law_each_track_has_its_place(inputs: Seq<usize>, stream_index: usize)
    ensures
        ({
            let place = place_of(inputs, stream_index, 0);
            &&& 0 <= place <= inputs.len()
            &&& place < inputs.len() <==> inputs.contains(stream_index)
            &&& place < inputs.len() ==> inputs[place] == stream_index
            &&& forall|i: int| 0 <= i < place ==> inputs[i] != stream_index
        }),
{
    lemma_place(inputs, stream_index, 0);
    let place = place_of(inputs, stream_index, 0);
    if place < inputs.len() {
        assert(inputs[place] == stream_index);
    }
}

} // verus!
