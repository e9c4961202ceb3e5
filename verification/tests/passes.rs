use squeeze::encoder::{
    encoder_opens, encoder_options, nvidia_runtime_present, probe_settings, resolve_encoder,
    runtime_library, trace_probe, video_settings, Platform, Probe, ProbeStep, Resolution,
    VideoSettings,
};
use squeeze::errors::EngineError;
use squeeze::filters::{
    audio_filter_spec, audio_input_name, audio_source_args, video_filter_spec, video_source_args,
    VideoSource,
};
use squeeze::options::{Encoder, EncoderKind};
use squeeze::pipeline::{Event, Lane, Pipeline, Reason, Source, Stage};
use squeeze::plan::{AudioAction, EncodePlan};
use squeeze::streams::{
    input_place, remux, transcode, AudioEncode, AudioRoute, AudioTrack, StreamKind,
};

fn plan(audio: AudioAction) -> EncodePlan {
    EncodePlan {
        width: 1920,
        height: 1080,
        fps_num: 60_000,
        fps_den: 2002,
        video_bitrate_bps: 2_293_333,
        audio,
    }
}

// ---- encoders ----

#[test]
fn auto_prefers_hardware_then_software() {
    let ask = |candidate| Resolution::Ask { candidate, must_open: true };
    assert_eq!(resolve_encoder(Encoder::Auto, &vec![]), ask(EncoderKind::Nvenc));
    assert_eq!(resolve_encoder(Encoder::Auto, &vec![false]), ask(EncoderKind::X264));
    assert_eq!(resolve_encoder(Encoder::Auto, &vec![false, false]), ask(EncoderKind::OpenH264));
    assert_eq!(
        resolve_encoder(Encoder::Auto, &vec![false, true]),
        Resolution::Use { chosen: EncoderKind::X264 }
    );
    assert_eq!(
        resolve_encoder(Encoder::Auto, &vec![true, true, true]),
        Resolution::Use { chosen: EncoderKind::Nvenc }
    );
    assert_eq!(
        resolve_encoder(Encoder::Auto, &vec![false, false, false]),
        Resolution::Failed { why: EngineError::NoUsableEncoder }
    );
}

#[test]
fn an_encoder_asked_for_is_never_replaced() {
    for (choice, kind) in [
        (Encoder::Nvenc, EncoderKind::Nvenc),
        (Encoder::X264, EncoderKind::X264),
        (Encoder::OpenH264, EncoderKind::OpenH264),
    ] {
        assert_eq!(
            resolve_encoder(choice, &vec![]),
            Resolution::Ask { candidate: kind, must_open: false }
        );
        assert_eq!(resolve_encoder(choice, &vec![true]), Resolution::Use { chosen: kind });
        let missing = Resolution::Failed { why: EngineError::EncoderMissing { wanted: kind } };
        assert_eq!(resolve_encoder(choice, &vec![false]), missing);
        assert_eq!(resolve_encoder(choice, &vec![false, true]), missing);
    }
}

#[test]
fn nvenc_waits_for_its_runtime() {
    let ask = |probe| ProbeStep::Ask { probe };
    let nvenc = EncoderKind::Nvenc;
    assert_eq!(encoder_opens(nvenc, &vec![]), ask(Probe::RuntimePresent));
    assert_eq!(encoder_opens(nvenc, &vec![true]), ask(Probe::InBuild));
    assert_eq!(encoder_opens(nvenc, &vec![true, true]), ask(Probe::Opens));
    assert_eq!(encoder_opens(nvenc, &vec![true, true, true]), ProbeStep::Accepted);
    let no = |failed| ProbeStep::Rejected { failed };
    assert_eq!(encoder_opens(nvenc, &vec![false]), no(Probe::RuntimePresent));
    assert_eq!(encoder_opens(nvenc, &vec![true, false]), no(Probe::InBuild));
    assert_eq!(encoder_opens(nvenc, &vec![true, true, false]), no(Probe::Opens));
    assert_eq!(encoder_opens(EncoderKind::X264, &vec![]), ask(Probe::InBuild));
    assert_eq!(encoder_opens(EncoderKind::OpenH264, &vec![true, true]), ProbeStep::Accepted);
    assert_eq!(encoder_opens(EncoderKind::OpenH264, &vec![true, false]), no(Probe::Opens));
}

#[test]
fn probes_in_words() {
    assert_eq!(trace_probe(Some(Probe::RuntimePresent)), "skipped, no NVIDIA runtime");
    assert_eq!(trace_probe(Some(Probe::InBuild)), "not in this build");
    assert_eq!(trace_probe(Some(Probe::Opens)), "would not open");
    assert_eq!(trace_probe(None), "opened");
}

#[test]
fn nvidia_runtime_by_platform() {
    assert_eq!(runtime_library(Platform::Windows), Some("nvcuda.dll"));
    assert_eq!(runtime_library(Platform::Linux), Some("libcuda.so.1"));
    assert_eq!(runtime_library(Platform::Other), None);
    assert!(nvidia_runtime_present(Platform::Linux, true));
    assert!(!nvidia_runtime_present(Platform::Windows, false));
    assert!(!nvidia_runtime_present(Platform::Other, true));
}

#[test]
fn encoder_names_and_options() {
    assert_eq!(EncoderKind::Nvenc.name(), "h264_nvenc");
    assert_eq!(EncoderKind::X264.name(), "libx264");
    assert_eq!(EncoderKind::OpenH264.name(), "libopenh264");
    assert_eq!(
        encoder_options(EncoderKind::Nvenc),
        vec![
            ("preset", "p5"),
            ("tune", "hq"),
            ("rc", "vbr"),
            ("multipass", "fullres"),
            ("profile", "high"),
            ("spatial-aq", "1"),
            ("temporal-aq", "1"),
            ("b_ref_mode", "middle"),
            ("rc-lookahead", "20"),
        ]
    );
    assert_eq!(
        encoder_options(EncoderKind::X264),
        vec![("preset", "medium"), ("profile", "high")]
    );
    assert_eq!(
        encoder_options(EncoderKind::OpenH264),
        vec![("rc_mode", "bitrate"), ("allow_skip_frames", "1")]
    );
}

#[test]
fn settings_of_a_plan() {
    let s = video_settings(&plan(AudioAction::Copy), EncoderKind::Nvenc);
    assert_eq!(
        s,
        VideoSettings {
            width: 1920,
            height: 1080,
            time_base: (2002, 60_000),
            framerate: (60_000, 2002),
            bit_rate: 2_293_333,
            gop_size: 60,
            max_b_frames: 3,
            rc_max_rate: 4_586_666,
            rc_buffer_size: 9_173_332,
        }
    );
    assert_eq!(video_settings(&plan(AudioAction::Copy), EncoderKind::OpenH264).max_b_frames, 0);
    let p = probe_settings();
    assert_eq!((p.width, p.height, p.bit_rate), (320, 240, 200_000));
    assert_eq!((p.time_base, p.framerate), ((1, 30), (30, 1)));
}

#[test]
fn settings_at_the_ends() {
    let mut p = plan(AudioAction::Copy);
    p.video_bitrate_bps = i64::MAX;
    p.fps_num = i32::MAX;
    p.fps_den = 0;
    let s = video_settings(&p, EncoderKind::X264);
    assert_eq!((s.rc_max_rate, s.rc_buffer_size), (i64::MAX, i32::MAX));
    assert_eq!((s.gop_size, s.framerate), (i32::MAX, (i32::MAX, 1)));
    p.fps_num = i32::MIN;
    p.video_bitrate_bps = i64::MIN;
    let s = video_settings(&p, EncoderKind::X264);
    assert_eq!((s.rc_max_rate, s.rc_buffer_size, s.gop_size), (i64::MIN, i32::MIN, 1));
    p.fps_num = 1;
    p.fps_den = 4;
    assert_eq!(video_settings(&p, EncoderKind::X264).gop_size, 1);
    p.fps_num = 51;
    assert_eq!(video_settings(&p, EncoderKind::X264).gop_size, 26);
}

#[test]
fn errors_in_words() {
    assert_eq!(EngineError::NoVideoStream.message(), "input has no video stream");
    assert_eq!(EngineError::NoAudioTracks.message(), "no audio tracks to encode");
    assert_eq!(
        EngineError::EncoderMissing { wanted: EncoderKind::X264 }.message(),
        "encoder \"libx264\" is not present in this FFmpeg build"
    );
    assert_eq!(
        EngineError::NoUsableEncoder.message(),
        "no usable H.264 encoder on this machine. Tried h264_nvenc (needs an NVIDIA GPU with a \
         recent driver), libx264, and libopenh264."
    );
}

// ---- filters ----

#[test]
fn video_filters() {
    assert_eq!(
        video_filter_spec(&plan(AudioAction::Copy)),
        "scale=1920:1080:flags=bicubic,fps=60000/2002,format=pix_fmts=yuv420p"
    );
    let mut p = plan(AudioAction::Copy);
    p.fps_den = -2;
    p.width = -4;
    assert_eq!(
        video_filter_spec(&p),
        "scale=-4:1080:flags=bicubic,fps=60000/1,format=pix_fmts=yuv420p"
    );
    let v = VideoSource {
        width: 2560,
        height: 1440,
        pix_fmt: 0,
        time_base: (1, 90_000),
        pixel_aspect: (0, 1),
    };
    assert_eq!(
        video_source_args(&v),
        "video_size=2560x1440:pix_fmt=0:time_base=1/90000:pixel_aspect=0/1"
    );
}

#[test]
fn audio_filters() {
    assert_eq!(audio_input_name(12), "ain12");
    assert_eq!(
        audio_source_args((1, 48_000), 48_000, Some("s16"), Some("5.1")),
        "time_base=1/48000:sample_rate=48000:sample_fmt=s16:channel_layout=5.1"
    );
    assert_eq!(
        audio_source_args((0, -1), 0, None, None),
        "time_base=1/1:sample_rate=1:sample_fmt=fltp:channel_layout=stereo"
    );
    assert_eq!(
        audio_filter_spec(1, 44_100, Some("mono")),
        "[ain0]aformat=sample_fmts=fltp:sample_rates=44100:channel_layouts=mono[aout]"
    );
    assert_eq!(
        audio_filter_spec(2, 48_000, None),
        "[ain0][ain1]amix=inputs=2:duration=longest,aformat=sample_fmts=fltp:sample_rates=48000:\
         channel_layouts=stereo[aout]"
    );
}

// ---- streams ----

const TWO_TRACKS: [StreamKind; 5] = [
    StreamKind::Other,
    StreamKind::Audio,
    StreamKind::Video,
    StreamKind::Video,
    StreamKind::Audio,
];

#[test]
fn encoding_takes_the_first_video_and_all_audio() {
    let streams = TWO_TRACKS.to_vec();
    let job = transcode(&streams, &plan(AudioAction::Reencode { bps: 96_000 }), EncoderKind::X264)
        .unwrap();
    assert_eq!(job.video_in, 2);
    assert_eq!(job.settings.bit_rate, 2_293_333);
    assert_eq!(
        job.filter,
        "scale=1920:1080:flags=bicubic,fps=60000/2002,format=pix_fmts=yuv420p"
    );
    assert!(matches!(&job.audio, AudioRoute::Mix { tracks, bps: 96_000 } if *tracks == [1, 4]));
    let job = transcode(&streams, &plan(AudioAction::Copy), EncoderKind::X264).unwrap();
    assert!(matches!(job.audio, AudioRoute::Copy { from: 1 }));
    let job = transcode(&streams, &plan(AudioAction::Drop), EncoderKind::X264).unwrap();
    assert!(matches!(job.audio, AudioRoute::Silent));
    let mute = vec![StreamKind::Video];
    for audio in [AudioAction::Copy, AudioAction::Reencode { bps: 1 }] {
        let job = transcode(&mute, &plan(audio), EncoderKind::X264).unwrap();
        assert!(matches!(job.audio, AudioRoute::Silent));
    }
}

#[test]
fn inputs_without_video_are_refused() {
    let streams = vec![StreamKind::Audio, StreamKind::Other];
    assert_eq!(
        transcode(&streams, &plan(AudioAction::Copy), EncoderKind::X264).unwrap_err(),
        EngineError::NoVideoStream
    );
    assert_eq!(remux(&streams, true, None).unwrap_err(), EngineError::NoVideoStream);
    assert_eq!(remux(&vec![], true, None).unwrap_err(), EngineError::NoVideoStream);
}

#[test]
fn copying_routes_audio() {
    let streams = TWO_TRACKS.to_vec();
    let job = remux(&streams, true, Some(128_000)).unwrap();
    assert_eq!(job.video_in, 2);
    assert!(matches!(&job.audio, AudioRoute::Mix { tracks, bps: 128_000 } if *tracks == [1, 4]));
    assert!(matches!(remux(&streams, true, None).unwrap().audio, AudioRoute::Copy { from: 1 }));
    assert!(matches!(remux(&streams, false, Some(1)).unwrap().audio, AudioRoute::Silent));
    let one = vec![StreamKind::Video, StreamKind::Audio];
    assert!(matches!(remux(&one, true, Some(1)).unwrap().audio, AudioRoute::Copy { from: 1 }));
}

#[test]
fn mixes_take_their_shape_from_the_first_track() {
    let t = |stream_index, sample_rate, channels| AudioTrack { stream_index, sample_rate, channels };
    let a = AudioEncode::new(&vec![t(4, 44_100, 6), t(1, 48_000, 2)], 96_000).unwrap();
    assert_eq!(a.inputs, vec![4, 1]);
    assert_eq!((a.sample_rate, a.channels, a.bit_rate), (44_100, 6, 96_000));
    let a = AudioEncode::new(&vec![t(1, 0, 0)], 5).unwrap();
    assert_eq!((a.sample_rate, a.channels), (48_000, 1));
    let a = AudioEncode::new(&vec![t(1, -3, 9)], 5).unwrap();
    assert_eq!((a.sample_rate, a.channels), (48_000, 8));
    assert_eq!(AudioEncode::new(&vec![], 5).unwrap_err(), EngineError::NoAudioTracks);
    assert_eq!(input_place(&vec![4, 1], 1), Some(1));
    assert_eq!(input_place(&vec![4, 1], 2), None);
}

// ---- order of work ----

/// Drive a pass to its end with codecs that hold `held` items back each.
fn drive(mut p: Pipeline, packets: &[usize], held: usize) -> Vec<Stage> {
    let mut trace = vec![p.stage];
    let mut reads = packets.iter();
    let mut frames = 0usize;
    let mut filtered = 0usize;
    let mut coded = 0usize;
    let mut steps = 0;
    while p.stage != Stage::Done && p.stage != Stage::Failed {
        let take = |n: &mut usize| {
            if *n > 0 {
                *n -= 1;
                Event::Item
            } else {
                Event::Drained
            }
        };
        let event = match p.stage {
            Stage::ReadPacket => match reads.next() {
                Some(i) => Event::Packet { index: *i },
                None => Event::EndOfInput,
            },
            Stage::SubmitPacket { .. } => {
                frames += 1;
                Event::Ready
            }
            Stage::FlushDecoder { .. } => {
                frames += held;
                Event::Ready
            }
            Stage::PushFrame { .. } => {
                filtered += 1;
                Event::Ready
            }
            Stage::SendFiltered { .. } => {
                coded += 1;
                Event::Ready
            }
            Stage::FlushEncoder { .. } => {
                coded += held;
                Event::Ready
            }
            Stage::ReceiveFrame { .. } => take(&mut frames),
            Stage::PullFiltered { .. } => take(&mut filtered),
            Stage::ReceivePacket { .. } => take(&mut coded),
            _ => Event::Ready,
        };
        p.advance(event);
        trace.push(p.stage);
        steps += 1;
        assert!(steps < 1000);
    }
    assert_eq!((frames, filtered, coded), (0, 0, 0));
    trace
}

fn times(trace: &[Stage], stage: Stage) -> usize {
    trace.iter().filter(|s| **s == stage).count()
}

#[test]
fn one_packet_goes_all_the_way() {
    let mut p = Pipeline::encoding(2, true, AudioRoute::Silent);
    let v = Source::Video;
    let reason = Reason::Frame { source: v, ending: false };
    let lane = Lane::Video;
    for (event, stage) in [
        (Event::Packet { index: 7 }, Stage::ReadPacket),
        (Event::Packet { index: 2 }, Stage::SubmitPacket { source: v }),
        (Event::Ready, Stage::ReceiveFrame { source: v, ending: false }),
        (Event::Item, Stage::PushFrame { source: v, ending: false }),
        (Event::Ready, Stage::PullFiltered { lane, reason }),
        (Event::Item, Stage::SendFiltered { lane, reason }),
        (Event::Ready, Stage::ReceivePacket { lane, reason }),
        (Event::Item, Stage::WritePacket { lane, reason }),
        (Event::Ready, Stage::ReceivePacket { lane, reason }),
        (Event::Drained, Stage::PullFiltered { lane, reason }),
        (Event::Drained, Stage::ReceiveFrame { source: v, ending: false }),
        (Event::Drained, Stage::ReadPacket),
        (Event::EndOfInput, Stage::FlushDecoder { source: v }),
        (Event::Ready, Stage::ReceiveFrame { source: v, ending: true }),
        (Event::Drained, Stage::CloseBranch { source: v }),
        (Event::Ready, Stage::PullFiltered { lane, reason: Reason::Closed { source: v } }),
        (Event::Drained, Stage::FlushEncoder { lane }),
        (Event::Ready, Stage::ReceivePacket { lane, reason: Reason::Flushed }),
        (Event::Drained, Stage::WriteTrailer),
        (Event::Ready, Stage::Done),
        (Event::Error, Stage::Done),
    ] {
        p.advance(event);
        assert_eq!(p.stage, stage);
    }
}

#[test]
fn everything_is_drained_before_the_file_is_closed() {
    let p = Pipeline::encoding(0, true, AudioRoute::Mix { tracks: vec![1, 3], bps: 96_000 });
    let trace = drive(p, &[0, 1, 0, 3, 2, 1], 2);
    for source in [Source::Video, Source::Audio { place: 0 }, Source::Audio { place: 1 }] {
        assert_eq!(times(&trace, Stage::CloseBranch { source }), 1);
    }
    for lane in [Lane::Video, Lane::Audio] {
        assert_eq!(times(&trace, Stage::FlushEncoder { lane }), 1);
    }
    assert_eq!(times(&trace, Stage::WriteTrailer), 1);
    assert_eq!(times(&trace, Stage::SubmitPacket { source: Source::Audio { place: 0 } }), 2);
    assert_eq!(times(&trace, Stage::SubmitPacket { source: Source::Audio { place: 1 } }), 1);
    let at = |s: Stage| trace.iter().position(|t| *t == s).unwrap();
    assert!(
        at(Stage::CloseBranch { source: Source::Audio { place: 1 } })
            < at(Stage::FlushEncoder { lane: Lane::Audio })
    );
    assert!(
        at(Stage::FlushEncoder { lane: Lane::Video })
            < at(Stage::FlushDecoder { source: Source::Audio { place: 0 } })
    );
}

#[test]
fn encoders_that_hold_nothing_back_are_not_flushed() {
    let trace = drive(Pipeline::encoding(0, false, AudioRoute::Copy { from: 1 }), &[0, 1, 1], 1);
    assert_eq!(times(&trace, Stage::FlushEncoder { lane: Lane::Video }), 0);
    assert_eq!(times(&trace, Stage::CopyPacket { lane: Lane::Audio }), 2);
    assert_eq!(times(&trace, Stage::Done), 1);
}

#[test]
fn copying_touches_no_video_codec() {
    let trace = drive(Pipeline::copying(0, AudioRoute::Copy { from: 2 }), &[0, 2, 1, 0], 1);
    assert_eq!(
        trace,
        vec![
            Stage::ReadPacket,
            Stage::CopyPacket { lane: Lane::Video },
            Stage::ReadPacket,
            Stage::CopyPacket { lane: Lane::Audio },
            Stage::ReadPacket,
            Stage::ReadPacket,
            Stage::CopyPacket { lane: Lane::Video },
            Stage::ReadPacket,
            Stage::WriteTrailer,
            Stage::Done,
        ]
    );
    let mix = AudioRoute::Mix { tracks: vec![1, 2], bps: 96_000 };
    let trace = drive(Pipeline::copying(0, mix), &[0, 1, 2], 1);
    assert_eq!(times(&trace, Stage::FlushEncoder { lane: Lane::Audio }), 1);
    assert_eq!(times(&trace, Stage::SubmitPacket { source: Source::Video }), 0);
}

#[test]
fn only_the_video_reports_progress() {
    let packets =
        [(0, Some(0)), (1, Some(2000)), (0, Some(5000)), (0, None), (0, Some(12_000))];
    let report = |p: Pipeline| -> Vec<u32> {
        packets
            .iter()
            .filter_map(|(index, pts)| p.progress(*index, *pts, (1, 1000), 10_000_000))
            .collect()
    };
    let encoding = Pipeline::encoding(0, true, AudioRoute::Silent);
    assert_eq!(report(encoding), vec![0, 500_000_000, 1_000_000_000]);
    assert!(report(Pipeline::copying(0, AudioRoute::Silent)).is_empty());
}

#[test]
fn failures_end_a_pass() {
    let mut p = Pipeline::copying(0, AudioRoute::Silent);
    p.advance(Event::Error);
    assert_eq!(p.stage, Stage::Failed);
    p.advance(Event::EndOfInput);
    assert_eq!(p.stage, Stage::Failed);
    let mut p = Pipeline::copying(0, AudioRoute::Silent);
    p.advance(Event::Drained);
    assert_eq!(p.stage, Stage::Failed);
}
