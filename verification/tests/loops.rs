use squeeze::media::MediaInfo;
use squeeze::options::{CompressOptions, EncoderKind};
use squeeze::plan::{plan_initial, AudioAction, EncodePlan, MIN_VIDEO_BPS};
use squeeze::session::{
    compress_to_target, pass_fraction, should_report, CompressOutcome, Progress, Session, Work,
};

fn clip(codec: &str, seconds: u64) -> MediaInfo {
    MediaInfo {
        width: 2560,
        height: 1440,
        fps_num: 60,
        fps_den: 1,
        duration_us: seconds * 1_000_000,
        video_bitrate_bps: 50_000_000,
        audio_bitrate_bps: 160_000,
        has_audio: true,
        audio_tracks: 1,
        video_codec: String::from(codec),
    }
}

fn start(info: MediaInfo, opts: CompressOptions, source_bytes: u64) -> Session {
    compress_to_target(info, String::from("out.mp4"), opts, source_bytes)
}

fn goes_on(p: Progress) -> Session {
    match p {
        Progress::Continue(s) => s,
        Progress::Finished(_) => panic!("finished"),
    }
}

fn ends(p: Progress) -> CompressOutcome {
    match p {
        Progress::Finished(o) => o,
        Progress::Continue(_) => panic!("goes on"),
    }
}

fn pass_of(s: &Session) -> (u32, EncodePlan) {
    match s.work {
        Work::Encode { pass, plan, .. } => (pass, plan),
        _ => panic!("not encoding"),
    }
}

#[test]
fn small_clips_are_copied() {
    let s = start(clip("h264", 30), CompressOptions::default(), 10_000_000);
    assert!(matches!(s.work, Work::Remux { include_audio: true, mix_bps: None }));
    assert!(s.pass_info(0).is_none() && s.pass_started().is_none());
    let o = ends(s.measured(10_000_000));
    assert!(o.fits && o.remuxed);
    assert_eq!((o.passes, o.final_bytes), (0, 10_000_000));
    assert_eq!(o.output, "out.mp4");
    assert_eq!(
        o.last_plan,
        EncodePlan {
            width: 2560,
            height: 1440,
            fps_num: 60,
            fps_den: 1,
            video_bitrate_bps: 50_000_000,
            audio: AudioAction::Copy,
        }
    );
    assert_eq!(o.held_instead_of, None);
    assert_eq!(o.info.video_codec, "h264");
}

#[test]
fn only_h264_that_is_known_to_fit_is_copied() {
    for (codec, bytes) in [("hevc", 5), ("h264", 10_000_001), ("h264", 0), ("H264", 5)] {
        let s = start(clip(codec, 30), CompressOptions::default(), bytes);
        assert!(matches!(s.work, Work::ChooseEncoder));
    }
}

#[test]
fn copies_mix_several_tracks() {
    let mut info = clip("h264", 30);
    info.audio_tracks = 2;
    let s = start(info.clone(), CompressOptions::default(), 9);
    assert!(matches!(s.work, Work::Remux { include_audio: true, mix_bps: Some(160_000) }));
    assert_eq!(ends(s.measured(9)).last_plan.audio, AudioAction::Reencode { bps: 160_000 });
    let opts = CompressOptions { include_audio: false, ..CompressOptions::default() };
    let s = start(info, opts, 9);
    assert!(matches!(s.work, Work::Remux { include_audio: false, mix_bps: None }));
    assert_eq!(ends(s.measured(9)).last_plan.audio, AudioAction::Drop);
}

#[test]
fn a_copy_that_grew_past_the_ceiling_is_encoded() {
    let s = start(clip("h264", 30), CompressOptions::default(), 9_999_999);
    let s = goes_on(s.measured(10_000_001));
    assert!(matches!(s.work, Work::ChooseEncoder));
    let s = goes_on(s.measured(1));
    assert!(matches!(s.work, Work::ChooseEncoder));
}

#[test]
fn nvenc_aims_lower() {
    let s = start(clip("hevc", 30), CompressOptions::default(), 1);
    let s = s.encoder_resolved(EncoderKind::Nvenc, 880_000);
    assert_eq!(s.opts.margin_ppm, 880_000);
    assert_eq!(pass_of(&s).1.video_bitrate_bps, 2_186_667);
    let s = start(clip("hevc", 30), CompressOptions::default(), 1);
    let s = s.encoder_resolved(EncoderKind::X264, 880_000);
    assert_eq!(s.opts.margin_ppm, 920_000);
    // A caller that asks for more headroom gets it.
    let opts = CompressOptions { margin_ppm: 500_000, ..CompressOptions::default() };
    let s = start(clip("hevc", 30), opts, 1).encoder_resolved(EncoderKind::Nvenc, 880_000);
    assert_eq!(s.opts.margin_ppm, 500_000);
    // Later answers change nothing.
    let s = s.encoder_resolved(EncoderKind::X264, 1);
    assert_eq!(s.opts.margin_ppm, 500_000);
    assert_eq!(pass_of(&s).0, 1);
}

#[test]
fn a_file_that_fits_ends_the_work() {
    let info = clip("hevc", 30);
    let first = plan_initial(&info, &CompressOptions::default());
    let s = start(info, CompressOptions::default(), 1).encoder_resolved(EncoderKind::X264, 0);
    assert_eq!(pass_of(&s), (1, first));
    assert_eq!(s.pass_started().unwrap().fraction_ppb, 0);
    assert_eq!(s.pass_started().unwrap().plan, first);
    let p = s.pass_info(500_000).unwrap();
    assert_eq!((p.pass, p.max_passes, p.fraction_ppb), (1, 3, 500_000));
    assert_eq!((p.plan, p.encoder.as_str()), (first, "libx264"));
    let o = ends(s.measured(10_000_000));
    assert!(o.fits && !o.remuxed);
    assert_eq!((o.passes, o.last_plan), (1, first));
}

#[test]
fn passes_tighten_until_they_run_out() {
    let s = start(clip("hevc", 30), CompressOptions::default(), 1)
        .encoder_resolved(EncoderKind::OpenH264, 0);
    let (_, first) = pass_of(&s);
    let s = goes_on(s.measured(12_000_000));
    let (pass, second) = pass_of(&s);
    assert_eq!(pass, 2);
    assert!(second.video_bitrate_bps < first.video_bitrate_bps);
    let s = goes_on(s.measured(11_000_000));
    let (pass, third) = pass_of(&s);
    assert_eq!(pass, 3);
    assert!(third.video_bitrate_bps < second.video_bitrate_bps);
    assert_eq!(third.audio, first.audio);
    let o = ends(s.measured(10_000_001));
    assert!(!o.fits);
    assert_eq!((o.passes, o.final_bytes, o.last_plan), (3, 10_000_001, third));
}

#[test]
fn one_pass_is_always_made() {
    for max_passes in [0, 1] {
        let opts = CompressOptions { max_passes, ..CompressOptions::default() };
        let s = start(clip("hevc", 30), opts, 1).encoder_resolved(EncoderKind::X264, 0);
        let o = ends(s.measured(99_000_000));
        assert_eq!((o.passes, o.fits), (1, false));
    }
}

#[test]
fn a_plan_with_nothing_left_to_give_ends_the_work() {
    let opts = CompressOptions { max_passes: 9, ..CompressOptions::default() };
    let s = start(clip("hevc", 7200), opts, 1).encoder_resolved(EncoderKind::X264, 0);
    assert_eq!(pass_of(&s).1.video_bitrate_bps, MIN_VIDEO_BPS);
    let o = ends(s.measured(99_000_000));
    assert_eq!((o.passes, o.fits), (1, false));
}

#[test]
fn holding_the_frame_is_reported_where_it_cost_something() {
    let opts = CompressOptions { keep_resolution: true, ..CompressOptions::default() };
    let s = start(clip("hevc", 300), opts, 1).encoder_resolved(EncoderKind::X264, 0);
    let o = ends(s.measured(9_000_000));
    assert_eq!((o.last_plan.width, o.last_plan.height), (2560, 1440));
    assert_eq!(o.held_instead_of, Some((854, 480)));
    let s = start(clip("hevc", 2), opts, 1).encoder_resolved(EncoderKind::X264, 0);
    assert_eq!(ends(s.measured(9_000_000)).held_instead_of, None);
    let s = start(clip("hevc", 300), CompressOptions::default(), 1)
        .encoder_resolved(EncoderKind::X264, 0);
    assert_eq!(ends(s.measured(9_000_000)).held_instead_of, None);
}

#[test]
fn progress_through_a_pass() {
    let tb = (1, 90_000);
    assert_eq!(pass_fraction(Some(0), tb, 30_000_000), Some(0));
    assert_eq!(pass_fraction(Some(1_350_000), tb, 30_000_000), Some(500_000_000));
    assert_eq!(pass_fraction(Some(900_000), tb, 30_000_000), Some(333_333_333));
    assert_eq!(pass_fraction(Some(2_700_000), tb, 30_000_000), Some(1_000_000_000));
    assert_eq!(pass_fraction(Some(i64::MAX), (i32::MAX, 0), 1), Some(1_000_000_000));
    assert_eq!(pass_fraction(Some(-5), tb, 30_000_000), Some(0));
    assert_eq!(pass_fraction(Some(i64::MIN), (i32::MIN, 1), u64::MAX), Some(1_000_000_000));
    assert_eq!(pass_fraction(None, tb, 30_000_000), None);
    assert_eq!(pass_fraction(Some(5), tb, 0), None);
    let mut last = 0;
    for pts in (0..2_700_000).step_by(30_000) {
        let f = pass_fraction(Some(pts), tb, 30_000_000).unwrap();
        assert!(f >= last);
        last = f;
    }
}

#[test]
fn progress_leaves_zero_at_once() {
    // A nanosecond into four days is far less than a billionth.
    assert_eq!(pass_fraction(Some(1), (1, 1_000_000_000), 345_600_000_000), Some(1));
    assert_eq!(pass_fraction(Some(0), (1, 1_000_000_000), 345_600_000_000), Some(0));
    assert!(!should_report(Some(0), 1));
}

#[test]
fn only_meaningful_progress_is_passed_on() {
    assert!(should_report(None, 0));
    assert!(should_report(None, 5));
    assert!(!should_report(Some(500_000_000), 509_999_999));
    assert!(should_report(Some(500_000_000), 510_000_000));
    assert!(should_report(Some(500_000_000), 490_000_000));
    assert!(!should_report(Some(500_000_000), 490_000_001));
    assert!(should_report(Some(900_000_000), 0));
    assert!(should_report(Some(0), 0));
    assert!(should_report(Some(u32::MAX), 1));
}
