use squeeze::media::MediaInfo;
use squeeze::options::{CompressOptions, Encoder};
use squeeze::plan::{
    assumed_audio_bps, choose_audio, choose_fps, choose_resolution, ladder_resolution, make_even,
    plan_initial, target_video_bps, AudioAction, EncodePlan, AUDIO_MIN_BPS, MIN_VIDEO_BPS,
};

fn clip(width: i32, height: i32, fps: (i32, i32), seconds: u64) -> MediaInfo {
    MediaInfo {
        width,
        height,
        fps_num: fps.0,
        fps_den: fps.1,
        duration_us: seconds * 1_000_000,
        video_bitrate_bps: 98_000_000,
        audio_bitrate_bps: 0,
        has_audio: true,
        audio_tracks: 1,
        video_codec: String::from("h264"),
    }
}

fn under(max_bytes: u64) -> CompressOptions {
    CompressOptions { max_bytes, ..CompressOptions::default() }
}

#[test]
fn defaults_are_the_free_tier() {
    let o = CompressOptions::default();
    assert_eq!(o.max_bytes, 10_000_000);
    assert_eq!(o.margin_ppm, 920_000);
    assert_eq!(o.max_passes, 3);
    assert_eq!(o.encoder, Encoder::Auto);
    assert!(!o.keep_fps && !o.keep_resolution && o.include_audio);
    assert_eq!(Encoder::default(), Encoder::Auto);
}

#[test]
fn thirty_seconds_at_ten_megabytes() {
    // About 2.3 Mbit/s of video, and 1440p60 comes out 1080p30.
    let p = plan_initial(&clip(2560, 1440, (60, 1), 30), &under(10_000_000));
    assert_eq!(
        p,
        EncodePlan {
            width: 1920,
            height: 1080,
            fps_num: 60,
            fps_den: 2,
            video_bitrate_bps: 2_293_333,
            audio: AudioAction::Copy,
        }
    );
    assert_eq!(p.fps(), (60, 2));
}

#[test]
fn thirty_seconds_at_fifty_megabytes_stays_as_it_is() {
    let p = plan_initial(&clip(2560, 1440, (60, 1), 30), &under(50_000_000));
    assert_eq!((p.width, p.height), (2560, 1440));
    assert_eq!((p.fps_num, p.fps_den), (60, 1));
    assert_eq!(p.video_bitrate_bps, 12_106_667);
}

#[test]
fn two_minutes_at_ten_megabytes() {
    let p = plan_initial(&clip(1920, 1080, (60, 1), 120), &under(10_000_000));
    assert_eq!(p.video_bitrate_bps, 453_333);
    assert_eq!((p.width, p.height), (854, 480));
}

#[test]
fn plan_spends_no_more_than_the_margin() {
    for seconds in [1u64, 7, 18, 30, 61, 120, 137] {
        let info = clip(2560, 1440, (60, 1), seconds);
        let opts = under(10_000_000);
        let p = plan_initial(&info, &opts);
        if p.video_bitrate_bps > MIN_VIDEO_BPS {
            let audio = match p.audio {
                AudioAction::Copy => assumed_audio_bps(&info),
                AudioAction::Reencode { bps } => bps,
                AudioAction::Drop => 0,
            };
            let bits = 2 * (p.video_bitrate_bps + audio) as u128 * info.duration_us as u128;
            assert!(bits <= 2 * 8 * 10_000_000u128 * 920_000 + info.duration_us as u128);
        }
    }
}

#[test]
fn never_more_than_the_source_had() {
    let mut info = clip(1280, 720, (30, 1), 10);
    info.video_bitrate_bps = 900_000;
    assert_eq!(plan_initial(&info, &under(50_000_000)).video_bitrate_bps, 900_000);
    // A source below the floor keeps its own rate, in every pass.
    for source in [1, 50_000, 100_000, MIN_VIDEO_BPS] {
        info.video_bitrate_bps = source;
        for max_bytes in [0, 10_000_000, 50_000_000] {
            let first = plan_initial(&info, &under(max_bytes));
            assert_eq!(first.video_bitrate_bps, source);
            assert_eq!(first.shrink(99_000_000, &info, &under(max_bytes)), first);
        }
        assert_eq!(target_video_bps(&info, &under(10_000_000), AudioAction::Drop), source);
    }
    // An unknown source rate is no ceiling.
    info.video_bitrate_bps = 0;
    assert_eq!(plan_initial(&info, &under(50_000_000)).video_bitrate_bps, 36_640_000);
}

#[test]
fn audio_is_copied_while_it_is_a_modest_share() {
    let mut info = clip(1920, 1080, (60, 1), 18);
    info.audio_bitrate_bps = 195_000;
    assert_eq!(choose_audio(&info, &under(10_000_000)), AudioAction::Copy);
    // Exactly at the share.
    info.audio_bitrate_bps = 160_000;
    info.duration_us = 138_000_000;
    assert_eq!(choose_audio(&info, &under(10_000_000)), AudioAction::Copy);
    info.duration_us = 138_000_001;
    assert_eq!(choose_audio(&info, &under(10_000_000)), AudioAction::Reencode { bps: 159_999 });
}

#[test]
fn audio_is_shrunk_when_it_would_eat_the_budget() {
    let mut info = clip(1920, 1080, (60, 1), 300);
    info.audio_bitrate_bps = 195_000;
    assert_eq!(choose_audio(&info, &under(10_000_000)), AudioAction::Reencode { bps: 73_600 });
    // Not below what is worth keeping.
    info.duration_us = 3_600_000_000;
    assert_eq!(
        choose_audio(&info, &under(10_000_000)),
        AudioAction::Reencode { bps: AUDIO_MIN_BPS }
    );
    // A source quieter than that keeps its own rate.
    info.audio_bitrate_bps = 32_000;
    assert_eq!(choose_audio(&info, &under(10_000_000)), AudioAction::Copy);
}

#[test]
fn several_tracks_are_mixed() {
    let mut info = clip(1920, 1080, (60, 1), 30);
    info.audio_tracks = 2;
    info.audio_bitrate_bps = 128_000;
    assert_eq!(choose_audio(&info, &under(10_000_000)), AudioAction::Reencode { bps: 128_000 });
    info.audio_bitrate_bps = 20_000;
    assert_eq!(choose_audio(&info, &under(10_000_000)), AudioAction::Reencode { bps: 48_000 });
}

#[test]
fn audio_is_dropped_where_there_is_none_or_none_is_wanted() {
    let mut info = clip(1920, 1080, (60, 1), 30);
    let mut opts = under(10_000_000);
    opts.include_audio = false;
    assert_eq!(choose_audio(&info, &opts), AudioAction::Drop);
    assert_eq!(target_video_bps(&info, &opts, AudioAction::Drop), 2_453_333);
    opts.include_audio = true;
    info.has_audio = false;
    assert_eq!(choose_audio(&info, &opts), AudioAction::Drop);
}

#[test]
fn unknown_audio_rate_is_taken_for_a_usual_one() {
    let mut info = clip(1920, 1080, (60, 1), 30);
    assert_eq!(assumed_audio_bps(&info), 160_000);
    info.audio_bitrate_bps = -5;
    assert_eq!(assumed_audio_bps(&info), 160_000);
    info.audio_bitrate_bps = 1;
    assert_eq!(assumed_audio_bps(&info), 1);
}

#[test]
fn clips_of_no_length_have_no_bound_but_the_source() {
    let mut info = clip(1920, 1080, (60, 1), 0);
    assert_eq!(choose_audio(&info, &under(10_000_000)), AudioAction::Copy);
    assert_eq!(plan_initial(&info, &under(10_000_000)).video_bitrate_bps, 98_000_000);
    info.video_bitrate_bps = 0;
    assert_eq!(plan_initial(&info, &under(10_000_000)).video_bitrate_bps, i64::MAX);
    assert_eq!(plan_initial(&info, &under(0)).video_bitrate_bps, MIN_VIDEO_BPS);
}

#[test]
fn ladder_steps() {
    let info = clip(3840, 2160, (60, 1), 30);
    assert_eq!(ladder_resolution(&info, 10_000_000), (3840, 2160));
    assert_eq!(ladder_resolution(&info, 9_999_999), (1920, 1080));
    assert_eq!(ladder_resolution(&info, 1_600_000), (1920, 1080));
    assert_eq!(ladder_resolution(&info, 1_599_999), (1280, 720));
    assert_eq!(ladder_resolution(&info, 700_000), (1280, 720));
    assert_eq!(ladder_resolution(&info, 699_999), (854, 480));
    assert_eq!(ladder_resolution(&info, -1), (854, 480));
}

#[test]
fn ultrawide_is_held_to_the_same_pixels() {
    let info = clip(3440, 1440, (60, 1), 30);
    assert_eq!(ladder_resolution(&info, 2_000_000), (2226, 932));
}

#[test]
fn small_and_odd_frames() {
    assert_eq!(ladder_resolution(&clip(1281, 721, (30, 1), 9), 2_000_000), (1280, 720));
    assert_eq!(ladder_resolution(&clip(1, 1, (30, 1), 9), 500_000), (2, 2));
    assert_eq!(ladder_resolution(&clip(-4, 0, (30, 1), 9), 500_000), (2, 2));
    assert_eq!(ladder_resolution(&clip(2, i32::MAX, (30, 1), 9), 500_000), (2, 20_979_710));
    assert_eq!(make_even(-7), 2);
    assert_eq!(make_even(2), 2);
    assert_eq!(make_even(3), 2);
    assert_eq!(make_even(1081), 1080);
}

#[test]
fn frames_are_never_enlarged_and_follow_the_bitrate() {
    for (w, h) in [(640, 360), (1920, 1080), (2560, 1440), (1080, 1920), (3441, 1441)] {
        let info = clip(w, h, (60, 1), 30);
        let mut last = (0, 0);
        for bps in [0i64, 699_999, 700_000, 1_600_000, 9_999_999, 10_000_000, 50_000_000] {
            let (x, y) = ladder_resolution(&info, bps);
            assert!(x <= w && y <= h && x % 2 == 0 && y % 2 == 0);
            assert!(x >= last.0 && y >= last.1);
            last = (x, y);
        }
    }
}

#[test]
fn ladder_is_the_nearest_whole_scaling() {
    for w in (2..4200).step_by(138) {
        for h in (2..2400).step_by(74) {
            let (x, y) = ladder_resolution(&clip(w, h, (30, 1), 9), 800_000);
            let pixels = (1280 * 720) as f64;
            let area = w as f64 * h as f64;
            let expected = if area <= pixels {
                (w, h)
            } else {
                let s = (pixels / area).sqrt();
                ((w as f64 * s).round() as i32, (h as f64 * s).round() as i32)
            };
            assert_eq!((x, y), (make_even(expected.0), make_even(expected.1)));
        }
    }
}

#[test]
fn resolution_can_be_held() {
    let info = clip(2561, 1440, (60, 1), 300);
    let mut opts = under(10_000_000);
    assert_eq!(choose_resolution(&info, &opts, 500_000), (854, 480));
    opts.keep_resolution = true;
    assert_eq!(choose_resolution(&info, &opts, 500_000), (2560, 1440));
}

#[test]
fn frame_rates_halve() {
    let opts = under(10_000_000);
    // Sixty wants three megabits.
    assert_eq!(choose_fps(&clip(2, 2, (60, 1), 1), &opts, 3_000_000), (60, 1));
    assert_eq!(choose_fps(&clip(2, 2, (60, 1), 1), &opts, 2_999_999), (60, 2));
    // 120 goes to 60 and then to 30; 144 goes to 72 and then to 36.
    assert_eq!(choose_fps(&clip(2, 2, (120, 1), 1), &opts, 4_000_000), (120, 2));
    assert_eq!(choose_fps(&clip(2, 2, (120, 1), 1), &opts, 2_000_000), (120, 4));
    assert_eq!(choose_fps(&clip(2, 2, (144, 1), 1), &opts, 4_000_000), (144, 2));
    assert_eq!(choose_fps(&clip(2, 2, (144, 1), 1), &opts, 100_000), (144, 4));
    // Exact on rationals.
    assert_eq!(choose_fps(&clip(2, 2, (60_000, 1001), 1), &opts, 2_000_000), (60_000, 2002));
    // Never below 24: 40 is left alone, and 48 may still be halved.
    assert_eq!(choose_fps(&clip(2, 2, (40, 1), 1), &opts, 100_000), (40, 1));
    assert_eq!(choose_fps(&clip(2, 2, (47, 1), 1), &opts, 100_000), (47, 1));
    assert_eq!(choose_fps(&clip(2, 2, (48, 1), 1), &opts, 100_000), (48, 2));
    // Broken rates are left alone.
    assert_eq!(choose_fps(&clip(2, 2, (0, 0), 1), &opts, 100_000), (0, 1));
    assert_eq!(choose_fps(&clip(2, 2, (-30, 1), 1), &opts, 100_000), (-30, 1));
    assert_eq!(choose_fps(&clip(2, 2, (i32::MAX, 1), 1), &opts, 0).1, 1 << 26);
}

#[test]
fn frame_rate_can_be_held() {
    let mut opts = under(10_000_000);
    opts.keep_fps = true;
    assert_eq!(choose_fps(&clip(2, 2, (60, 1), 1), &opts, 100_000), (60, 1));
    assert_eq!(choose_fps(&clip(2, 2, (60, -3), 1), &opts, 100_000), (60, 1));
}

#[test]
fn shrinking_follows_the_overshoot() {
    let info = clip(2560, 1440, (60, 1), 30);
    let opts = under(10_000_000);
    let first = plan_initial(&info, &opts);
    let next = first.shrink(12_000_000, &info, &opts);
    // 8.6 MB of video wanted, 11.4 MB there.
    assert_eq!(next.video_bitrate_bps, 1_730_058);
    assert_eq!(next.audio, first.audio);
    assert_eq!((next.width, next.height), (1920, 1080));
    let again = next.shrink(11_000_000, &info, &opts);
    assert_eq!(again.video_bitrate_bps, 1_430_625);
    assert_eq!((again.width, again.height), (1280, 720));
}

#[test]
fn shrinking_always_takes_something_off() {
    let info = clip(2560, 1440, (60, 1), 30);
    let opts = under(10_000_000);
    let first = plan_initial(&info, &opts);
    let next = first.shrink(9_200_001, &info, &opts);
    assert_eq!(next.video_bitrate_bps, 2_224_533);
    assert!(next.video_bitrate_bps < first.video_bitrate_bps);
}

#[test]
fn shrinking_stops_at_the_floor() {
    let info = clip(2560, 1440, (60, 1), 3600);
    let opts = under(10_000_000);
    let first = plan_initial(&info, &opts);
    assert_eq!(first.video_bitrate_bps, MIN_VIDEO_BPS);
    assert_eq!(first.shrink(99_000_000, &info, &opts), first);
    // Where audio alone is over the budget, the video gets what is left: a byte.
    let mut big = first;
    big.video_bitrate_bps = 5_000_000;
    assert_eq!(big.shrink(u64::MAX, &info, &opts).video_bitrate_bps, MIN_VIDEO_BPS);
    big.video_bitrate_bps = -1;
    assert_eq!(big.shrink(5, &info, &opts).video_bitrate_bps, MIN_VIDEO_BPS);
}

#[test]
fn shrinking_takes_any_numbers() {
    let mut info = clip(2560, 1440, (60, 1), 0);
    info.duration_us = u64::MAX;
    let opts = CompressOptions { max_bytes: u64::MAX, margin_ppm: u32::MAX, ..under(0) };
    let p = EncodePlan {
        width: 2,
        height: 2,
        fps_num: 30,
        fps_den: 1,
        video_bitrate_bps: i64::MAX,
        audio: AudioAction::Reencode { bps: i64::MIN },
    };
    assert_eq!(p.shrink(0, &info, &opts).video_bitrate_bps, 8_946_670_875_749_132_533);
    assert_eq!(p.shrink(u64::MAX, &info, &opts).video_bitrate_bps, 8_946_670_875_749_132_533);
}

#[test]
fn rates_agree_with_ordinary_arithmetic() {
    for max_bytes in [10_000_000u64, 50_000_000, 500_000_000] {
        for seconds in 1..900u64 {
            let info = clip(2560, 1440, (60, 1), seconds);
            let opts = under(max_bytes);
            let audio = choose_audio(&info, &opts);
            let rate = match audio {
                AudioAction::Copy => assumed_audio_bps(&info),
                AudioAction::Reencode { bps } => bps,
                AudioAction::Drop => 0,
            } as f64;
            let d = seconds as f64;
            let left = (max_bytes as f64 * 8.0 * 0.92 - rate * d).max(0.0);
            let expected = ((left / d).round() as i64).max(MIN_VIDEO_BPS).min(98_000_000);
            assert_eq!(target_video_bps(&info, &opts, audio), expected);
        }
    }
}

#[test]
fn the_limit_and_the_length_decide() {
    let info = clip(2560, 1440, (60, 1), 60);
    let mut last = 0;
    for max_bytes in [0, 1_000_000, 5_000_000, 10_000_000, 50_000_000] {
        let bps = target_video_bps(&info, &under(max_bytes), AudioAction::Copy);
        assert!(bps >= last);
        last = bps;
    }
    let mut last = i64::MAX;
    for seconds in [1, 10, 30, 60, 300, 3_000] {
        let long = clip(2560, 1440, (60, 1), seconds);
        let bps = target_video_bps(&long, &under(10_000_000), AudioAction::Copy);
        assert!(bps <= last);
        last = bps;
    }
}

#[test]
fn dropping_audio_buys_video() {
    for seconds in [5, 30, 120, 600] {
        let info = clip(1920, 1080, (60, 1), seconds);
        let with = plan_initial(&info, &under(10_000_000));
        let without = plan_initial(
            &info,
            &CompressOptions { include_audio: false, ..under(10_000_000) },
        );
        assert_eq!(without.audio, AudioAction::Drop);
        assert!(without.video_bitrate_bps >= with.video_bitrate_bps);
    }
    let info = clip(1920, 1080, (60, 1), 30);
    let opts = CompressOptions { include_audio: false, ..under(10_000_000) };
    assert_eq!(plan_initial(&info, &opts).video_bitrate_bps, 2_453_333);
}
