use squeeze::jobs::{budgets, clip_extension, is_video, Job, JobList, Settings, Shape, Status, Tone};
use squeeze::media::MediaInfo;
use squeeze::options::{CompressOptions, EncoderKind};
use squeeze::paths::{output_dir, output_name, output_path};
use squeeze::session::{compress_to_target, Progress};
use squeeze::timer::Timer;
use squeeze::theme::{has_all_pixels, lerp_color, load_picture, typefaces, Picture, Rgb};

const PNG: &[u8] = &[137, 80, 78, 71, 13, 10, 26, 10, 0, 0, 0, 13, 73, 72, 68, 82, 0, 0, 0, 2, 0, 0, 0, 2, 8, 6, 0, 0, 0, 114, 182, 13, 36, 0, 0, 0, 26, 73, 68, 65, 84, 120, 156, 99, 224, 18, 145, 251, 175, 97, 100, 211, 192, 192, 200, 196, 204, 194, 202, 198, 206, 1, 0, 30, 28, 2, 118, 6, 132, 191, 193, 0, 0, 0, 0, 73, 69, 78, 68, 174, 66, 96, 130];

fn shape(width: i32, height: i32, fps_num: i32, fps_den: i32) -> Shape {
    Shape { width, height, fps_num, fps_den }
}

fn job(source: Option<Shape>, status: Status) -> Job<&'static str> {
    Job { path: "clip.mp4", source_bytes: 45_600_000, source, status, timer: Timer::Idle }
}

#[test]
fn shapes_in_words() {
    assert_eq!(shape(1920, 1080, 60, 1).to_text(), "1920×1080 · 60 fps");
    assert_eq!(shape(2226, 932, 60_000, 2002).to_text(), "2226×932 · 30 fps");
    assert_eq!(shape(-1, 0, 53, 2).to_text(), "-1×0 · 26 fps");
    assert_eq!(shape(2, 2, 51, 2).to_text(), "2×2 · 26 fps");
    assert_eq!(shape(2, 2, -30, 0).to_text(), "2×2 · -30 fps");
}

#[test]
fn shapes_compare_by_value() {
    assert!(shape(1, 2, 60, 2).same(&shape(1, 2, 30, 1)));
    assert!(!shape(1, 2, 60, 2).same(&shape(1, 2, 60, 1)));
    assert!(!shape(1, 2, 60, 2).same(&shape(1, 4, 60, 2)));
    assert!(!shape(3, 2, 60, 2).same(&shape(1, 2, 60, 2)));
}

#[test]
fn clips_are_known_by_extension() {
    for e in ["mp4", "mkv", "mov", "avi", "webm", "flv", "m4v", "ts", "MP4", "WebM", "tS"] {
        assert!(is_video(Some(e)));
    }
    for e in ["", "mp3", "mp", "mp44", "txt", "м4v"] {
        assert!(!is_video(Some(e)));
    }
    assert!(!is_video(None));
}

#[test]
fn ceilings_to_pick_from() {
    let all: Vec<(&str, u64)> = budgets().iter().map(|b| (b.label, b.bytes)).collect();
    assert_eq!(all, vec![("10 MB", 10_000_000), ("50 MB", 50_000_000), ("500 MB", 500_000_000)]);
}

#[test]
fn clips_are_queued_under_the_settings_of_the_moment() {
    let mut list: JobList<String> = JobList::new();
    assert_eq!(list.settings, Settings::default());
    let a = list.enqueue(String::from("a.mp4"), Some("mp4"), 5, Ok(shape(4, 4, 30, 1))).unwrap();
    assert_eq!(a.id, 0);
    list.settings.max_bytes = 50_000_000;
    list.settings.keep_fps = true;
    list.settings.no_audio = true;
    assert!(list.enqueue(String::from("b.txt"), Some("txt"), 5, Ok(shape(4, 4, 30, 1))).is_none());
    assert!(list.enqueue(String::from("c.mkv"), Some("MKV"), 6, Err(String::from("bad"))).is_none());
    let d = list.enqueue(String::from("d.ts"), Some("ts"), 7, Ok(shape(8, 8, 30, 1))).unwrap();
    assert_eq!(d.id, 2);
    assert_eq!(a.settings.max_bytes, 10_000_000);
    assert_eq!(
        d.settings.options(),
        CompressOptions {
            max_bytes: 50_000_000,
            keep_fps: true,
            include_audio: false,
            ..CompressOptions::default()
        }
    );
    assert_eq!(list.jobs.len(), 3);
    assert!(matches!(list.jobs[0].status, Status::Queued));
    assert!(matches!(&list.jobs[1].status, Status::Failed(why) if why == "bad"));
    assert!(list.jobs[1].source.is_none());
    list.update(2, Status::Failed(String::from("gone")), 5);
    list.update(9, Status::Failed(String::from("nobody")), 6);
    assert!(matches!(list.jobs[0].status, Status::Queued));
    assert!(matches!(&list.jobs[2].status, Status::Failed(why) if why == "gone"));
    assert_eq!(list.jobs[2].path, "d.ts");
    assert_eq!(list.jobs[2].source_bytes, 7);
}

#[test]
fn rows_of_waiting_and_failed_clips() {
    let r = job(Some(shape(2560, 1440, 60, 1)), Status::Queued).row();
    assert_eq!(r.headline, "45.6 MB");
    assert_eq!(r.tone, Tone::Plain);
    assert_eq!(r.detail, "2560×1440 · 60 fps  ·  waiting");
    assert_eq!(r.bar_ppb, Some(0));
    assert!(r.remark.is_none() && r.error.is_none());
    let r = job(None, Status::Queued).row();
    assert_eq!(r.detail, "waiting");
    let r = job(None, Status::Failed(String::from("no video"))).row();
    assert_eq!((r.headline.as_str(), r.tone, r.detail.as_str()), ("failed", Tone::Bad, ""));
    assert_eq!(r.bar_ppb, None);
    assert_eq!(r.error.unwrap(), "no video");
}

#[test]
fn rows_of_running_clips() {
    let status = |pass| Status::Running {
        pass,
        max_passes: 3,
        fraction_ppb: 250_000_000,
        encoder: String::from("h264_nvenc"),
        out: shape(1920, 1080, 60, 2),
    };
    let r = job(Some(shape(2560, 1440, 60, 1)), status(1)).row();
    assert_eq!(r.detail, "2560×1440 · 60 fps → 1920×1080 · 30 fps  ·  h264_nvenc");
    assert_eq!(r.bar_ppb, Some(250_000_000));
    let r = job(Some(shape(1920, 1080, 30, 1)), status(2)).row();
    assert_eq!(r.detail, "1920×1080 · 30 fps  ·  h264_nvenc · pass 2/3");
}

#[test]
fn rows_of_finished_clips() {
    let status = |fits, copied, held_instead_of| Status::Done {
        bytes: 9_420_000,
        fits,
        out: shape(1920, 1080, 60, 2),
        copied,
        held_instead_of,
    };
    let r = job(None, status(true, false, None)).row();
    assert_eq!((r.headline.as_str(), r.tone), ("45.6 MB → 9.4 MB  ✔", Tone::Good));
    assert_eq!(r.detail, "1920×1080 · 30 fps");
    let r = job(None, status(false, false, Some((854, 480)))).row();
    assert_eq!((r.headline.as_str(), r.tone), ("45.6 MB → 9.4 MB  over limit", Tone::Warning));
    assert_eq!(r.remark.unwrap(), "the same bytes would go further at 854×480");
    let r = job(None, status(true, true, None)).row();
    assert_eq!(r.detail, "1920×1080 · 30 fps  ·  copied, already under the limit");
    assert_eq!(r.bar_ppb, None);
}

#[test]
fn statuses_follow_the_session() {
    let info = MediaInfo {
        width: 2560,
        height: 1440,
        fps_num: 60,
        fps_den: 1,
        duration_us: 30_000_000,
        video_bitrate_bps: 50_000_000,
        audio_bitrate_bps: 0,
        has_audio: true,
        audio_tracks: 1,
        video_codec: String::from("hevc"),
    };
    assert!(Shape::of_source(&info).same(&shape(2560, 1440, 60, 1)));
    let s = compress_to_target(info, String::from("o"), CompressOptions::default(), 99_000_000)
        .encoder_resolved(EncoderKind::X264, 0);
    match Status::of_pass(&s.pass_info(7).unwrap()) {
        Status::Running { pass, max_passes, fraction_ppb, encoder, out } => {
            assert_eq!((pass, max_passes, fraction_ppb), (1, 3, 7));
            assert_eq!(encoder, "libx264");
            assert!(out.same(&shape(1920, 1080, 30, 1)));
        }
        _ => panic!("not running"),
    }
    match s.measured(9_000_000) {
        Progress::Finished(o) => match Status::of_outcome(&o) {
            Status::Done { bytes, fits, out, copied, held_instead_of } => {
                assert_eq!((bytes, fits, copied, held_instead_of), (9_000_000, true, false, None));
                assert!(out.same(&shape(1920, 1080, 30, 1)));
            }
            _ => panic!("not done"),
        },
        Progress::Continue(_) => panic!("not finished"),
    }
}

#[test]
fn output_names() {
    assert_eq!(output_name(Some("clip")), "clip_discord.mp4");
    assert_eq!(output_name(None), "output_discord.mp4");
    assert_eq!(output_dir(Some("videos")), "videos");
    assert_eq!(output_dir(None), ".");
}

#[test]
fn output_goes_next_to_the_source() {
    let at = |dir: &str, name: &str| {
        std::path::Path::new(dir).join(name).to_string_lossy().into_owned()
    };
    assert_eq!(output_path("clip.mp4"), "clip_discord.mp4");
    assert_eq!(output_path("videos/clip.mkv"), at("videos", "clip_discord.mp4"));
    assert_eq!(output_path("videos/a.b.mp4"), at("videos", "a.b_discord.mp4"));
    assert_eq!(output_path("videos/noext"), at("videos", "noext_discord.mp4"));
    assert_eq!(output_path("./clip.mp4"), at(".", "clip_discord.mp4"));
    assert_eq!(output_path("../clip.mp4"), at("..", "clip_discord.mp4"));
    assert_eq!(output_path("a/../b./clip.mp4"), at("a/../b.", "clip_discord.mp4"));
    assert_eq!(output_path("/clip.mp4"), at("/", "clip_discord.mp4"));
    assert_eq!(output_path("videos/.hidden"), at("videos", ".hidden_discord.mp4"));
    assert_eq!(output_path("/"), at(".", "output_discord.mp4"));
    assert_eq!(output_path(".."), "output_discord.mp4");
}

#[test]
fn output_of_a_windows_path() {
    assert_eq!(output_path("C:\\Videos\\clip.mp4"), "C:\\Videos\\clip_discord.mp4");
    assert_eq!(output_path("C:\\my.clips\\a.b.mkv"), "C:\\my.clips\\a.b_discord.mp4");
}

#[test]
fn output_of_a_path_without_a_name() {
    let at = |dir: &str| {
        std::path::Path::new(dir).join("output_discord.mp4").to_string_lossy().into_owned()
    };
    assert_eq!(output_path(""), at("."));
    assert_eq!(output_path("/"), at("."));
    assert_eq!(output_path("/.."), at("/"));
    assert_eq!(output_path("videos/.."), at("videos"));
}

#[test]
fn clips_are_known_by_path() {
    let found = |path: &str| clip_extension(path);
    assert_eq!(found("videos/clip.MP4").unwrap(), "MP4");
    assert_eq!(found("C:\\Videos\\a.b.mkv").unwrap(), "mkv");
    for path in ["", "/", "..", "clip", ".mp4", "clip.", "a.mp4/notes", "clip.mp3", "x/.ts"] {
        assert!(found(path).is_none());
    }
}

#[test]
fn output_is_never_the_source() {
    for path in [
        "clip.mp4",
        "a/clip_discord.mp4",
        "C:\\Videos\\clip.mp4",
        "C:/clip.mp4",
        "a.b\\c/d\\..x.mkv",
        "a//b/./clip.",
    ] {
        let tail = path.rsplit(|c| c == '/' || c == '\\').next().unwrap();
        let stem = &tail[..tail.rfind('.').unwrap()];
        let before = &path[..path.len() - tail.len()];
        let out = output_path(path);
        assert_eq!(out, format!("{before}{stem}_discord.mp4"));
        assert_ne!(out, path);
    }
}

#[test]
fn gradients() {
    let cyan = Rgb { r: 0x0B, g: 0xDD, b: 0xE4 };
    let purple = Rgb { r: 0x4F, g: 0x27, b: 0xD3 };
    assert_eq!(lerp_color(cyan, purple, 0), cyan);
    assert_eq!(lerp_color(cyan, purple, 1_000_000_000), purple);
    assert_eq!(lerp_color(cyan, purple, 4_000_000_000), purple);
    assert_eq!(lerp_color(cyan, purple, 500_000_000), Rgb { r: 45, g: 130, b: 219 });
    assert_eq!(lerp_color(cyan, purple, 250_000_000), Rgb { r: 28, g: 175, b: 223 });
}

#[test]
fn typeface_pairings() {
    let t = typefaces(Some(String::from("inter")));
    assert_eq!((t.ui, t.mono), ("Inter", "JetBrainsMono"));
    for choice in [None, Some(String::from("Inter")), Some(String::new())] {
        let t = typefaces(choice);
        assert_eq!((t.ui, t.mono), ("IBMPlexSans", "IBMPlexMono"));
    }
}

#[test]
fn pictures_are_decoded() {
    let p = load_picture(PNG).unwrap();
    assert_eq!((p.width, p.height), (2, 2));
    assert_eq!(p.rgba, vec![10, 20, 30, 255, 40, 50, 60, 128, 1, 2, 3, 4, 5, 6, 7, 8]);
    assert!(load_picture(&PNG[..20]).is_none());
    assert!(load_picture(&[]).is_none());
    assert!(has_all_pixels(&p));
    assert!(!has_all_pixels(&Picture { width: 2, height: 2, rgba: vec![0; 15] }));
}

#[test]
fn timers_count_up_and_freeze() {
    let mut t = Timer::Idle;
    t.stop(3);
    assert_eq!(t, Timer::Idle);
    assert_eq!(t.elapsed(9), None);
    assert!(t.to_text(9).is_none());
    t.start(1_000);
    t.start(9_000);
    assert_eq!(t.elapsed(1_500), Some(500));
    assert_eq!(t.elapsed(500), Some(0));
    assert_eq!(t.to_text(1_000).unwrap(), "0:00");
    assert_eq!(t.to_text(66_999).unwrap(), "1:05");
    t.stop(761_000);
    assert_eq!(t, Timer::Stopped { elapsed_ms: 760_000 });
    assert_eq!(t.to_text(u64::MAX).unwrap(), "12:40");
    t.start(0);
    t.stop(0);
    assert_eq!(t.elapsed(0), Some(760_000));
}

#[test]
fn a_clip_is_timed_while_it_is_encoded() {
    let running = || Status::Running {
        pass: 1,
        max_passes: 3,
        fraction_ppb: 0,
        encoder: String::new(),
        out: shape(2, 2, 30, 1),
    };
    let mut list: JobList<u8> = JobList::new();
    list.enqueue(1, Some("mp4"), 5, Ok(shape(4, 4, 30, 1)));
    assert_eq!(list.jobs[0].timer, Timer::Idle);
    list.update(0, running(), 100);
    list.update(0, running(), 300);
    assert_eq!(list.jobs[0].timer, Timer::Running { since_ms: 100 });
    list.update(0, Status::Failed(String::from("x")), 1_100);
    assert_eq!(list.jobs[0].timer, Timer::Stopped { elapsed_ms: 1_000 });
}
