//! The list of clips a window shows: what is queued, what runs, how it went,
//! and the words for each.

use crate::arith;
use crate::media;
use crate::media::MediaInfo;
use crate::options::CompressOptions;
use crate::paths;
use crate::plan::EncodePlan;
use crate::session::{CompressOutcome, PassInfo};
use crate::text;
use crate::timer;
use crate::timer::Timer;
use vstd::prelude::*;

verus! {

// ---- shapes ----

/// Resolution and frame rate, for showing what a clip is and what it becomes.
#[derive(Clone, Copy, Debug)]
pub struct Shape {
    pub width: i32,
    pub height: i32,
    pub fps_num: i32,
    pub fps_den: i32,
}

/// Two shapes look the same: same frame, same rate however it is written.
pub open spec fn same_shape(a: Shape, b: Shape) -> bool {
    &&& a.width == b.width
    &&& a.height == b.height
    &&& a.fps_num * media::rate_den(b.fps_den) == b.fps_num * media::rate_den(a.fps_den)
}

/// A frame rate to the nearest whole number, a tie going to the even one.
pub open spec fn rate_text(num: int, den: int) -> Seq<char> {
    if num < 0 {
        "-"@ + text::digits(arith::rounded_even(-num, den))
    } else {
        text::digits(arith::rounded_even(num, den))
    }
}

/// A shape in words.
pub open spec fn shape_text(s: Shape) -> Seq<char> {
    text::decimal(s.width as int) + "×"@ + text::decimal(s.height as int) + " · "@ + rate_text(
        s.fps_num as int,
        media::rate_den(s.fps_den),
    ) + " fps"@
}

impl Shape {
    /// The shape of a source clip.
    pub fn of_source(info: &MediaInfo) -> (r: Shape)
        ensures
            r.width == info.width,
            r.height == info.height,
            r.fps_num == info.fps_num,
            r.fps_den == media::rate_den(info.fps_den),
    {
        let (fps_num, fps_den) = info.fps();
        Shape { width: info.width, height: info.height, fps_num, fps_den }
    }

    /// The shape that a plan asks for.
    pub fn of_plan(plan: &EncodePlan) -> (r: Shape)
        ensures
            r.width == plan.width,
            r.height == plan.height,
            r.fps_num == plan.fps_num,
            r.fps_den == media::rate_den(plan.fps_den),
    {
        let (fps_num, fps_den) = plan.fps();
        Shape { width: plan.width, height: plan.height, fps_num, fps_den }
    }

    /// Whether two shapes look the same.
    pub fn same(&self, other: &Shape) -> (r: bool)
        ensures
            r == same_shape(*self, *other),
    {
        let a: i64 = media::sound_den(self.fps_den) as i64;
        let b: i64 = media::sound_den(other.fps_den) as i64;
        assert(-0x8000_0000 * 0x7fff_ffff <= self.fps_num * b <= 0x7fff_ffff * 0x7fff_ffff)
            by (nonlinear_arith)
            requires
                -0x8000_0000 <= self.fps_num <= 0x7fff_ffff,
                1 <= b <= 0x7fff_ffff,
        ;
        assert(-0x8000_0000 * 0x7fff_ffff <= other.fps_num * a <= 0x7fff_ffff * 0x7fff_ffff)
            by (nonlinear_arith)
            requires
                -0x8000_0000 <= other.fps_num <= 0x7fff_ffff,
                1 <= a <= 0x7fff_ffff,
        ;
        self.width == other.width && self.height == other.height && (self.fps_num as i64) * b == (
        other.fps_num as i64) * a
    }

    /// This shape in words.
    pub fn to_text(&self) -> (r: String)
        ensures
            r@ == shape_text(*self),
    {
        let mut s = String::new();
        text::push_decimal(&mut s, self.width as i64);
        s.append("×");
        text::push_decimal(&mut s, self.height as i64);
        s.append(" · ");
        let den: u128 = media::sound_den(self.fps_den) as u128;
        if self.fps_num < 0 {
            s.append("-");
            let n: u128 = (-(self.fps_num as i64)) as u128;
            text::push_number(&mut s, text::div_even(n, den));
        } else {
            text::push_number(&mut s, text::div_even(self.fps_num as u128, den));
        }
        s.append(" fps");
        assert(s@ =~= shape_text(*self));
        s
    }
}

// ---- settings ----

/// An upload ceiling to pick from.
#[derive(Clone, Copy, Debug)]
pub struct Budget {
    pub label: &'static str,
    pub bytes: u64,
}

/// Discord's upload ceilings (free / Nitro Basic / Nitro).
pub fn budgets() -> (r: Vec<Budget>)
    ensures
        r.len() == 3,
        r[0].label@ == "10 MB"@ && r[0].bytes == 10_000_000,
        r[1].label@ == "50 MB"@ && r[1].bytes == 50_000_000,
        r[2].label@ == "500 MB"@ && r[2].bytes == 500_000_000,
{
    vec![
        Budget { label: "10 MB", bytes: 10_000_000 },
        Budget { label: "50 MB", bytes: 50_000_000 },
        Budget { label: "500 MB", bytes: 500_000_000 },
    ]
}

/// What the switches of the window say.
#[derive(Clone, Copy, Debug, PartialEq, Eq, Structural)]
pub struct Settings {
    pub max_bytes: u64,
    pub keep_fps: bool,
    pub keep_resolution: bool,
    pub no_audio: bool,
}

impl Default for Settings {
    /// The smallest ceiling, with nothing held back and the audio kept.
    fn default() -> (r: Self)
        ensures
            r == (Settings {
                max_bytes: 10_000_000,
                keep_fps: false,
                keep_resolution: false,
                no_audio: false,
            }),
    {
        Settings { max_bytes: 10_000_000, keep_fps: false, keep_resolution: false, no_audio: false }
    }
}

impl Settings {
    /// The options that a clip is compressed with under these settings.
    pub fn options(&self) -> (r: CompressOptions)
        ensures
            r == (CompressOptions {
                max_bytes: self.max_bytes,
                margin_ppm: 920_000,
                max_passes: 3,
                encoder: crate::options::Encoder::Auto,
                keep_fps: self.keep_fps,
                keep_resolution: self.keep_resolution,
                include_audio: !self.no_audio,
            }),
    {
        let mut opts = CompressOptions::default();
        opts.max_bytes = self.max_bytes;
        opts.keep_fps = self.keep_fps;
        opts.keep_resolution = self.keep_resolution;
        opts.include_audio = !self.no_audio;
        opts
    }
}

// ---- which files are clips ----

/// An ASCII letter in lower case; anything else as it is.
pub open spec fn lower_char(c: char) -> char {
    if 'A' <= c && c <= 'Z' {
        (c as u32 + 32) as char
    } else {
        c
    }
}

/// Text with its ASCII letters in lower case.
pub open spec fn ascii_lower(s: Seq<char>) -> Seq<char> {
    s.map_values(|c: char| lower_char(c))
}

/// A file extension that a clip may have, in lower case.
pub open spec fn is_clip_extension(e: Seq<char>) -> bool {
    ||| e == "mp4"@
    ||| e == "mkv"@
    ||| e == "mov"@
    ||| e == "avi"@
    ||| e == "webm"@
    ||| e == "flv"@
    ||| e == "m4v"@
    ||| e == "ts"@
}

fn lower_equals(s: &str, lower: &str) -> (r: bool)
    ensures
        r == (ascii_lower(s@) == lower@),
{
    let n: usize = s.unicode_len();
    if n != lower.unicode_len() {
        assert(ascii_lower(s@).len() == s@.len());
        return false;
    }
    let mut i: usize = 0;
    while i < n
        invariant
            i <= n,
            n == s@.len(),
            n == lower@.len(),
            forall|j: int| 0 <= j < i ==> lower_char(#[trigger] s@[j]) == lower@[j],
        decreases n - i,
    {
        let c: u32 = s.get_char(i) as u32;
        let d: u32 = lower.get_char(i) as u32;
        let folded: u32 = if 65 <= c && c <= 90 {
            c + 32
        } else {
            c
        };
        if folded != d {
            assert(ascii_lower(s@)[i as int] == lower_char(s@[i as int]));
            return false;
        }
        i = i + 1;
    }
    assert(ascii_lower(s@) =~= lower@);
    true
}

/// An extension that names a clip, whatever its case.
pub open spec fn names_clip(extension: Option<&str>) -> bool {
    extension matches Some(e) && is_clip_extension(ascii_lower(e@))
}

/// Whether a file is taken for a clip, by its extension, whatever its case.
pub fn is_video(extension: Option<&str>) -> (r: bool)
    ensures
        r == names_clip(extension),
{
    match extension {
        None => false,
        Some(e) => lower_equals(e, "mp4") || lower_equals(e, "mkv") || lower_equals(e, "mov")
            || lower_equals(e, "avi") || lower_equals(e, "webm") || lower_equals(e, "flv")
            || lower_equals(e, "m4v") || lower_equals(e, "ts"),
    }
}

/// The extension of a file, as it is written, where it names a clip. A file
/// without an extension is no clip.
pub fn clip_extension(path: &str) -> (r: Option<String>)
    ensures
        forall|before: Seq<char>, name: Seq<char>, stem: Seq<char>, extension: Seq<char>|
            #[trigger] paths::is_last_piece(path@, before, name)
                && #[trigger] paths::is_split_at_dot(name, stem, extension) ==> if is_clip_extension(
                ascii_lower(extension),
            ) {
                r matches Some(e) && e@ == extension
            } else {
                r is None
            },
        forall|before: Seq<char>, name: Seq<char>|
            #[trigger] paths::is_file_name(path@, before, name) && paths::is_all_stem(name)
                ==> r is None,
        paths::is_dead_end(path@) ==> r is None,
        r matches Some(e) ==> is_clip_extension(ascii_lower(e@)) && paths::is_part(e@, path@),
{
    match paths::file_extension(path) {
        Some(e) => if is_video(Some(e.as_str())) {
            Some(e)
        } else {
            None
        },
        None => None,
    }
}

// ---- the list ----

/// Where a clip stands.
#[derive(Debug)]
pub enum Status {
    Queued,
    Running { pass: u32, max_passes: u32, fraction_ppb: u32, encoder: String, out: Shape },
    Done { bytes: u64, fits: bool, out: Shape, copied: bool, held_instead_of: Option<(i32, i32)> },
    Failed(String),
}

/// One clip of the list. How its file is named is up to the list's owner.
#[derive(Debug)]
pub struct Job<P> {
    pub path: P,
    pub source_bytes: u64,
    /// What the clip is; `None` where it could not be read.
    pub source: Option<Shape>,
    pub status: Status,
    /// How long it has been encoding, or was.
    pub timer: Timer,
}

/// The order to encode one clip.
#[derive(Clone, Copy, Debug, PartialEq, Eq, Structural)]
pub struct Ticket {
    pub id: usize,
    pub settings: Settings,
}

/// The clips that were added, oldest first.
#[derive(Debug)]
pub struct JobList<P> {
    pub jobs: Vec<Job<P>>,
    pub settings: Settings,
}

impl<P> JobList<P> {
    /// No clips yet.
    pub fn new() -> (r: Self)
        ensures
            r.jobs@ == Seq::<Job<P>>::empty(),
            r.settings == (Settings {
                max_bytes: 10_000_000,
                keep_fps: false,
                keep_resolution: false,
                no_audio: false,
            }),
    {
        JobList { jobs: Vec::new(), settings: Settings::default() }
    }

    /// Add a file to the end of the list, with what probing it gave. A file that
    /// is no clip by its extension is passed over. A clip that was read is to be
    /// encoded under the settings of this moment; one that could not be read is
    /// listed as failed at once.
    pub fn enqueue(
        &mut self,
        path: P,
        extension: Option<&str>,
        source_bytes: u64,
        probed: Result<Shape, String>,
    ) -> (r: Option<Ticket>)
        ensures
            final(self).settings == old(self).settings,
            !names_clip(extension) ==> r is None && final(self).jobs@ == old(self).jobs@,
            names_clip(extension) ==> {
                &&& final(self).jobs@ == old(self).jobs@.push(
                    Job {
                        path,
                        source_bytes,
                        source: match probed {
                            Ok(shape) => Some(shape),
                            Err(_) => None,
                        },
                        status: match probed {
                            Ok(_) => Status::Queued,
                            Err(why) => Status::Failed(why),
                        },
                        timer: Timer::Idle,
                    },
                )
                &&& r == match probed {
                    Ok(_) => Some(
                        Ticket { id: old(self).jobs.len(), settings: old(self).settings },
                    ),
                    Err(_) => None,
                }
            },
    {
        if !is_video(extension) {
            return None;
        }
        let id: usize = self.jobs.len();
        match probed {
            Ok(shape) => {
                self.jobs.push(
                    Job {
                        path,
                        source_bytes,
                        source: Some(shape),
                        status: Status::Queued,
                        timer: Timer::Idle,
                    },
                );
                Some(Ticket { id, settings: self.settings })
            },
            Err(why) => {
                self.jobs.push(
                    Job {
                        path,
                        source_bytes,
                        source: None,
                        status: Status::Failed(why),
                        timer: Timer::Idle,
                    },
                );
                None
            },
        }
    }

    /// Note where a clip stands, at a time by the window's clock. A number that
    /// no clip has is passed over.
    pub fn update(&mut self, id: usize, status: Status, now_ms: u64)
        ensures
            final(self).settings == old(self).settings,
            id >= old(self).jobs.len() ==> final(self).jobs@ == old(self).jobs@,
            id < old(self).jobs.len() ==> final(self).jobs@ == old(self).jobs@.update(
                id as int,
                Job {
                    status,
                    timer: timer_after(old(self).jobs[id as int].timer, status, now_ms),
                    ..old(self).jobs[id as int]
                },
            ),
    {
        if id < self.jobs.len() {
            let mut t = self.jobs[id].timer;
            match &status {
                Status::Queued => {},
                Status::Running { .. } => t.start(now_ms),
                _ => t.stop(now_ms),
            }
            self.jobs[id].timer = t;
            self.jobs[id].status = status;
        }
    }
}

/// What a clip's timer becomes: it runs while the clip is encoded.
pub open spec fn timer_after(t: Timer, status: Status, now_ms: u64) -> Timer {
    match status {
        Status::Queued => t,
        Status::Running { .. } => timer::started(t, now_ms),
        _ => timer::stopped(t, now_ms),
    }
}

impl Status {
    /// Where a clip stands while a pass runs.
    pub fn of_pass(p: &PassInfo) -> (r: Status)
        ensures
            r matches Status::Running { pass, max_passes, fraction_ppb, encoder, out } && {
                &&& pass == p.pass
                &&& max_passes == p.max_passes
                &&& fraction_ppb == p.fraction_ppb
                &&& encoder@ == p.encoder@
                &&& out.width == p.plan.width
                &&& out.height == p.plan.height
                &&& out.fps_num == p.plan.fps_num
                &&& out.fps_den == media::rate_den(p.plan.fps_den)
            },
    {
        Status::Running {
            pass: p.pass,
            max_passes: p.max_passes,
            fraction_ppb: p.fraction_ppb,
            encoder: p.encoder.clone(),
            out: Shape::of_plan(&p.plan),
        }
    }

    /// Where a clip stands once it is finished with.
    pub fn of_outcome(o: &CompressOutcome) -> (r: Status)
        ensures
            r matches Status::Done { bytes, fits, out, copied, held_instead_of } && {
                &&& bytes == o.final_bytes
                &&& fits == o.fits
                &&& copied == o.remuxed
                &&& held_instead_of == o.held_instead_of
                &&& out.width == o.last_plan.width
                &&& out.height == o.last_plan.height
                &&& out.fps_num == o.last_plan.fps_num
                &&& out.fps_den == media::rate_den(o.last_plan.fps_den)
            },
    {
        Status::Done {
            bytes: o.final_bytes,
            fits: o.fits,
            out: Shape::of_plan(&o.last_plan),
            copied: o.remuxed,
            held_instead_of: o.held_instead_of,
        }
    }
}

// ---- words ----

/// How a row's headline is meant.
#[derive(Clone, Copy, Debug, PartialEq, Eq, Structural)]
pub enum Tone {
    Plain,
    Good,
    Warning,
    Bad,
}

/// The size on the right of a row, and how it is meant.
pub open spec fn headline_text(source_bytes: u64, status: Status) -> Seq<char> {
    match status {
        Status::Done { bytes, fits, .. } => text::mb_text(source_bytes as int) + " → "@
            + text::mb_text(bytes as int) + if fits {
            "  ✔"@
        } else {
            "  over limit"@
        },
        Status::Failed(_) => "failed"@,
        _ => text::mb_text(source_bytes as int),
    }
}

pub open spec fn headline_tone(status: Status) -> Tone {
    match status {
        Status::Done { fits, .. } => if fits {
            Tone::Good
        } else {
            Tone::Warning
        },
        Status::Failed(_) => Tone::Bad,
        _ => Tone::Plain,
    }
}

/// What the clip is and what it is becoming, so that a dropped resolution or a
/// halved frame rate is visible rather than a surprise.
pub open spec fn change_text(source: Option<Shape>, out: Shape) -> Seq<char> {
    match source {
        Some(src) if !same_shape(src, out) => shape_text(src) + " → "@ + shape_text(out),
        _ => shape_text(out),
    }
}

pub open spec fn shape_part(source: Option<Shape>, status: Status) -> Seq<char> {
    match status {
        Status::Running { out, .. } => change_text(source, out),
        Status::Done { out, .. } => change_text(source, out),
        _ => match source {
            Some(src) => shape_text(src),
            None => Seq::empty(),
        },
    }
}

pub open spec fn note_part(status: Status) -> Seq<char> {
    match status {
        Status::Queued => "waiting"@,
        Status::Running { pass, max_passes, encoder, .. } => if pass > 1 {
            encoder@ + " · pass "@ + text::digits(pass as int) + "/"@ + text::digits(
                max_passes as int,
            )
        } else {
            encoder@
        },
        Status::Done { copied: true, .. } => "copied, already under the limit"@,
        _ => Seq::empty(),
    }
}

/// Two parts with a dot between them, or the one there is.
pub open spec fn joined(a: Seq<char>, b: Seq<char>) -> Seq<char> {
    if a.len() == 0 {
        b
    } else if b.len() == 0 {
        a
    } else {
        a + "  ·  "@ + b
    }
}

/// The small print of a row.
pub open spec fn detail_text(source: Option<Shape>, status: Status) -> Seq<char> {
    joined(shape_part(source, status), note_part(status))
}

/// The remark on a frame that was held, naming the size it was held instead of.
pub open spec fn hold_remark(status: Status) -> Option<Seq<char>> {
    match status {
        Status::Done { held_instead_of: Some((w, h)), .. } => Some(
            "the same bytes would go further at "@ + text::decimal(w as int) + "×"@
                + text::decimal(h as int),
        ),
        _ => None,
    }
}

/// How far a row's bar is filled, `None` where it has none.
pub open spec fn bar_of(status: Status) -> Option<u32> {
    match status {
        Status::Queued => Some(0),
        Status::Running { fraction_ppb, .. } => Some(fraction_ppb),
        _ => None,
    }
}

/// Why a clip failed, `None` where it did not.
pub open spec fn failure_of(status: Status) -> Option<Seq<char>> {
    match status {
        Status::Failed(why) => Some(why@),
        _ => None,
    }
}

/// Everything a row shows beside the clip's name and its timer.
#[derive(Debug)]
pub struct RowText {
    pub headline: String,
    pub tone: Tone,
    pub detail: String,
    pub remark: Option<String>,
    pub bar_ppb: Option<u32>,
    pub error: Option<String>,
}

fn push_change(s: &mut String, source: &Option<Shape>, out: &Shape)
    ensures
        final(s)@ == old(s)@ + change_text(*source, *out),
{
    match source {
        Some(src) => if !src.same(out) {
            let from = src.to_text();
            s.append(from.as_str());
            s.append(" → ");
        },
        None => {},
    }
    let to = out.to_text();
    s.append(to.as_str());
    assert(s@ =~= old(s)@ + change_text(*source, *out));
}

fn push_note(s: &mut String, status: &Status)
    ensures
        final(s)@ == old(s)@ + note_part(*status),
{
    match status {
        Status::Queued => s.append("waiting"),
        Status::Running { pass, max_passes, encoder, .. } => {
            s.append(encoder.as_str());
            if *pass > 1 {
                s.append(" · pass ");
                text::push_number(s, *pass as u128);
                s.append("/");
                text::push_number(s, *max_passes as u128);
            }
        },
        Status::Done { copied, .. } => if *copied {
            s.append("copied, already under the limit");
        },
        Status::Failed(_) => {},
    }
    assert(s@ =~= old(s)@ + note_part(*status));
}

impl<P> Job<P> {
    fn headline(&self) -> (r: String)
        ensures
            r@ == headline_text(self.source_bytes, self.status),
    {
        match &self.status {
            Status::Done { bytes, fits, .. } => {
                let mut s = text::mb(self.source_bytes);
                s.append(" → ");
                let size = text::mb(*bytes);
                s.append(size.as_str());
                if *fits {
                    s.append("  ✔");
                } else {
                    s.append("  over limit");
                }
                s
            },
            Status::Failed(_) => "failed".to_owned(),
            _ => text::mb(self.source_bytes),
        }
    }

    fn tone(&self) -> (r: Tone)
        ensures
            r == headline_tone(self.status),
    {
        match &self.status {
            Status::Done { fits, .. } => if *fits {
                Tone::Good
            } else {
                Tone::Warning
            },
            Status::Failed(_) => Tone::Bad,
            _ => Tone::Plain,
        }
    }

    fn detail(&self) -> (r: String)
        ensures
            r@ == detail_text(self.source, self.status),
    {
        let mut shape = String::new();
        match &self.status {
            Status::Running { out, .. } => push_change(&mut shape, &self.source, out),
            Status::Done { out, .. } => push_change(&mut shape, &self.source, out),
            _ => match &self.source {
                Some(src) => {
                    let t = src.to_text();
                    shape.append(t.as_str());
                },
                None => {},
            },
        }
        assert(shape@ =~= shape_part(self.source, self.status));
        let mut note = String::new();
        push_note(&mut note, &self.status);
        assert(note@ =~= note_part(self.status));
        if shape.as_str().is_empty() {
            note
        } else if note.as_str().is_empty() {
            shape
        } else {
            shape.append("  ·  ");
            shape.append(note.as_str());
            shape
        }
    }

    fn remark(&self) -> (r: Option<String>)
        ensures
            match hold_remark(self.status) {
                Some(t) => r matches Some(s) && s@ == t,
                None => r is None,
            },
    {
        match &self.status {
            Status::Done { held_instead_of, .. } => match held_instead_of {
                Some((w, h)) => {
                    let mut s = "the same bytes would go further at ".to_owned();
                    text::push_decimal(&mut s, *w as i64);
                    s.append("×");
                    text::push_decimal(&mut s, *h as i64);
                    Some(s)
                },
                None => None,
            },
            _ => None,
        }
    }

    /// Everything this clip's row shows beside its name and its timer.
    pub fn row(&self) -> (r: RowText)
        ensures
            r.headline@ == headline_text(self.source_bytes, self.status),
            r.tone == headline_tone(self.status),
            r.detail@ == detail_text(self.source, self.status),
            match hold_remark(self.status) {
                Some(t) => r.remark matches Some(s) && s@ == t,
                None => r.remark is None,
            },
            r.bar_ppb == bar_of(self.status),
            match failure_of(self.status) {
                Some(t) => r.error matches Some(e) && e@ == t,
                None => r.error is None,
            },
    {
        let bar_ppb = match &self.status {
            Status::Queued => Some(0),
            Status::Running { fraction_ppb, .. } => Some(*fraction_ppb),
            _ => None,
        };
        let error = match &self.status {
            Status::Failed(why) => Some(why.clone()),
            _ => None,
        };
        RowText {
            headline: self.headline(),
            tone: self.tone(),
            detail: self.detail(),
            remark: self.remark(),
            bar_ppb,
            error,
        }
    }
}

// ---- laws ----

/// Two shapes look the same exactly when their frames do and their rates are
/// equal as fractions, a denominator below one counting as one.
pub proof fn law_same_shapes(a: Shape, b: Shape)
    ensures
        ({
            let p: int = if a.fps_den >= 1 {
                a.fps_den as int
            } else {
                1
            };
            let q: int = if b.fps_den >= 1 {
                b.fps_den as int
            } else {
                1
            };
            same_shape(a, b) <==> a.width == b.width && a.height == b.height && a.fps_num * q
                == b.fps_num * p
        }),
{
}

/// A shape names its frame, and its rate to the nearest whole number of frames
/// per second.
pub proof fn law_shapes_in_words(s: Shape) -> (rate: int)
    ensures
        ({
            let den: int = if s.fps_den >= 1 {
                s.fps_den as int
            } else {
                1
            };
            let num: int = if s.fps_num >= 0 {
                s.fps_num as int
            } else {
                -s.fps_num
            };
            &&& rate >= 0
            &&& 2 * num - den <= 2 * (rate * den) <= 2 * num + den
        }),
        shape_text(s) == text::decimal(s.width as int) + "×"@ + text::decimal(s.height as int)
            + " · "@ + (if s.fps_num < 0 {
            "-"@ + text::digits(rate)
        } else {
            text::digits(rate)
        }) + " fps"@,
{
    let den = media::rate_den(s.fps_den);
    if s.fps_num < 0 {
        text::lemma_even_bounds(-s.fps_num, den);
        arith::rounded_even(-s.fps_num, den)
    } else {
        text::lemma_even_bounds(s.fps_num as int, den);
        arith::rounded_even(s.fps_num as int, den)
    }
}

/// `e` is `lower`, in capitals or not.
pub open spec fn is_in_any_case(e: Seq<char>, lower: Seq<char>) -> bool {
    e.len() == lower.len() && forall|i: int|
        0 <= i < e.len() ==> #[trigger] e[i] == lower[i] || ('A' <= e[i] && e[i] <= 'Z' && e[i] as int
            + 32 == lower[i] as int)
}

/// A file is taken for a clip exactly when it has one of the eight extensions,
/// in capitals or not.
pub proof fn law_clips_by_extension(extension: Option<&str>)
    ensures
        extension is None ==> !names_clip(extension),
        extension matches Some(e) ==> (names_clip(extension) <==> {
            ||| is_in_any_case(e@, "mp4"@)
            ||| is_in_any_case(e@, "mkv"@)
            ||| is_in_any_case(e@, "mov"@)
            ||| is_in_any_case(e@, "avi"@)
            ||| is_in_any_case(e@, "webm"@)
            ||| is_in_any_case(e@, "flv"@)
            ||| is_in_any_case(e@, "m4v"@)
            ||| is_in_any_case(e@, "ts"@)
        }),
{
    if let Some(e) = extension {
        reveal_strlit("mp4");
        reveal_strlit("mkv");
        reveal_strlit("mov");
        reveal_strlit("avi");
        reveal_strlit("webm");
        reveal_strlit("flv");
        reveal_strlit("m4v");
        reveal_strlit("ts");
        lemma_any_case(e@, "mp4"@);
        lemma_any_case(e@, "mkv"@);
        lemma_any_case(e@, "mov"@);
        lemma_any_case(e@, "avi"@);
        lemma_any_case(e@, "webm"@);
        lemma_any_case(e@, "flv"@);
        lemma_any_case(e@, "m4v"@);
        lemma_any_case(e@, "ts"@);
    }
}

proof fn lemma_any_case(e: Seq<char>, lower: Seq<char>)
    requires
        forall|i: int| 0 <= i < lower.len() ==> !('A' <= #[trigger] lower[i] && lower[i] <= 'Z'),
    ensures
        ascii_lower(e) == lower <==> is_in_any_case(e, lower),
{
    assert(forall|i: int| 0 <= i < e.len() ==> ascii_lower(e)[i] == lower_char(#[trigger] e[i]));
    if is_in_any_case(e, lower) {
        assert forall|i: int| 0 <= i < e.len() implies ascii_lower(e)[i] == lower[i] by {
            assert(e[i] == lower[i] || e[i] as int + 32 == lower[i] as int);
            assert(!('A' <= lower[i] && lower[i] <= 'Z'));
        }
        assert(ascii_lower(e) =~= lower);
    }
    if ascii_lower(e) == lower {
        assert forall|i: int| 0 <= i < e.len() implies #[trigger] e[i] == lower[i] || ('A' <= e[i]
            && e[i] <= 'Z' && e[i] as int + 32 == lower[i] as int) by {
            assert(ascii_lower(e)[i] == lower_char(e[i]));
        }
    }
}

/// A row's headline. While a clip waits or runs it is the size of the source;
/// once done, that and the size of the output, with a tick where it fits and the
/// words `over limit` where it does not.
pub proof fn law_headlines(source_bytes: u64, status: Status)
    ensures
        status is Queued || status is Running ==> headline_text(source_bytes, status)
            == text::mb_text(source_bytes as int) && headline_tone(status) == Tone::Plain,
        status matches Status::Done { bytes, fits: true, .. } ==> headline_text(
            source_bytes,
            status,
        ) == text::mb_text(source_bytes as int) + " → "@ + text::mb_text(bytes as int) + "  ✔"@
            && headline_tone(status) == Tone::Good,
        status matches Status::Done { bytes, fits: false, .. } ==> headline_text(
            source_bytes,
            status,
        ) == text::mb_text(source_bytes as int) + " → "@ + text::mb_text(bytes as int)
            + "  over limit"@ && headline_tone(status) == Tone::Warning,
        status is Failed ==> headline_text(source_bytes, status) == "failed"@ && headline_tone(
            status,
        ) == Tone::Bad,
{
}

/// A row's small print. A clip that is becoming something else shows what it is
/// and what it becomes, one that stays as it is shows that once; behind it, that
/// it waits, the encoder and from the second pass on which pass it is, or that
/// it was copied. Where only one part has anything to say, it stands alone.
pub proof fn law_small_print(source: Option<Shape>, status: Status)
    ensures
        status matches Status::Running { out, .. } ==> shape_part(source, status)
            == shown_change(source, out),
        status matches Status::Done { out, .. } ==> shape_part(source, status) == shown_change(
            source,
            out,
        ),
        status is Queued || status is Failed ==> (source matches Some(s) ==> shape_part(
            source,
            status,
        ) == shape_text(s)) && (source is None ==> shape_part(source, status).len() == 0),
        status is Queued ==> note_part(status) == "waiting"@,
        status matches Status::Running { pass, encoder, .. } ==> (pass <= 1 ==> note_part(status)
            == encoder@),
        status matches Status::Running { pass, max_passes, encoder, .. } ==> (pass > 1 ==> note_part(
            status,
        ) == encoder@ + " · pass "@ + text::digits(pass as int) + "/"@ + text::digits(
            max_passes as int,
        )),
        status matches Status::Done { copied: true, .. } ==> note_part(status)
            == "copied, already under the limit"@,
        status matches Status::Done { copied: false, .. } ==> note_part(status).len() == 0,
        status is Failed ==> note_part(status).len() == 0,
        ({
            let (a, b) = (shape_part(source, status), note_part(status));
            &&& a.len() > 0 && b.len() > 0 ==> detail_text(source, status) == a + "  ·  "@ + b
            &&& a.len() == 0 ==> detail_text(source, status) == b
            &&& b.len() == 0 ==> detail_text(source, status) == a
        }),
{
    let (a, b) = (shape_part(source, status), note_part(status));
    if a.len() == 0 && b.len() == 0 {
        assert(a =~= b);
    }
}

/// The source and the output where they differ, and otherwise the output.
pub open spec fn shown_change(source: Option<Shape>, out: Shape) -> Seq<char> {
    if source is Some && !same_shape(source->0, out) {
        shape_text(source->0) + " → "@ + shape_text(out)
    } else {
        shape_text(out)
    }
}

/// A bar is shown while a clip waits, empty, and while it runs, as far as that
/// is; an error exactly where the clip failed; and a remark exactly where a
/// frame was held to no use, naming the smaller size.
pub proof fn law_bars_errors_and_remarks(status: Status)
    ensures
        status is Queued ==> bar_of(status) == Some(0u32),
        status matches Status::Running { fraction_ppb, .. } ==> bar_of(status) == Some(
            fraction_ppb,
        ),
        status is Done || status is Failed ==> bar_of(status) is None,
        status matches Status::Failed(why) ==> failure_of(status) == Some(why@),
        !(status is Failed) ==> failure_of(status) is None,
        status matches Status::Done { held_instead_of: Some((w, h)), .. } ==> hold_remark(status)
            == Some(
            "the same bytes would go further at "@ + text::decimal(w as int) + "×"@
                + text::decimal(h as int),
        ),
        !(status is Done) ==> hold_remark(status) is None,
        status matches Status::Done { held_instead_of: None, .. } ==> hold_remark(status) is None,
{
}

/// A clip's timer starts with its first report, runs on through the others, and
/// stops when the clip is done or has failed.
pub proof fn law_clips_are_timed(t: Timer, status: Status, now_ms: u64)
    ensures
        status is Queued ==> timer_after(t, status, now_ms) == t,
        status is Running && t is Idle ==> timer_after(t, status, now_ms) == (Timer::Running {
            since_ms: now_ms,
        }),
        status is Running && !(t is Idle) ==> timer_after(t, status, now_ms) == t,
        status is Done || status is Failed ==> !(timer_after(t, status, now_ms) is Running),
        !(status is Queued) && !(status is Running) ==> (t matches Timer::Running { since_ms }
            ==> (now_ms >= since_ms ==> timer_after(t, status, now_ms) == (Timer::Stopped {
            elapsed_ms: (now_ms - since_ms) as u64,
        }))),
        !(t is Running) && !(status is Running) ==> timer_after(t, status, now_ms) == t,
{
}

} // verus!
