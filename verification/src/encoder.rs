//! Choosing an H.264 encoder, and the settings each one is opened with.
//!
//! A name in the build says little: a hardware encoder is compiled in whether
//! or not the machine has the hardware, and only fails when opened. So the
//! choice is made by asking the machine, one question at a time; the functions
//! here say which question comes next and what the answers so far amount to.

use crate::arith;
use crate::errors::EngineError;
use crate::media;
use crate::options::{Encoder, EncoderKind};
use crate::plan::EncodePlan;
use vstd::prelude::*;

verus! {

/// FFmpeg's name of an encoder.
pub open spec fn encoder_name(kind: EncoderKind) -> Seq<char> {
    match kind {
        EncoderKind::Nvenc => "h264_nvenc"@,
        EncoderKind::X264 => "libx264"@,
        EncoderKind::OpenH264 => "libopenh264"@,
    }
}

impl EncoderKind {
    /// FFmpeg's name of this encoder.
    pub fn name(self) -> (r: &'static str)
        ensures
            r@ == encoder_name(self),
    {
        match self {
            EncoderKind::Nvenc => "h264_nvenc",
            EncoderKind::X264 => "libx264",
            EncoderKind::OpenH264 => "libopenh264",
        }
    }
}

/// The encoders a choice allows, in order of preference.
pub open spec fn candidates(choice: Encoder) -> Seq<EncoderKind> {
    match choice {
        Encoder::Auto => seq![EncoderKind::Nvenc, EncoderKind::X264, EncoderKind::OpenH264],
        Encoder::Nvenc => seq![EncoderKind::Nvenc],
        Encoder::X264 => seq![EncoderKind::X264],
        Encoder::OpenH264 => seq![EncoderKind::OpenH264],
    }
}

/// Where choosing an encoder stands.
#[derive(Clone, Copy, Debug, PartialEq, Eq, Structural)]
pub enum Resolution {
    /// Ask whether this candidate works: that it opens, or only that the build
    /// has it.
    Ask { candidate: EncoderKind, must_open: bool },
    /// Encode with this one.
    Use { chosen: EncoderKind },
    /// The one asked for by name is not in the build, or no candidate works on
    /// this machine.
    Failed { why: EngineError },
}

/// The place of the first yes, or how many answers there are.
pub open spec fn first_yes(answers: Seq<bool>, from: int) -> int
    decreases answers.len() - from,
{
    if from < 0 || from >= answers.len() || answers[from] {
        from
    } else {
        first_yes(answers, from + 1)
    }
}

/// What the answers so far amount to.
pub open spec fn resolution(choice: Encoder, answers: Seq<bool>) -> Resolution {
    let all = candidates(choice);
    let yes = first_yes(answers, 0);
    if yes < answers.len() && yes < all.len() {
        Resolution::Use { chosen: all[yes] }
    } else if answers.len() < all.len() {
        Resolution::Ask {
            candidate: all[answers.len() as int],
            must_open: choice == Encoder::Auto,
        }
    } else if choice == Encoder::Auto {
        Resolution::Failed { why: EngineError::NoUsableEncoder }
    } else {
        Resolution::Failed { why: EngineError::EncoderMissing { wanted: all[0] } }
    }
}

fn candidate_list(choice: Encoder) -> (r: Vec<EncoderKind>)
    ensures
        r@ == candidates(choice),
{
    match choice {
        Encoder::Auto => vec![EncoderKind::Nvenc, EncoderKind::X264, EncoderKind::OpenH264],
        Encoder::Nvenc => vec![EncoderKind::Nvenc],
        Encoder::X264 => vec![EncoderKind::X264],
        Encoder::OpenH264 => vec![EncoderKind::OpenH264],
    }
}

fn index_of_yes(answers: &Vec<bool>) -> (r: usize)
    ensures
        r == first_yes(answers@, 0),
        r <= answers.len(),
{
    let mut i: usize = 0;
    while i < answers.len() && !answers[i]
        invariant
            i <= answers.len(),
            first_yes(answers@, i as int) == first_yes(answers@, 0),
        decreases answers.len() - i,
    {
        i = i + 1;
    }
    i
}

/// Pick the first encoder that works among those the choice allows, given the
/// answers so far, one to each question asked. With `Auto` a candidate works
/// when it opens; one asked for by name only has to be in the build, so that
/// its real open error is seen rather than a silent substitution.
pub fn resolve_encoder(choice: Encoder, answers: &Vec<bool>) -> (r: Resolution)
    ensures
        r == resolution(choice, answers@),
{
    let all = candidate_list(choice);
    let yes: usize = index_of_yes(answers);
    if yes < answers.len() && yes < all.len() {
        return Resolution::Use { chosen: all[yes] };
    }
    if answers.len() < all.len() {
        return Resolution::Ask {
            candidate: all[answers.len()],
            must_open: choice == Encoder::Auto,
        };
    }
    if choice == Encoder::Auto {
        Resolution::Failed { why: EngineError::NoUsableEncoder }
    } else {
        Resolution::Failed { why: EngineError::EncoderMissing { wanted: all[0] } }
    }
}

// ---- does it open ----

/// One question about a candidate.
#[derive(Clone, Copy, Debug, PartialEq, Eq, Structural)]
pub enum Probe {
    /// Can the NVIDIA runtime be loaded at all?
    RuntimePresent,
    /// Does the build have the encoder?
    InBuild,
    /// Does it open with a minimal configuration?
    Opens,
}

/// The questions that decide whether a candidate opens, in order. NVENC is
/// never handed to FFmpeg on a machine without the NVIDIA runtime: opening it
/// there can bring the process down.
pub open spec fn probes(kind: EncoderKind) -> Seq<Probe> {
    match kind {
        EncoderKind::Nvenc => seq![Probe::RuntimePresent, Probe::InBuild, Probe::Opens],
        _ => seq![Probe::InBuild, Probe::Opens],
    }
}

/// Why a candidate was passed over, or that it was not.
pub open spec fn probe_outcome(failed: Option<Probe>) -> Seq<char> {
    match failed {
        Some(Probe::RuntimePresent) => "skipped, no NVIDIA runtime"@,
        Some(Probe::InBuild) => "not in this build"@,
        Some(Probe::Opens) => "would not open"@,
        None => "opened"@,
    }
}

/// Where probing one candidate stands.
#[derive(Clone, Copy, Debug, PartialEq, Eq, Structural)]
pub enum ProbeStep {
    Ask { probe: Probe },
    /// The candidate does not open: this is the question it failed.
    Rejected { failed: Probe },
    Accepted,
}

/// What the answers about one candidate amount to.
pub open spec fn probe_step(kind: EncoderKind, answers: Seq<bool>) -> ProbeStep {
    let all = probes(kind);
    let no = first_yes(answers.map_values(|yes: bool| !yes), 0);
    if no < answers.len() && no < all.len() {
        ProbeStep::Rejected { failed: all[no] }
    } else if answers.len() < all.len() {
        ProbeStep::Ask { probe: all[answers.len() as int] }
    } else {
        ProbeStep::Accepted
    }
}

fn probe_list(kind: EncoderKind) -> (r: Vec<Probe>)
    ensures
        r@ == probes(kind),
{
    match kind {
        EncoderKind::Nvenc => vec![Probe::RuntimePresent, Probe::InBuild, Probe::Opens],
        _ => vec![Probe::InBuild, Probe::Opens],
    }
}

/// Whether a candidate opens, given the answers so far: the first no rejects
/// it, and only with every question answered yes is it accepted.
pub fn encoder_opens(kind: EncoderKind, answers: &Vec<bool>) -> (r: ProbeStep)
    ensures
        r == probe_step(kind, answers@),
{
    let all = probe_list(kind);
    let ghost flipped = answers@.map_values(|yes: bool| !yes);
    let mut i: usize = 0;
    while i < answers.len() && answers[i]
        invariant
            i <= answers.len(),
            flipped == answers@.map_values(|yes: bool| !yes),
            first_yes(flipped, i as int) == first_yes(flipped, 0),
        decreases answers.len() - i,
    {
        i = i + 1;
    }
    if i < answers.len() && i < all.len() {
        ProbeStep::Rejected { failed: all[i] }
    } else if answers.len() < all.len() {
        ProbeStep::Ask { probe: all[answers.len()] }
    } else {
        ProbeStep::Accepted
    }
}

/// A probe's result in words, for tracing.
pub fn trace_probe(failed: Option<Probe>) -> (r: &'static str)
    ensures
        r@ == probe_outcome(failed),
{
    match failed {
        Some(Probe::RuntimePresent) => "skipped, no NVIDIA runtime",
        Some(Probe::InBuild) => "not in this build",
        Some(Probe::Opens) => "would not open",
        None => "opened",
    }
}

/// What a machine runs.
#[derive(Clone, Copy, Debug, PartialEq, Eq, Structural)]
pub enum Platform {
    Windows,
    Linux,
    Other,
}

/// The library that ships with NVIDIA's display driver, which NVENC needs
/// before it needs anything of its own. `None` where there is no NVENC.
pub open spec fn runtime_library_name(platform: Platform) -> Option<Seq<char>> {
    match platform {
        Platform::Windows => Some("nvcuda.dll"@),
        Platform::Linux => Some("libcuda.so.1"@),
        Platform::Other => None,
    }
}

/// The library to try to load when asking for the NVIDIA runtime.
pub fn runtime_library(platform: Platform) -> (r: Option<&'static str>)
    ensures
        match runtime_library_name(platform) {
            Some(name) => r matches Some(s) && s@ == name,
            None => r is None,
        },
{
    match platform {
        Platform::Windows => Some("nvcuda.dll"),
        Platform::Linux => Some("libcuda.so.1"),
        Platform::Other => None,
    }
}

/// Whether the NVIDIA runtime can be loaded at all, given whether the library
/// of the platform could be. Loading it ourselves is a question FFmpeg is never
/// asked, so it cannot answer it badly.
pub fn nvidia_runtime_present(platform: Platform, library_loads: bool) -> (r: bool)
    ensures
        r == (runtime_library_name(platform) is Some && library_loads),
{
    match platform {
        Platform::Other => false,
        _ => library_loads,
    }
}

// ---- settings ----

/// Private options of an encoder, as name and value, in the order they are set.
pub open spec fn option_list(kind: EncoderKind) -> Seq<(Seq<char>, Seq<char>)> {
    match kind {
        EncoderKind::Nvenc => seq![
            ("preset"@, "p5"@),
            ("tune"@, "hq"@),
            ("rc"@, "vbr"@),
            ("multipass"@, "fullres"@),
            ("profile"@, "high"@),
            ("spatial-aq"@, "1"@),
            ("temporal-aq"@, "1"@),
            ("b_ref_mode"@, "middle"@),
            ("rc-lookahead"@, "20"@),
        ],
        EncoderKind::X264 => seq![("preset"@, "medium"@), ("profile"@, "high"@)],
        EncoderKind::OpenH264 => seq![("rc_mode"@, "bitrate"@), ("allow_skip_frames"@, "1"@)],
    }
}

/// Private options of an encoder. OpenH264 left at its default targets quality
/// and ignores the bitrate, so the size loop could not converge; asking for the
/// bitrate mode and letting it drop frames is the trade wanted here.
pub fn encoder_options(kind: EncoderKind) -> (r: Vec<(&'static str, &'static str)>)
    ensures
        r@.map_values(|p: (&'static str, &'static str)| (p.0@, p.1@)) == option_list(kind),
{
    let r: Vec<(&'static str, &'static str)> = match kind {
        EncoderKind::Nvenc => vec![
            ("preset", "p5"),
            ("tune", "hq"),
            ("rc", "vbr"),
            ("multipass", "fullres"),
            ("profile", "high"),
            ("spatial-aq", "1"),
            ("temporal-aq", "1"),
            ("b_ref_mode", "middle"),
            ("rc-lookahead", "20"),
        ],
        EncoderKind::X264 => vec![("preset", "medium"), ("profile", "high")],
        EncoderKind::OpenH264 => vec![("rc_mode", "bitrate"), ("allow_skip_frames", "1")],
    };
    assert(r@.map_values(|p: (&'static str, &'static str)| (p.0@, p.1@)) =~= option_list(kind));
    r
}

/// What a video encoder is opened with. Rationals are numerator, denominator.
#[derive(Clone, Copy, Debug, PartialEq, Eq)]
pub struct VideoSettings {
    pub width: i32,
    pub height: i32,
    pub time_base: (i32, i32),
    pub framerate: (i32, i32),
    pub bit_rate: i64,
    pub gop_size: i32,
    pub max_b_frames: i32,
    pub rc_max_rate: i64,
    pub rc_buffer_size: i32,
}

/// `x` brought into the range of `i32`.
pub open spec fn clamped_i32(x: int) -> int {
    arith::smaller(arith::larger(x, i32::MIN as int), i32::MAX as int)
}

/// `x` brought into the range of `i64`.
pub open spec fn clamped_i64(x: int) -> int {
    arith::smaller(arith::larger(x, i64::MIN as int), i64::MAX as int)
}

/// Key frames every two seconds, to the nearest frame, and at least every one.
pub open spec fn gop_of(plan: EncodePlan) -> int {
    arith::larger(
        clamped_i32(arith::rounded_away(2 * plan.fps_num, media::rate_den(plan.fps_den))),
        1,
    )
}

/// What the encoder is opened with for a plan.
///
/// The rate ceiling is deliberately loose: twice the average, over a buffer of
/// four seconds' average. A tight one starves keyframes at the low rates used
/// here; a loose one still keeps a pass from overshooting badly, and leaves
/// room to spend bits on a hard scene.
pub open spec fn settings_for(plan: EncodePlan, kind: EncoderKind) -> VideoSettings {
    VideoSettings {
        width: plan.width,
        height: plan.height,
        time_base: (media::rate_den(plan.fps_den) as i32, plan.fps_num),
        framerate: (plan.fps_num, media::rate_den(plan.fps_den) as i32),
        bit_rate: plan.video_bitrate_bps,
        gop_size: gop_of(plan) as i32,
        max_b_frames: if kind == EncoderKind::OpenH264 {
            0
        } else {
            3
        },
        rc_max_rate: clamped_i64(2 * plan.video_bitrate_bps) as i64,
        rc_buffer_size: clamped_i32(4 * plan.video_bitrate_bps) as i32,
    }
}

fn clamp_i32(x: i128) -> (r: i32)
    ensures
        r == clamped_i32(x as int),
{
    if x >= i32::MAX as i128 {
        i32::MAX
    } else if x <= i32::MIN as i128 {
        i32::MIN
    } else {
        x as i32
    }
}

fn clamp_i64(x: i128) -> (r: i64)
    ensures
        r == clamped_i64(x as int),
{
    if x >= i64::MAX as i128 {
        i64::MAX
    } else if x <= i64::MIN as i128 {
        i64::MIN
    } else {
        x as i64
    }
}

fn gop_size(plan: &EncodePlan) -> (r: i32)
    ensures
        r == gop_of(*plan),
{
    let den: u128 = media::sound_den(plan.fps_den) as u128;
    let twice: i64 = 2 * (plan.fps_num as i64);
    let frames: i32 = if twice >= 0 {
        let q: u128 = arith::div_round(twice as u128, den);
        proof {
            lemma_rounded_no_larger(twice as int, den as int);
        }
        clamp_i32(q as i128)
    } else {
        let q: u128 = arith::div_round((-twice) as u128, den);
        proof {
            lemma_rounded_no_larger(-twice as int, den as int);
        }
        clamp_i32(-(q as i128))
    };
    if frames >= 1 {
        frames
    } else {
        1
    }
}

proof fn lemma_rounded_no_larger(n: int, d: int)
    requires
        n >= 0,
        d >= 1,
    ensures
        0 <= arith::rounded(n, d) <= n,
{
    arith::lemma_rounded_monotone(0, n, d);
    arith::lemma_rounded_parts(0, d, 0, 0);
    assert(n <= n * d) by (nonlinear_arith)
        requires
            n >= 0,
            d >= 1,
    ;
    arith::lemma_rounded_monotone(n, n * d, d);
    arith::lemma_rounded_parts(n * d, d, n, 0);
}

/// What the encoder is opened with for a plan.
pub fn video_settings(plan: &EncodePlan, kind: EncoderKind) -> (r: VideoSettings)
    ensures
        r == settings_for(*plan, kind),
{
    let den: i32 = media::sound_den(plan.fps_den);
    VideoSettings {
        width: plan.width,
        height: plan.height,
        time_base: (den, plan.fps_num),
        framerate: (plan.fps_num, den),
        bit_rate: plan.video_bitrate_bps,
        gop_size: gop_size(plan),
        max_b_frames: if kind == EncoderKind::OpenH264 {
            0
        } else {
            3
        },
        rc_max_rate: clamp_i64(2 * (plan.video_bitrate_bps as i128)),
        rc_buffer_size: clamp_i32(4 * (plan.video_bitrate_bps as i128)),
    }
}

/// The least configuration that shows whether an encoder opens.
#[derive(Clone, Copy, Debug, PartialEq, Eq)]
pub struct ProbeSettings {
    pub width: i32,
    pub height: i32,
    pub time_base: (i32, i32),
    pub framerate: (i32, i32),
    pub bit_rate: i64,
}

/// A small frame at thirty a second and a modest rate.
pub fn probe_settings() -> (r: ProbeSettings)
    ensures
        r == (ProbeSettings {
            width: 320,
            height: 240,
            time_base: (1, 30),
            framerate: (30, 1),
            bit_rate: 200_000,
        }),
{
    ProbeSettings {
        width: 320,
        height: 240,
        time_base: (1, 30),
        framerate: (30, 1),
        bit_rate: 200_000,
    }
}

// ---- laws ----

/// `Auto` prefers NVENC, then libx264, then libopenh264: an encoder is chosen
/// exactly when it works and every one before it was found not to.
pub proof fn law_preference_order(choice: Encoder, answers: Seq<bool>, i: int)
    requires
        0 <= i < candidates(choice).len(),
        i < answers.len(),
        answers[i],
        forall|j: int| 0 <= j < i ==> !answers[j],
    ensures
        resolution(choice, answers) == (Resolution::Use { chosen: candidates(choice)[i] }),
{
    lemma_first_yes_is(answers, 0, i);
}

proof fn lemma_first_yes_is(answers: Seq<bool>, from: int, i: int)
    requires
        0 <= from <= i < answers.len(),
        answers[i],
        forall|j: int| from <= j < i ==> !answers[j],
    ensures
        first_yes(answers, from) == i,
    decreases i - from,
{
    if from < i {
        lemma_first_yes_is(answers, from + 1, i);
    }
}

proof fn lemma_first_yes(answers: Seq<bool>, from: int)
    requires
        0 <= from <= answers.len(),
    ensures
        from <= first_yes(answers, from) <= answers.len(),
        first_yes(answers, from) < answers.len() ==> answers[first_yes(answers, from)],
        forall|j: int| from <= j < first_yes(answers, from) ==> !answers[j],
    decreases answers.len() - from,
{
    if from < answers.len() && !answers[from] {
        lemma_first_yes(answers, from + 1);
    }
}

/// Only an encoder that the choice allows, and that was found to work, is ever
/// used: one asked for by name is never replaced by another.
pub proof fn law_no_substitution(choice: Encoder, answers: Seq<bool>)
    ensures
        resolution(choice, answers) matches Resolution::Use { chosen } ==> {
            &&& exists|i: int|
                0 <= i < candidates(choice).len() && i < answers.len() && #[trigger] answers[i]
                    && chosen == candidates(choice)[i]
            &&& choice == Encoder::Nvenc ==> chosen == EncoderKind::Nvenc
            &&& choice == Encoder::X264 ==> chosen == EncoderKind::X264
            &&& choice == Encoder::OpenH264 ==> chosen == EncoderKind::OpenH264
        },
{
    lemma_first_yes(answers, 0);
    let yes = first_yes(answers, 0);
    if yes < answers.len() && yes < candidates(choice).len() {
        assert(answers[yes]);
    }
}

/// Choosing fails only when every candidate was asked about and none works.
pub proof fn law_failure_means_all_failed(choice: Encoder, answers: Seq<bool>)
    ensures
        resolution(choice, answers) is Failed <==> {
            &&& answers.len() >= candidates(choice).len()
            &&& forall|i: int| 0 <= i < candidates(choice).len() ==> !answers[i]
        },
{
    lemma_first_yes(answers, 0);
    let n = candidates(choice).len();
    if answers.len() >= n && forall|i: int| 0 <= i < n ==> !answers[i] {
        let yes = first_yes(answers, 0);
        if yes < n {
            assert(answers[yes]);
        }
    }
}

/// NVENC is never opened, nor even looked up, on a machine where the NVIDIA
/// runtime has not been found.
pub proof fn law_nvenc_waits_for_runtime(answers: Seq<bool>)
    ensures
        probe_step(EncoderKind::Nvenc, answers) matches ProbeStep::Ask { probe } ==> probe
            == Probe::RuntimePresent || answers.len() >= 1 && answers[0],
        probe_step(EncoderKind::Nvenc, answers) == ProbeStep::Accepted ==> answers.len() >= 3
            && answers[0] && answers[1] && answers[2],
{
    let flipped = answers.map_values(|yes: bool| !yes);
    lemma_first_yes(flipped, 0);
    assert(forall|i: int| 0 <= i < answers.len() ==> flipped[i] == !answers[i]);
}

/// With `Auto`, NVENC is asked about first, then libx264, then libopenh264, and
/// each has to open. The first that does is used; where none does, there is no
/// usable encoder.
pub proof fn law_auto_takes_the_first_that_opens(answers: Seq<bool>)
    ensures
        ({
            let r = resolution(Encoder::Auto, answers);
            let n = answers.len();
            &&& n == 0 ==> r == (Resolution::Ask {
                candidate: EncoderKind::Nvenc,
                must_open: true,
            })
            &&& n >= 1 && answers[0] ==> r == (Resolution::Use { chosen: EncoderKind::Nvenc })
            &&& n >= 1 && !answers[0] ==> {
                &&& n == 1 ==> r == (Resolution::Ask {
                    candidate: EncoderKind::X264,
                    must_open: true,
                })
                &&& n >= 2 && answers[1] ==> r == (Resolution::Use { chosen: EncoderKind::X264 })
                &&& n >= 2 && !answers[1] ==> {
                    &&& n == 2 ==> r == (Resolution::Ask {
                        candidate: EncoderKind::OpenH264,
                        must_open: true,
                    })
                    &&& n >= 3 && answers[2] ==> r == (Resolution::Use {
                        chosen: EncoderKind::OpenH264,
                    })
                    &&& n >= 3 && !answers[2] ==> r == (Resolution::Failed {
                        why: EngineError::NoUsableEncoder,
                    })
                }
            }
        }),
{
    lemma_first_yes(answers, 0);
    reveal_with_fuel(first_yes, 4);
}

/// An encoder asked for by name only has to be in the build: it is used where it
/// is, and reported missing, by its own name, where it is not.
pub proof fn law_named_encoder_is_used_or_missing(
    choice: Encoder,
    kind: EncoderKind,
    answers: Seq<bool>,
)
    requires
        match choice {
            Encoder::Auto => false,
            Encoder::Nvenc => kind == EncoderKind::Nvenc,
            Encoder::X264 => kind == EncoderKind::X264,
            Encoder::OpenH264 => kind == EncoderKind::OpenH264,
        },
    ensures
        ({
            let r = resolution(choice, answers);
            &&& answers.len() == 0 ==> r == (Resolution::Ask { candidate: kind, must_open: false })
            &&& answers.len() > 0 && answers[0] ==> r == (Resolution::Use { chosen: kind })
            &&& answers.len() > 0 && !answers[0] ==> r == (Resolution::Failed {
                why: EngineError::EncoderMissing { wanted: kind },
            })
        }),
{
    lemma_first_yes(answers, 0);
    reveal_with_fuel(first_yes, 2);
}

/// A candidate is looked up in the build before it is opened, and NVENC's
/// runtime before either. The first no rejects it, with that question; it is
/// accepted exactly when every question was answered yes.
pub proof fn law_candidates_are_probed_in_order(kind: EncoderKind, answers: Seq<bool>)
    ensures
        ({
            let first: int = if kind == EncoderKind::Nvenc {
                1
            } else {
                0
            };
            let step = probe_step(kind, answers);
            let question = |i: int|
                if i < first {
                    Probe::RuntimePresent
                } else if i == first {
                    Probe::InBuild
                } else {
                    Probe::Opens
                };
            &&& step is Accepted <==> answers.len() >= first + 2 && forall|i: int|
                0 <= i < first + 2 ==> #[trigger] answers[i]
            &&& step matches ProbeStep::Ask { probe } ==> answers.len() < first + 2 && (forall|
                i: int,
            |
                0 <= i < answers.len() ==> #[trigger] answers[i]) && probe == question(
                answers.len() as int,
            )
            &&& step matches ProbeStep::Rejected { failed } ==> exists|i: int|
                0 <= i < first + 2 && i < answers.len() && !(#[trigger] answers[i]) && failed
                    == question(i) && forall|j: int| 0 <= j < i ==> answers[j]
            &&& (exists|i: int|
                0 <= i < first + 2 && i < answers.len() && !(#[trigger] answers[i])) ==> step
                is Rejected
        }),
{
    let flipped = answers.map_values(|yes: bool| !yes);
    lemma_first_yes(flipped, 0);
    assert(forall|i: int| 0 <= i < answers.len() ==> flipped[i] == !answers[i]);
    let no = first_yes(flipped, 0);
    assert(forall|j: int| 0 <= j < no ==> answers[j]) by {
        assert forall|j: int| 0 <= j < no implies answers[j] by {
            assert(!flipped[j]);
        }
    }
    if no < answers.len() {
        assert(flipped[no] && !answers[no]);
    }
}

/// The names that FFmpeg knows the encoders by, the words for a probe, and the
/// libraries of the NVIDIA runtime.
pub proof fn law_names(kind: EncoderKind, failed: Option<Probe>, platform: Platform)
    ensures
        kind == EncoderKind::Nvenc ==> encoder_name(kind) == "h264_nvenc"@,
        kind == EncoderKind::X264 ==> encoder_name(kind) == "libx264"@,
        kind == EncoderKind::OpenH264 ==> encoder_name(kind) == "libopenh264"@,
        failed == Some(Probe::RuntimePresent) ==> probe_outcome(failed)
            == "skipped, no NVIDIA runtime"@,
        failed == Some(Probe::InBuild) ==> probe_outcome(failed) == "not in this build"@,
        failed == Some(Probe::Opens) ==> probe_outcome(failed) == "would not open"@,
        failed is None ==> probe_outcome(failed) == "opened"@,
        platform == Platform::Windows ==> runtime_library_name(platform) == Some("nvcuda.dll"@),
        platform == Platform::Linux ==> runtime_library_name(platform) == Some("libcuda.so.1"@),
        platform == Platform::Other ==> runtime_library_name(platform) is None,
{
}

/// Every encoder is told to keep to the bitrate it is given: NVENC by variable
/// rate with full-resolution multipass, OpenH264 by its bitrate mode, in which it may skip
/// frames, and x264 by default. NVENC and x264 write the High profile.
pub proof fn law_encoders_keep_to_the_bitrate(kind: EncoderKind)
    ensures
        kind == EncoderKind::Nvenc ==> option_list(kind).len() == 9 && {
            &&& option_list(kind)[0] == ("preset"@, "p5"@)
            &&& option_list(kind)[1] == ("tune"@, "hq"@)
            &&& option_list(kind)[2] == ("rc"@, "vbr"@)
            &&& option_list(kind)[3] == ("multipass"@, "fullres"@)
            &&& option_list(kind)[4] == ("profile"@, "high"@)
            &&& option_list(kind)[5] == ("spatial-aq"@, "1"@)
            &&& option_list(kind)[6] == ("temporal-aq"@, "1"@)
            &&& option_list(kind)[7] == ("b_ref_mode"@, "middle"@)
            &&& option_list(kind)[8] == ("rc-lookahead"@, "20"@)
        },
        kind == EncoderKind::X264 ==> option_list(kind).len() == 2 && {
            &&& option_list(kind)[0] == ("preset"@, "medium"@)
            &&& option_list(kind)[1] == ("profile"@, "high"@)
        },
        kind == EncoderKind::OpenH264 ==> option_list(kind).len() == 2 && {
            &&& option_list(kind)[0] == ("rc_mode"@, "bitrate"@)
            &&& option_list(kind)[1] == ("allow_skip_frames"@, "1"@)
        },
{
}

/// An encoder is opened for the plan: its frame, its bitrate, a constant frame
/// rate with a tick to each frame, key frames every two seconds to the nearest
/// frame and at least one apart, and a ceiling of twice the bitrate over a
/// buffer of four seconds. Only OpenH264 does without B-frames.
pub proof fn law_settings_follow_the_plan(plan: EncodePlan, kind: EncoderKind)
    ensures
        ({
            let s = settings_for(plan, kind);
            let den: int = if plan.fps_den >= 1 {
                plan.fps_den as int
            } else {
                1
            };
            let bps = plan.video_bitrate_bps as int;
            let gop = s.gop_size as int;
            &&& s.width == plan.width && s.height == plan.height
            &&& s.framerate.0 == plan.fps_num && s.framerate.1 == den
            &&& s.time_base.0 == den && s.time_base.1 == plan.fps_num
            &&& s.bit_rate == bps
            &&& gop >= 1
            &&& gop > 1 ==> 2 * (gop * den) <= 4 * plan.fps_num + den
            &&& gop < i32::MAX ==> 2 * (gop * den) > 4 * plan.fps_num - den
            &&& s.max_b_frames == if kind == EncoderKind::OpenH264 {
                0int
            } else {
                3int
            }
            &&& s.rc_max_rate == 2 * bps || s.rc_max_rate == i64::MAX && 2 * bps > i64::MAX
                || s.rc_max_rate == i64::MIN && 2 * bps < i64::MIN
            &&& s.rc_buffer_size == 4 * bps || s.rc_buffer_size == i32::MAX && 4 * bps > i32::MAX
                || s.rc_buffer_size == i32::MIN && 4 * bps < i32::MIN
        }),
{
    let den = media::rate_den(plan.fps_den);
    let n = 2 * plan.fps_num;
    let gop = gop_of(plan);
    if n >= 0 {
        let r = arith::rounded(n, den);
        arith::lemma_rounded_bounds(n, den);
        lemma_rounded_no_larger(n, den);
        assert(r * (2 * den) == 2 * (r * den)) by (nonlinear_arith);
        if gop > 1 && gop <= r {
            assert(gop * den <= r * den) by (nonlinear_arith)
                requires
                    gop <= r,
                    den > 0,
            ;
        }
        if gop >= r {
            assert(gop * den >= r * den) by (nonlinear_arith)
                requires
                    gop >= r,
                    den > 0,
            ;
        }
    } else {
        lemma_rounded_no_larger(-n, den);
        assert(gop == 1);
        assert(gop * den == den) by (nonlinear_arith)
            requires
                gop == 1,
        ;
    }
}

} // verus!
