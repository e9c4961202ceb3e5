//! Turn a [`MediaInfo`] and a size budget into concrete encode settings, and
//! shrink the plan when a pass overshoots the ceiling.
//!
//! Sizes are bytes, rates are bits per second, lengths are microseconds and
//! margins are parts per million, so every quantity here is an integer or an
//! exact ratio of integers. With those units a budget of `max_bytes` at
//! `margin_ppm` over `duration_us` allows `8 * max_bytes * margin_ppm /
//! duration_us` bits per second.

use crate::arith;
use crate::media;
use crate::media::MediaInfo;
use crate::options::CompressOptions;
use vstd::prelude::*;

verus! {

/// Floor on video bitrate; below this, quality is so bad that shrinking further
/// is pointless, and dropping resolution is the better economy. A source that
/// is below it already keeps its own rate: the floor never adds bits.
pub const MIN_VIDEO_BPS: i64 = 120_000;

/// Copying the source audio is free of loss, and on a short clip it costs
/// little. Past this share of the budget the track is re-encoded down to fit
/// the share instead.
pub const AUDIO_MAX_SHARE_PERCENT: u64 = 30;

/// Re-encoding stereo AAC below this stops being worth keeping.
pub const AUDIO_MIN_BPS: i64 = 48_000;

/// Typical capture AAC, for containers that omit the figure.
pub const AUDIO_TYPICAL_BPS: i64 = 160_000;

/// What one frame per second is worth spending, so that 60 fps wants 3 Mbit/s.
pub const BPS_PER_FPS: i64 = 50_000;

/// Never halve past this. Below it motion starts to read as a slideshow, and
/// the bits saved are better found in the resolution ladder.
pub const MIN_FPS: i64 = 24;

/// A correction pass never keeps more than this much of the bitrate.
pub const SHRINK_MAX_PERCENT: u64 = 97;

#[derive(Clone, Copy, Debug, PartialEq, Eq, Structural)]
pub enum AudioAction {
    /// Stream-copy the source audio (no re-encode, no generation loss).
    Copy,
    /// Re-encode to AAC at this bitrate, because copying would eat the budget.
    Reencode { bps: i64 },
    /// Drop audio entirely.
    Drop,
}

#[derive(Clone, Copy, Debug, PartialEq, Eq, Structural)]
pub struct EncodePlan {
    pub width: i32,
    pub height: i32,
    /// Output frame rate as a rational; the encode is always normalized to this
    /// constant rate.
    pub fps_num: i32,
    pub fps_den: i32,
    pub video_bitrate_bps: i64,
    pub audio: AudioAction,
}

// ---- audio ----

/// The rate the source audio is taken to have.
pub open spec fn source_audio_bps(info: MediaInfo) -> int {
    if info.audio_bitrate_bps > 0 {
        info.audio_bitrate_bps as int
    } else {
        AUDIO_TYPICAL_BPS as int
    }
}

/// The rate at which audio fills its share of the budget.
pub open spec fn audio_share_bps(info: MediaInfo, opts: CompressOptions) -> int {
    arith::rate_floor(
        8 * AUDIO_MAX_SHARE_PERCENT * opts.max_bytes * opts.margin_ppm,
        100 * info.duration_us,
    )
}

/// Copying the source audio stays within its share of the budget.
pub open spec fn copy_within_share(info: MediaInfo, opts: CompressOptions) -> bool {
    source_audio_bps(info) * (100 * info.duration_us) <= 8 * AUDIO_MAX_SHARE_PERCENT
        * opts.max_bytes * opts.margin_ppm
}

/// What becomes of the audio.
pub open spec fn audio_choice(info: MediaInfo, opts: CompressOptions) -> AudioAction {
    let source = source_audio_bps(info);
    let share = arith::larger(audio_share_bps(info, opts), AUDIO_MIN_BPS as int);
    if !opts.include_audio || !info.has_audio {
        AudioAction::Drop
    } else if info.audio_tracks > 1 {
        AudioAction::Reencode { bps: arith::smaller(share, arith::larger(source, AUDIO_MIN_BPS as int)) as i64 }
    } else if copy_within_share(info, opts) || share >= source {
        AudioAction::Copy
    } else {
        AudioAction::Reencode { bps: share as i64 }
    }
}

/// The rate that audio takes up under an action.
pub open spec fn audio_rate(info: MediaInfo, audio: AudioAction) -> int {
    match audio {
        AudioAction::Copy => source_audio_bps(info),
        AudioAction::Reencode { bps } => bps as int,
        AudioAction::Drop => 0,
    }
}

/// The rate the source audio is taken to have.
pub fn assumed_audio_bps(info: &MediaInfo) -> (r: i64)
    ensures
        r == source_audio_bps(*info),
        r > 0,
{
    if info.audio_bitrate_bps > 0 {
        info.audio_bitrate_bps
    } else {
        AUDIO_TYPICAL_BPS
    }
}

/// Keep the source track when it is a modest part of the budget, shrink it when
/// it is not. Never re-encodes upward, which would add loss and save nothing;
/// but for several tracks that are quieter than the floor: they have to be
/// mixed, and a mix is not worth making below it.
pub fn choose_audio(info: &MediaInfo, opts: &CompressOptions) -> (r: AudioAction)
    ensures
        r == audio_choice(*info, *opts),
{
    if !opts.include_audio || !info.has_audio {
        return AudioAction::Drop;
    }
    let source: i64 = assumed_audio_bps(info);
    let share: i64 = share_rate(info, opts);
    let floored: i64 = if share >= AUDIO_MIN_BPS {
        share
    } else {
        AUDIO_MIN_BPS
    };
    // Several tracks have to be mixed down into the one a player will actually
    // play, and mixing means encoding: there is no copy that combines them.
    if info.audio_tracks > 1 {
        let ceiling: i64 = if source >= AUDIO_MIN_BPS {
            source
        } else {
            AUDIO_MIN_BPS
        };
        let bps: i64 = if floored <= ceiling {
            floored
        } else {
            ceiling
        };
        return AudioAction::Reencode { bps };
    }
    proof {
        lemma_copy_is_rate_test(*info, *opts);
    }
    // A source already quieter than the floor keeps its own rate and is copied
    // rather than needlessly re-encoded.
    if info.duration_us == 0 || source <= floored {
        AudioAction::Copy
    } else {
        AudioAction::Reencode { bps: floored }
    }
}

/// Copying fits its share exactly when the source rate does.
proof fn lemma_copy_is_rate_test(info: MediaInfo, opts: CompressOptions)
    ensures
        info.duration_us == 0 ==> copy_within_share(info, opts),
        info.duration_us > 0 ==> copy_within_share(info, opts) == (source_audio_bps(info)
            <= audio_share_bps(info, opts)),
{
    let n = 8 * AUDIO_MAX_SHARE_PERCENT * opts.max_bytes * opts.margin_ppm;
    assert(0 <= 8 * AUDIO_MAX_SHARE_PERCENT * opts.max_bytes * opts.margin_ppm) by (nonlinear_arith)
        requires
            AUDIO_MAX_SHARE_PERCENT == 30,
    ;
    if info.duration_us == 0 {
        assert(source_audio_bps(info) * (100 * info.duration_us) == 0) by (nonlinear_arith)
            requires
                info.duration_us == 0,
        ;
    } else {
        arith::lemma_product_within(source_audio_bps(info), 100 * info.duration_us, n);
    }
}

fn share_rate(info: &MediaInfo, opts: &CompressOptions) -> (r: i64)
    ensures
        r == audio_share_bps(*info, *opts),
        r >= 0,
{
    proof {
        lemma_budget_fits(240, opts.max_bytes, opts.margin_ppm);
    }
    let n: u128 = 240 * (opts.max_bytes as u128) * (opts.margin_ppm as u128);
    if info.duration_us == 0 {
        return if n == 0 {
            0
        } else {
            i64::MAX
        };
    }
    let q: u128 = n / (100 * (info.duration_us as u128));
    if q >= i64::MAX as u128 {
        i64::MAX
    } else {
        q as i64
    }
}

proof fn lemma_budget_fits(k: int, max_bytes: u64, margin_ppm: u32)
    requires
        0 <= k <= 1000,
    ensures
        0 <= k * max_bytes <= 1000 * 0xffff_ffff_ffff_ffff,
        0 <= k * max_bytes * margin_ppm <= 1000 * 0xffff_ffff_ffff_ffff * 0xffff_ffff,
{
    assert(0 <= k * max_bytes <= 1000 * 0xffff_ffff_ffff_ffff) by (nonlinear_arith)
        requires
            0 <= k <= 1000,
            0 <= max_bytes <= 0xffff_ffff_ffff_ffff,
    ;
    let p = k * max_bytes;
    assert(0 <= p * margin_ppm <= 1000 * 0xffff_ffff_ffff_ffff * 0xffff_ffff) by (nonlinear_arith)
        requires
            0 <= p <= 1000 * 0xffff_ffff_ffff_ffff,
            0 <= margin_ppm <= 0xffff_ffff,
    ;
}

// ---- video bitrate ----

/// Bits, in millionths, that a budget spends.
pub open spec fn budget_bits(opts: CompressOptions) -> int {
    8 * opts.max_bytes * opts.margin_ppm
}

/// Bits, in millionths, that a rate takes over the clip.
pub open spec fn bits_over(info: MediaInfo, bps: int) -> int {
    bps * info.duration_us
}

/// What the budget leaves for video once audio is paid for, as a rate.
pub open spec fn remaining_bps(info: MediaInfo, opts: CompressOptions, audio: AudioAction) -> int {
    arith::rate_rounded(
        arith::larger(budget_bits(opts) - bits_over(info, audio_rate(info, audio)), 0),
        info.duration_us as int,
    )
}

/// The least video rate that a clip is ever encoded at: the floor, or the
/// source's own rate where that is below it.
pub open spec fn lowest_bps(info: MediaInfo) -> int {
    if info.video_bitrate_bps > 0 {
        arith::smaller(MIN_VIDEO_BPS as int, info.video_bitrate_bps as int)
    } else {
        MIN_VIDEO_BPS as int
    }
}

/// The video rate to aim for: what the budget leaves, but no less than the
/// floor; and where the source's own rate is known, never more than that.
pub open spec fn video_target(info: MediaInfo, opts: CompressOptions, audio: AudioAction) -> int {
    let floored = arith::larger(remaining_bps(info, opts, audio), MIN_VIDEO_BPS as int);
    if info.video_bitrate_bps > 0 {
        arith::smaller(floored, info.video_bitrate_bps as int)
    } else {
        floored
    }
}

/// What is left of a size once audio is paid for, but no less than `least`.
fn after_audio(size: u128, least: u128, info: &MediaInfo, audio: AudioAction) -> (r: u128)
    requires
        size <= 0x1000_0000_0000_0000_0000_0000_0000,
        least <= 0x1000_0000_0000_0000_0000_0000_0000,
    ensures
        r == arith::larger(size - bits_over(*info, audio_rate(*info, audio)), least as int),
        r < u128::MAX,
{
    let bps: i64 = match audio {
        AudioAction::Copy => assumed_audio_bps(info),
        AudioAction::Reencode { bps } => bps,
        AudioAction::Drop => 0,
    };
    let per_second: u64 = if bps >= 0 {
        bps as u64
    } else {
        (-(bps as i128)) as u64
    };
    let us: u64 = info.duration_us;
    assert(0 <= per_second * us <= 0x8000_0000_0000_0000 * 0xffff_ffff_ffff_ffff)
        by (nonlinear_arith)
        requires
            0 <= per_second <= 0x8000_0000_0000_0000,
            0 <= us <= 0xffff_ffff_ffff_ffff,
    ;
    let bits: u128 = (per_second as u128) * (us as u128);
    assert(bits_over(*info, bps as int) == if bps >= 0 {
        bits as int
    } else {
        -(bits as int)
    }) by {
        assert((-(per_second as int)) * us as int == -(per_second as int * us as int))
            by (nonlinear_arith);
    }
    let left: u128 = if bps < 0 {
        size + bits
    } else if size > bits {
        size - bits
    } else {
        0
    };
    if left >= least {
        left
    } else {
        least
    }
}

/// The video rate that makes the budget come out, with audio paid for first.
pub fn target_video_bps(info: &MediaInfo, opts: &CompressOptions, audio: AudioAction) -> (r: i64)
    ensures
        r == video_target(*info, *opts, audio),
{
    proof {
        lemma_budget_fits(8, opts.max_bytes, opts.margin_ppm);
    }
    let usable: u128 = 8 * (opts.max_bytes as u128) * (opts.margin_ppm as u128);
    let left: u128 = after_audio(usable, 0, info, audio);
    let mut bps: i64 = if info.duration_us == 0 {
        if left == 0 {
            0
        } else {
            i64::MAX
        }
    } else {
        let q: u128 = arith::div_round(left, info.duration_us as u128);
        if q >= i64::MAX as u128 {
            i64::MAX
        } else {
            q as i64
        }
    };
    if bps < MIN_VIDEO_BPS {
        bps = MIN_VIDEO_BPS;
    }
    // Never spend more than the source itself did: re-encoding cannot recover
    // detail that was never there, so the source rate is the sensible ceiling.
    if info.video_bitrate_bps > 0 && bps > info.video_bitrate_bps {
        bps = info.video_bitrate_bps;
    }
    bps
}

// ---- resolution ----

/// The nearest usable even side: encoders want multiples of two.
pub open spec fn even_side(x: int) -> int {
    arith::larger(x, 2) - arith::larger(x, 2) % 2
}

/// The most pixels a rate does justice to, `None` where there is no limit.
/// The steps are the 16:9 frames 1920x1080, 1280x720 and 854x480.
pub open spec fn pixel_budget(video_bps: int) -> Option<int> {
    if video_bps >= 10_000_000 {
        None
    } else if video_bps >= 1_600_000 {
        Some(1920 * 1080int)
    } else if video_bps >= 700_000 {
        Some(1280 * 720int)
    } else {
        Some(854 * 480int)
    }
}

/// The side `a` of a frame `a` by `b`, scaled so that the frame has `pixels`
/// pixels and its shape is kept: `a * sqrt(pixels / (a * b))`, to the nearest
/// integer.
pub open spec fn scaled_side(a: int, b: int, pixels: int) -> int {
    arith::nearest_root(pixels * a, b)
}

/// The frame the ladder settles on for a source of `w` by `h`.
pub open spec fn ladder_frame(w: int, h: int, video_bps: int) -> (int, int) {
    match pixel_budget(video_bps) {
        Some(pixels) if w * h > pixels => (
            even_side(scaled_side(w, h, pixels)),
            even_side(scaled_side(h, w, pixels)),
        ),
        _ => (even_side(w), even_side(h)),
    }
}

/// The frame the ladder settles on for a clip.
pub open spec fn ladder_choice(info: MediaInfo, video_bps: int) -> (int, int) {
    ladder_frame(
        arith::larger(info.width as int, 2),
        arith::larger(info.height as int, 2),
        video_bps,
    )
}

/// The frame to encode at.
pub open spec fn resolution_choice(
    info: MediaInfo,
    opts: CompressOptions,
    video_bps: int,
) -> (int, int) {
    if opts.keep_resolution {
        (even_side(info.width as int), even_side(info.height as int))
    } else {
        ladder_choice(info, video_bps)
    }
}

/// `x` rounded down to an even number, at least two.
pub fn make_even(x: i32) -> (r: i32)
    ensures
        r == even_side(x as int),
{
    let x: i32 = if x >= 2 {
        x
    } else {
        2
    };
    x - (x % 2)
}

/// Scaling down to fewer pixels makes no side longer.
pub proof fn lemma_scaled_side_bounds(a: int, b: int, pixels: int)
    requires
        a >= 1,
        b >= 1,
        0 <= pixels < a * b,
    ensures
        4 * (pixels * a) < (2 * a + 1) * (2 * a + 1) * b,
{
    assert(pixels * a <= a * b * a) by (nonlinear_arith)
        requires
            a >= 1,
            pixels < a * b,
    ;
    assert(4 * (a * b * a) < (2 * a + 1) * (2 * a + 1) * b) by (nonlinear_arith)
        requires
            a >= 1,
            b >= 1,
    ;
}

fn scale_side(a: i32, b: i32, pixels: u64) -> (r: i32)
    requires
        a >= 2,
        b >= 2,
        pixels <= 0x1f_ffff,
        pixels < a * b,
    ensures
        r == scaled_side(a as int, b as int, pixels as int),
        0 <= r <= a,
{
    proof {
        lemma_scaled_side_bounds(a as int, b as int, pixels as int);
        assert(pixels * a <= 0x1f_ffff * 0x7fff_ffff) by (nonlinear_arith)
            requires
                0 <= pixels <= 0x1f_ffff,
                0 <= a <= 0x7fff_ffff,
        ;
    }
    arith::root_round(pixels * (a as u64), b as u64, a as u32) as i32
}

/// The ladder on its own, with no hold applied: a finished encode can compare
/// it against the size actually used, and say what holding the frame cost.
///
/// The budget is a pixel count, not a height. Bitrate has to cover every pixel
/// in the frame, so capping total pixels treats an ultrawide and a 16:9 clip
/// alike.
pub fn ladder_resolution(info: &MediaInfo, video_bps: i64) -> (r: (i32, i32))
    ensures
        (r.0 as int, r.1 as int) == ladder_choice(*info, video_bps as int),
{
    let w: i32 = if info.width >= 2 {
        info.width
    } else {
        2
    };
    let h: i32 = if info.height >= 2 {
        info.height
    } else {
        2
    };
    if video_bps >= 10_000_000 {
        return (make_even(w), make_even(h));
    }
    let max_pixels: u64 = if video_bps >= 1_600_000 {
        1920 * 1080
    } else if video_bps >= 700_000 {
        1280 * 720
    } else {
        854 * 480
    };
    assert(0 <= w * h <= 0x7fff_ffff * 0x7fff_ffff) by (nonlinear_arith)
        requires
            0 <= w <= 0x7fff_ffff,
            0 <= h <= 0x7fff_ffff,
    ;
    let pixels: u64 = (w as u64) * (h as u64);
    if pixels <= max_pixels {
        // Already within budget; keep source dimensions.
        return (make_even(w), make_even(h));
    }
    // Shrink both axes by the same factor, so the aspect ratio is preserved.
    assert(w * h == h * w) by (nonlinear_arith);
    (make_even(scale_side(w, h, max_pixels)), make_even(scale_side(h, w, max_pixels)))
}

/// Step the resolution down only as far as the bitrate warrants, or hold it
/// where the caller asked for that.
pub fn choose_resolution(info: &MediaInfo, opts: &CompressOptions, video_bps: i64) -> (r: (i32, i32))
    ensures
        (r.0 as int, r.1 as int) == resolution_choice(*info, *opts, video_bps as int),
{
    if opts.keep_resolution {
        return (make_even(info.width), make_even(info.height));
    }
    ladder_resolution(info, video_bps)
}

// ---- frame rate ----

/// The bitrate covers every frame of `num / den` frames per second.
pub open spec fn affords_rate(video_bps: int, num: int, den: int) -> bool {
    video_bps * den >= num * BPS_PER_FPS
}

/// Half of `num / den` frames per second still reads as motion.
pub open spec fn can_halve(num: int, den: int) -> bool {
    num >= 2 * MIN_FPS * den
}

/// A rate that can be halved has a numerator well above its denominator.
pub proof fn lemma_halving_leaves_room(num: int, den: int)
    requires
        den > 0,
        can_halve(num, den),
    ensures
        num >= 48 * den,
{
    assert(2 * MIN_FPS * den == 48 * den) by (nonlinear_arith)
        requires
            MIN_FPS == 24,
    ;
}

/// The denominator after halving the rate until the bitrate covers it or
/// another halving would go too low.
pub open spec fn settled_den(num: int, den: int, video_bps: int) -> int
    decreases num - den,
{
    if den <= 0 || affords_rate(video_bps, num, den) || !can_halve(num, den) {
        den
    } else {
        proof {
            lemma_halving_leaves_room(num, den);
            assert(num >= 48 * den);
            assert(0 <= num - 2 * den < num - den);
        }
        settled_den(num, 2 * den, video_bps)
    }
}

/// The frame rate to encode at.
pub open spec fn fps_choice(info: MediaInfo, opts: CompressOptions, video_bps: int) -> (int, int) {
    if opts.keep_fps {
        (info.fps_num as int, media::rate_den(info.fps_den))
    } else {
        (
            info.fps_num as int,
            settled_den(info.fps_num as int, media::rate_den(info.fps_den), video_bps),
        )
    }
}

/// Always a constant rate, stepped down only as far as the bitrate warrants.
///
/// Reduction is always a halving, never a jump to some standard rate. Half of
/// a rate keeps every other frame, so the result is evenly spaced; and halving
/// is exact on rationals, so 60000/1001 becomes exactly half of it.
pub fn choose_fps(info: &MediaInfo, opts: &CompressOptions, video_bps: i64) -> (r: (i32, i32))
    ensures
        (r.0 as int, r.1 as int) == fps_choice(*info, *opts, video_bps as int),
{
    let num: i32 = info.fps_num;
    let mut den: i32 = media::sound_den(info.fps_den);
    if opts.keep_fps {
        return (num, den);
    }
    let ghost goal = settled_den(num as int, den as int, video_bps as int);
    while !rate_settled(video_bps, num, den)
        invariant
            den >= 1,
            settled_den(num as int, den as int, video_bps as int) == goal,
        decreases num - den,
    {
        proof {
            lemma_halving_leaves_room(num as int, den as int);
            assert(num >= 48 * den);
        }
        den = den * 2;
    }
    (num, den)
}

fn rate_settled(video_bps: i64, num: i32, den: i32) -> (r: bool)
    requires
        den >= 1,
    ensures
        r == (affords_rate(video_bps as int, num as int, den as int) || !can_halve(
            num as int,
            den as int,
        )),
{
    assert(-0x8000_0000_0000_0000 * 0x7fff_ffff <= video_bps * den <= 0x7fff_ffff_ffff_ffff
        * 0x7fff_ffff) by (nonlinear_arith)
        requires
            -0x8000_0000_0000_0000 <= video_bps <= 0x7fff_ffff_ffff_ffff,
            1 <= den <= 0x7fff_ffff,
    ;
    assert(num * BPS_PER_FPS == num * 50_000) by (nonlinear_arith)
        requires
            BPS_PER_FPS == 50_000,
    ;
    assert(2 * MIN_FPS * den == 48 * den) by (nonlinear_arith)
        requires
            MIN_FPS == 24,
    ;
    let affordable: bool = (video_bps as i128) * (den as i128) >= (num as i128) * (
    BPS_PER_FPS as i128);
    affordable || (num as i64) < 2 * MIN_FPS * (den as i64)
}

// ---- plans ----

/// The plan for a given video rate.
pub open spec fn plan_at(
    info: MediaInfo,
    opts: CompressOptions,
    audio: AudioAction,
    video_bps: int,
) -> EncodePlan {
    EncodePlan {
        width: resolution_choice(info, opts, video_bps).0 as i32,
        height: resolution_choice(info, opts, video_bps).1 as i32,
        fps_num: fps_choice(info, opts, video_bps).0 as i32,
        fps_den: fps_choice(info, opts, video_bps).1 as i32,
        video_bitrate_bps: video_bps as i64,
        audio,
    }
}

/// The plan of the first pass.
pub open spec fn first_plan(info: MediaInfo, opts: CompressOptions) -> EncodePlan {
    let audio = audio_choice(info, opts);
    plan_at(info, opts, audio, video_target(info, opts, audio))
}

/// First-pass plan: aim for the margin below the ceiling, so that the output
/// usually lands under it without a correction pass.
pub fn plan_initial(info: &MediaInfo, opts: &CompressOptions) -> (r: EncodePlan)
    ensures
        r == first_plan(*info, *opts),
{
    let audio = choose_audio(info, opts);
    let video_bps: i64 = target_video_bps(info, opts, audio);
    let (fps_num, fps_den) = choose_fps(info, opts, video_bps);
    let (width, height) = choose_resolution(info, opts, video_bps);
    EncodePlan { width, height, fps_num, fps_den, video_bitrate_bps: video_bps, audio }
}

/// Millionths of an eighth of a byte: the unit in which a byte count and a
/// rate over microseconds meet.
pub const BYTE_UNITS: u64 = 8_000_000;

/// What the video may take up, in [`BYTE_UNITS`] to the byte, at least a byte.
pub open spec fn target_video_size(info: MediaInfo, opts: CompressOptions, audio: AudioAction) -> int {
    arith::larger(
        budget_bits(opts) - bits_over(info, audio_rate(info, audio)),
        BYTE_UNITS as int,
    )
}

/// What the video did take up, in [`BYTE_UNITS`] to the byte, at least a byte.
pub open spec fn actual_video_size(info: MediaInfo, actual_bytes: u64, audio: AudioAction) -> int {
    arith::larger(
        BYTE_UNITS * actual_bytes - bits_over(info, audio_rate(info, audio)),
        BYTE_UNITS as int,
    )
}

/// How low an overshoot may take a rate: to the floor, and a rate that is below
/// it already no lower.
pub open spec fn shrink_floor(bps: i64) -> int {
    if 0 < bps < MIN_VIDEO_BPS {
        bps as int
    } else {
        MIN_VIDEO_BPS as int
    }
}

/// The video rate after an overshoot: scaled by how far the video was over,
/// always reduced by at least a little, never below the floor.
pub open spec fn shrunk_bps(
    plan: EncodePlan,
    actual_bytes: u64,
    info: MediaInfo,
    opts: CompressOptions,
) -> int {
    let target = target_video_size(info, opts, plan.audio);
    let actual = actual_video_size(info, actual_bytes, plan.audio);
    let scaled = if target * 100 < actual * SHRINK_MAX_PERCENT {
        arith::rounded(plan.video_bitrate_bps * target, actual)
    } else {
        arith::rounded(plan.video_bitrate_bps * SHRINK_MAX_PERCENT, 100)
    };
    arith::larger(scaled, shrink_floor(plan.video_bitrate_bps))
}

/// The plan after an overshoot.
pub open spec fn shrunk_plan(
    plan: EncodePlan,
    actual_bytes: u64,
    info: MediaInfo,
    opts: CompressOptions,
) -> EncodePlan {
    plan_at(info, opts, plan.audio, shrunk_bps(plan, actual_bytes, info, opts))
}

impl EncodePlan {
    /// Frames per second, as numerator and positive denominator.
    pub fn fps(&self) -> (r: (i32, i32))
        ensures
            r.0 == self.fps_num,
            r.1 == media::rate_den(self.fps_den),
    {
        (self.fps_num, media::sound_den(self.fps_den))
    }

    /// Produce a tighter plan after an overshoot. Scales the video bitrate by
    /// the measured overshoot (accounting for the fixed audio bytes), and may
    /// step resolution and frame rate down further if the new bitrate is low.
    pub fn shrink(&self, actual_bytes: u64, info: &MediaInfo, opts: &CompressOptions) -> (r:
        EncodePlan)
        ensures
            r == shrunk_plan(*self, actual_bytes, *info, *opts),
    {
        let new_bps: i64 = self.shrunk_rate(actual_bytes, info, opts);
        let (fps_num, fps_den) = choose_fps(info, opts, new_bps);
        let (width, height) = choose_resolution(info, opts, new_bps);
        EncodePlan { width, height, fps_num, fps_den, video_bitrate_bps: new_bps, audio: self.audio }
    }

    fn shrunk_rate(&self, actual_bytes: u64, info: &MediaInfo, opts: &CompressOptions) -> (r: i64)
        ensures
            r == shrunk_bps(*self, actual_bytes, *info, *opts),
    {
        proof {
            lemma_budget_fits(8, opts.max_bytes, opts.margin_ppm);
        }
        let usable: u128 = 8 * (opts.max_bytes as u128) * (opts.margin_ppm as u128);
        let unit: u128 = BYTE_UNITS as u128;
        let target: u128 = after_audio(usable, unit, info, self.audio);
        let actual: u128 = after_audio(unit * (actual_bytes as u128), unit, info, self.audio);
        if self.video_bitrate_bps <= 0 {
            proof {
                lemma_nothing_to_scale(self.video_bitrate_bps as int, target as int, actual as int);
                lemma_nothing_to_scale(self.video_bitrate_bps as int, 97, 100);
            }
            return MIN_VIDEO_BPS;
        }
        let over: bool = target <= actual && {
            let (percent, rest) = arith::mul_div(100, target, actual);
            proof {
                lemma_percent_test(target as int, actual as int, percent as int, rest as int);
            }
            percent < SHRINK_MAX_PERCENT
        };
        let scaled: u64 = if over {
            arith::mul_div_round(self.video_bitrate_bps as u64, target, actual)
        } else {
            arith::mul_div_round(self.video_bitrate_bps as u64, SHRINK_MAX_PERCENT as u128, 100)
        };
        proof {
            lemma_scaling_down(self.video_bitrate_bps as int, target as int, actual as int);
            lemma_scaling_down(self.video_bitrate_bps as int, 97, 100);
        }
        let floor: i64 = if self.video_bitrate_bps < MIN_VIDEO_BPS {
            self.video_bitrate_bps
        } else {
            MIN_VIDEO_BPS
        };
        if scaled as i64 >= floor {
            scaled as i64
        } else {
            floor
        }
    }
}

proof fn lemma_percent_test(target: int, actual: int, percent: int, rest: int)
    requires
        100 * target == percent * actual + rest,
        0 <= rest < actual,
    ensures
        (percent < 97) == (target * 100 < actual * 97),
{
    if percent < 97 {
        assert(percent * actual <= 96 * actual) by (nonlinear_arith)
            requires
                percent <= 96,
                actual > 0,
        ;
    } else {
        assert(percent * actual >= 97 * actual) by (nonlinear_arith)
            requires
                percent >= 97,
                actual > 0,
        ;
    }
}

proof fn lemma_nothing_to_scale(bps: int, t: int, a: int)
    requires
        bps <= 0,
        t >= 0,
        a > 0,
    ensures
        arith::rounded(bps * t, a) <= 0,
{
    assert(bps * t <= 0) by (nonlinear_arith)
        requires
            bps <= 0,
            t >= 0,
    ;
    arith::lemma_rounded_monotone(bps * t, 0, a);
    arith::lemma_rounded_parts(0, a, 0, 0);
}

proof fn lemma_scaling_down(bps: int, t: int, a: int)
    requires
        bps >= 0,
        a > 0,
    ensures
        0 <= t <= a ==> 0 <= arith::rounded(bps * t, a) <= bps,
{
    if 0 <= t <= a {
        assert(0 <= bps * t <= bps * a) by (nonlinear_arith)
            requires
                bps >= 0,
                0 <= t <= a,
        ;
        arith::lemma_rounded_monotone(0, bps * t, a);
        arith::lemma_rounded_monotone(bps * t, bps * a, a);
        arith::lemma_rounded_parts(0, a, 0, 0);
        arith::lemma_rounded_parts(bps * a, a, bps, 0);
    }
}

} // verus!
