//! What planning comes to. Each decision is measured here against the clip, the
//! options and plain numbers: how near the budget a plan comes, what becomes of
//! the sound, how large the frame is and how often the rate was halved.

use crate::arith;
use crate::media;
use crate::media::MediaInfo;
use crate::options::CompressOptions;
use crate::plan;
use crate::plan::{AudioAction, EncodePlan};
use crate::plan_laws;
use vstd::arithmetic::power2;
use vstd::prelude::*;

verus! {

// ---- bitrate ----

/// The budget is used, and not overspent. With the audio paid for, the video
/// rate comes within half a bit per second of what the bytes allow: from above
/// only at the floor of 120 kbit/s, from below only at the source's own rate,
/// which it never exceeds. Where the budget leaves as much as the source spent,
/// the source's rate is kept.
pub proof fn law_budget_is_spent(info: MediaInfo, opts: CompressOptions, audio: AudioAction)
    requires
        info.duration_us > 0,
    ensures
        ({
            let v = plan::video_target(info, opts, audio);
            let us = info.duration_us as int;
            let source = info.video_bitrate_bps as int;
            let sound: int = match audio {
                AudioAction::Copy => if info.audio_bitrate_bps > 0 {
                    info.audio_bitrate_bps as int
                } else {
                    160_000
                },
                AudioAction::Reencode { bps } => bps as int,
                AudioAction::Drop => 0,
            };
            let left = 8 * opts.max_bytes * opts.margin_ppm - sound * us;
            &&& 0 < v <= i64::MAX
            &&& v > 120_000 ==> 2 * (v * us) <= 2 * left + us
            &&& (source <= 0 || v < source) && v < i64::MAX ==> 2 * (v * us) > 2 * left - us
            &&& source > 0 ==> v <= source
            &&& v < 120_000 ==> v == source
            &&& source > 0 && left >= source * us ==> v == source
        }),
{
    let v = plan::video_target(info, opts, audio);
    let us = info.duration_us as int;
    let source = info.video_bitrate_bps as int;
    let left = plan::budget_bits(opts) - plan::bits_over(info, plan::audio_rate(info, audio));
    let n = arith::larger(left, 0);
    let r = arith::rounded(n, us);
    arith::lemma_rounded_bounds(n, us);
    assert(r * (2 * us) == 2 * (r * us)) by (nonlinear_arith);
    assert(v * us > 0) by (nonlinear_arith)
        requires
            v > 0,
            us > 0,
    ;
    if v >= r {
        assert(v * us >= r * us) by (nonlinear_arith)
            requires
                v >= r,
                us > 0,
        ;
    }
    if v > 120_000 {
        assert(v * us <= r * us) by (nonlinear_arith)
            requires
                v <= r,
                us > 0,
        ;
        if left <= 0 {
            arith::lemma_rounded_parts(0, us, 0, 0);
        }
    }
    assert(v > 120_000 ==> 2 * (v * us) <= 2 * left + us);
    assert((source <= 0 || v < source) && v < i64::MAX ==> 2 * (v * us) > 2 * left - us);
    if source > 0 && left >= source * us && v != source {
        assert((source - 1) * us == source * us - us) by (nonlinear_arith);
        assert(v * us <= (source - 1) * us) by (nonlinear_arith)
            requires
                v <= source - 1,
                us > 0,
        ;
    }
}

/// A clip of no length has no rate to keep to: it gets what its source had, or
/// no bound at all, as long as the budget has anything left; and the floor where
/// it has nothing.
pub proof fn law_clips_of_no_length(info: MediaInfo, opts: CompressOptions, audio: AudioAction)
    requires
        info.duration_us == 0,
    ensures
        ({
            let v = plan::video_target(info, opts, audio);
            let source = info.video_bitrate_bps as int;
            if opts.max_bytes > 0 && opts.margin_ppm > 0 {
                v == if source > 0 {
                    source
                } else {
                    i64::MAX as int
                }
            } else {
                v == if 0 < source < 120_000 {
                    source
                } else {
                    120_000
                }
            }
        }),
{
    let rate = plan::audio_rate(info, audio);
    assert(plan::bits_over(info, rate) == 0) by (nonlinear_arith)
        requires
            plan::bits_over(info, rate) == rate * info.duration_us,
            info.duration_us == 0,
    ;
    let (m, p) = (opts.max_bytes as int, opts.margin_ppm as int);
    assert(8 * m * p == plan::budget_bits(opts));
    if m > 0 && p > 0 {
        assert(8 * m * p > 0) by (nonlinear_arith)
            requires
                m > 0,
                p > 0,
        ;
    } else {
        assert(8 * m * p == 0) by (nonlinear_arith)
            requires
                m == 0 || p == 0,
        ;
    }
}

// ---- sound ----

/// The sound is dropped exactly when it is not wanted or there is none. A single
/// track is copied exactly when it takes no more than 30% of the budget or is
/// at 48 kbit/s already; a track whose rate is unknown counts as 160 kbit/s.
pub proof fn law_sound_is_kept(info: MediaInfo, opts: CompressOptions)
    ensures
        ({
            let choice = plan::audio_choice(info, opts);
            let source: int = if info.audio_bitrate_bps > 0 {
                info.audio_bitrate_bps as int
            } else {
                160_000
            };
            &&& choice == AudioAction::Drop <==> !(opts.include_audio && info.has_audio)
            &&& choice == AudioAction::Copy <==> {
                &&& opts.include_audio && info.has_audio && info.audio_tracks <= 1
                &&& source <= 48_000 || 100 * (source * info.duration_us) <= 30 * (8
                    * opts.max_bytes * opts.margin_ppm)
            }
        }),
{
    let source = plan::source_audio_bps(info);
    let us = info.duration_us as int;
    let n = 8 * plan::AUDIO_MAX_SHARE_PERCENT * opts.max_bytes * opts.margin_ppm;
    lemma_share(info, opts);
    if us > 0 {
        arith::lemma_product_within(source, 100 * us, n);
    }
}

proof fn lemma_share(info: MediaInfo, opts: CompressOptions)
    ensures
        8 * plan::AUDIO_MAX_SHARE_PERCENT * opts.max_bytes * opts.margin_ppm == 30 * (8
            * opts.max_bytes * opts.margin_ppm),
        0 <= 8 * opts.max_bytes * opts.margin_ppm,
        forall|bps: int|
            #![trigger bps * (100 * info.duration_us)]
            bps * (100 * info.duration_us) == 100 * (bps * info.duration_us),
        info.duration_us == 0 ==> plan::source_audio_bps(info) * (100 * info.duration_us) == 0,
{
    let (m, p) = (opts.max_bytes as int, opts.margin_ppm as int);
    assert(8 * plan::AUDIO_MAX_SHARE_PERCENT * m * p == 30 * (8 * m * p)) by (nonlinear_arith)
        requires
            plan::AUDIO_MAX_SHARE_PERCENT == 30,
    ;
    assert(0 <= 8 * m * p) by (nonlinear_arith)
        requires
            m >= 0,
            p >= 0,
    ;
    assert forall|bps: int|
        #![trigger bps * (100 * info.duration_us)]
        bps * (100 * info.duration_us) == 100 * (bps * info.duration_us) by {
        assert(bps * (100 * info.duration_us) == 100 * (bps * info.duration_us))
            by (nonlinear_arith);
    }
    let source = plan::source_audio_bps(info);
    assert(info.duration_us == 0 ==> source * (100 * info.duration_us) == 0) by (nonlinear_arith);
}

/// Re-encoded sound fills its share: the rate is the highest that takes no more
/// than 30% of the budget, but no less than 48 kbit/s, and no more than the
/// source had or those 48 kbit/s.
pub proof fn law_sound_fills_its_share(info: MediaInfo, opts: CompressOptions)
    requires
        info.duration_us > 0,
    ensures
        ({
            let source: int = if info.audio_bitrate_bps > 0 {
                info.audio_bitrate_bps as int
            } else {
                160_000
            };
            let most: int = if source > 48_000 {
                source
            } else {
                48_000
            };
            let share = 30 * (8 * opts.max_bytes * opts.margin_ppm);
            let us = info.duration_us as int;
            plan::audio_choice(info, opts) matches AudioAction::Reencode { bps } ==> {
                &&& 48_000 <= bps <= most
                &&& bps > 48_000 ==> 100 * (bps * us) <= share
                &&& bps < most ==> 100 * ((bps + 1) * us) > share
                &&& info.audio_tracks <= 1 ==> bps < source
            }
        }),
{
    let us = info.duration_us as int;
    let n = 8 * plan::AUDIO_MAX_SHARE_PERCENT * opts.max_bytes * opts.margin_ppm;
    lemma_share(info, opts);
    if let AudioAction::Reencode { bps } = plan::audio_choice(info, opts) {
        let b = bps as int;
        arith::lemma_product_within(b, 100 * us, n);
        arith::lemma_product_within(b + 1, 100 * us, n);
        arith::lemma_product_within(plan::source_audio_bps(info), 100 * us, n);
        assert(b * (100 * us) == 100 * (b * us)) by (nonlinear_arith);
        assert((b + 1) * (100 * us) == 100 * ((b + 1) * us)) by (nonlinear_arith);
    }
}

/// A clip of no length re-encodes its sound only to mix it: at the source's rate
/// while there is a budget at all, and at 48 kbit/s where there is none.
pub proof fn law_sound_of_no_length(info: MediaInfo, opts: CompressOptions)
    requires
        info.duration_us == 0,
    ensures
        plan::audio_choice(info, opts) matches AudioAction::Reencode { bps } ==> {
            &&& info.audio_tracks > 1
            &&& bps == if opts.max_bytes > 0 && opts.margin_ppm > 0 && (info.audio_bitrate_bps <= 0
                || info.audio_bitrate_bps > 48_000) {
                if info.audio_bitrate_bps > 0 {
                    info.audio_bitrate_bps as int
                } else {
                    160_000
                }
            } else {
                48_000
            }
        },
{
    lemma_share(info, opts);
    let (m, p) = (opts.max_bytes as int, opts.margin_ppm as int);
    if m > 0 && p > 0 {
        assert(8 * m * p > 0) by (nonlinear_arith)
            requires
                m > 0,
                p > 0,
        ;
    } else {
        assert(8 * m * p == 0) by (nonlinear_arith)
            requires
                m == 0 || p == 0,
        ;
    }
}

/// A track is taken at its own rate wherever the container states one.
pub proof fn law_stated_sound_is_believed(info: MediaInfo)
    ensures
        plan::source_audio_bps(info) > 0,
        info.audio_bitrate_bps > 0 ==> plan::source_audio_bps(info) == info.audio_bitrate_bps,
        info.audio_bitrate_bps <= 0 ==> plan::source_audio_bps(info) == 160_000,
{
}

// ---- frame ----

/// A side is brought down to an even number, by less than two, and is at least
/// two.
pub proof fn law_sides_are_even(x: int)
    ensures
        ({
            let e = plan::even_side(x);
            &&& e % 2 == 0
            &&& e >= 2
            &&& x >= 2 ==> x - 1 <= e <= x
            &&& x < 2 ==> e == 2
        }),
{
}

/// A held frame is the source's, evened out, whatever the bitrate. A side of one
/// or none counts as two.
pub proof fn law_held_frame_is_the_source(info: MediaInfo, opts: CompressOptions, video_bps: int)
    requires
        opts.keep_resolution,
    ensures
        ({
            let (x, y) = plan::resolution_choice(info, opts, video_bps);
            &&& x == if info.width >= 2 {
                info.width - info.width % 2
            } else {
                2
            }
            &&& y == if info.height >= 2 {
                info.height - info.height % 2
            } else {
                2
            }
        }),
{
}

/// A frame that is not held is brought to the pixels its bitrate does justice
/// to, and no further. From 10 Mbit/s on any frame is kept; from 1.6 Mbit/s on
/// 1920 x 1080 pixels, from 700 kbit/s on 1280 x 720, below that 854 x 480. A
/// frame within that is kept. One past it is scaled on both axes by the same
/// factor: each side is the even number at or just below the nearest to its
/// exact share, neither larger nor smaller. A side of one or none counts as two.
pub proof fn law_frame_fits_its_bitrate(info: MediaInfo, opts: CompressOptions, video_bps: int)
    requires
        !opts.keep_resolution,
    ensures
        plan::resolution_choice(info, opts, video_bps) == plan::ladder_choice(info, video_bps),
        ({
            let w: int = if info.width >= 2 {
                info.width as int
            } else {
                2
            };
            let h: int = if info.height >= 2 {
                info.height as int
            } else {
                2
            };
            let (x, y) = plan::ladder_choice(info, video_bps);
            let pixels: int = if video_bps >= 1_600_000 {
                2_073_600
            } else if video_bps >= 700_000 {
                921_600
            } else {
                409_920
            };
            if video_bps >= 10_000_000 || w * h <= pixels {
                x == w - w % 2 && y == h - h % 2
            } else {
                &&& x % 2 == 0 && y % 2 == 0 && 2 <= x <= w && 2 <= y <= h
                &&& x > 2 ==> (2 * x - 1) * (2 * x - 1) * h <= 4 * (pixels * w)
                &&& y > 2 ==> (2 * y - 1) * (2 * y - 1) * w <= 4 * (pixels * h)
                &&& 4 * (pixels * w) < (2 * x + 3) * (2 * x + 3) * h
                &&& 4 * (pixels * h) < (2 * y + 3) * (2 * y + 3) * w
            }
        }),
{
    let w = arith::larger(info.width as int, 2);
    let h = arith::larger(info.height as int, 2);
    let clip = MediaInfo { width: w as i32, height: h as i32, ..info };
    let (x, y) = plan::ladder_choice(info, video_bps);
    assert(plan::ladder_choice(clip, video_bps) == (x, y));
    plan_laws::law_frame_keeps_pixel_budget(clip, video_bps);
    plan_laws::law_never_enlarged(clip, opts, video_bps);
    if let Some(pixels) = plan::pixel_budget(video_bps) {
        if w * h > pixels {
            assert(w * h == h * w) by (nonlinear_arith);
            plan_laws::lemma_scaled_side(w, h, pixels);
            plan_laws::lemma_scaled_side(h, w, pixels);
            lemma_not_smaller(plan::scaled_side(w, h, pixels), x, pixels * w, h);
            lemma_not_smaller(plan::scaled_side(h, w, pixels), y, pixels * h, w);
        }
    }
}

proof fn lemma_not_smaller(r: int, x: int, n: int, d: int)
    requires
        d > 0,
        r >= 0,
        x >= 2,
        r <= x + 1,
        4 * n < (2 * r + 1) * (2 * r + 1) * d,
    ensures
        4 * n < (2 * x + 3) * (2 * x + 3) * d,
{
    let (a, b) = (2 * r + 1, 2 * x + 3);
    assert(a * a * d <= b * b * d) by (nonlinear_arith)
        requires
            0 <= a <= b,
            d > 0,
    ;
}

// ---- frame rate ----

/// A frame rate is the source's, halved as often as it has to be and no more
/// often. It is halved only while 50 kbit/s for each frame per second is more
/// than the bitrate, and only where at least 24 frames per second remain; it is
/// halved on as long as both hold; and a held one is not halved at all.
pub proof fn law_rate_is_halved_as_needed(info: MediaInfo, opts: CompressOptions, video_bps: int)
    ensures
        ({
            let den: int = if info.fps_den >= 1 {
                info.fps_den as int
            } else {
                1
            };
            let (n, d) = plan::fps_choice(info, opts, video_bps);
            &&& n == info.fps_num
            &&& exists|k: nat| d == den * #[trigger] power2::pow2(k)
            &&& opts.keep_fps ==> d == den
            &&& d != den ==> d % 2 == 0 && video_bps * (d / 2) < n * 50_000
            &&& d != den ==> n >= 24 * d
            &&& !opts.keep_fps ==> video_bps * d >= n * 50_000 || n < 48 * d
        }),
{
    plan_laws::law_rate_only_halves(info, opts, video_bps);
    let (n, d) = plan::fps_choice(info, opts, video_bps);
    assert(n * plan::BPS_PER_FPS == n * 50_000) by (nonlinear_arith)
        requires
            plan::BPS_PER_FPS == 50_000,
    ;
    assert(plan::MIN_FPS * d == 24 * d && 2 * plan::MIN_FPS * d == 48 * d) by (nonlinear_arith)
        requires
            plan::MIN_FPS == 24,
    ;
}

// ---- plans ----

/// The first plan is of one piece: its video rate is the one that pays for its
/// own sound out of the budget, and its frame and its frame rate are those for
/// that video rate.
pub proof fn law_first_plan_is_of_one_piece(info: MediaInfo, opts: CompressOptions)
    ensures
        ({
            let p = plan::first_plan(info, opts);
            let v = p.video_bitrate_bps as int;
            &&& p.audio == plan::audio_choice(info, opts)
            &&& v == plan::video_target(info, opts, p.audio)
            &&& (p.width as int, p.height as int) == plan::resolution_choice(info, opts, v)
            &&& (p.fps_num as int, p.fps_den as int) == plan::fps_choice(info, opts, v)
        }),
{
    let audio = plan::audio_choice(info, opts);
    plan_laws::law_video_rate_range(info, opts, audio);
    let v = plan::video_target(info, opts, audio);
    lemma_frame_in_range(info, opts, v);
    plan_laws::lemma_rate_in_range(info, opts, v);
}

proof fn lemma_frame_in_range(info: MediaInfo, opts: CompressOptions, video_bps: int)
    ensures
        2 <= plan::resolution_choice(info, opts, video_bps).0 <= i32::MAX,
        2 <= plan::resolution_choice(info, opts, video_bps).1 <= i32::MAX,
{
    let w = arith::larger(info.width as int, 2);
    let h = arith::larger(info.height as int, 2);
    if let Some(pixels) = plan::pixel_budget(video_bps) {
        if w * h > pixels {
            assert(w * h == h * w) by (nonlinear_arith);
            plan_laws::lemma_scaled_side(w, h, pixels);
            plan_laws::lemma_scaled_side(h, w, pixels);
        }
    }
}

/// A plan after an overshoot is of one piece too: it keeps the sound, and its
/// frame and its frame rate are those for its new video rate.
pub proof fn law_next_plan_is_of_one_piece(
    before: EncodePlan,
    actual_bytes: u64,
    info: MediaInfo,
    opts: CompressOptions,
)
    ensures
        ({
            let p = plan::shrunk_plan(before, actual_bytes, info, opts);
            let v = p.video_bitrate_bps as int;
            &&& p.audio == before.audio
            &&& v == plan::shrunk_bps(before, actual_bytes, info, opts)
            &&& (p.width as int, p.height as int) == plan::resolution_choice(info, opts, v)
            &&& (p.fps_num as int, p.fps_den as int) == plan::fps_choice(info, opts, v)
        }),
{
    plan_laws::law_shrink_keeps_floor(before, actual_bytes, info, opts);
    let v = plan::shrunk_bps(before, actual_bytes, info, opts);
    lemma_frame_in_range(info, opts, v);
    plan_laws::lemma_rate_in_range(info, opts, v);
}

/// A correction is in proportion to the overshoot. Both the size aimed for and
/// the size that came out are taken without the sound, and as at least a byte.
/// The new rate is to the old as the one to the other, or as 97 to 100 where
/// that is less, within half a bit per second: no higher but for the floor of
/// 120 kbit/s, and no lower. Below the floor the rate stays.
pub proof fn law_correction_is_proportional(
    before: EncodePlan,
    actual_bytes: u64,
    info: MediaInfo,
    opts: CompressOptions,
)
    ensures
        ({
            let v = before.video_bitrate_bps as int;
            let next = plan::shrunk_bps(before, actual_bytes, info, opts);
            let sound: int = match before.audio {
                AudioAction::Copy => if info.audio_bitrate_bps > 0 {
                    info.audio_bitrate_bps as int
                } else {
                    160_000
                },
                AudioAction::Reencode { bps } => bps as int,
                AudioAction::Drop => 0,
            };
            let aimed = 8 * opts.max_bytes * opts.margin_ppm - sound * info.duration_us;
            let came = 8_000_000 * actual_bytes - sound * info.duration_us;
            let target: int = if aimed >= 8_000_000 {
                aimed
            } else {
                8_000_000
            };
            let actual: int = if came >= 8_000_000 {
                came
            } else {
                8_000_000
            };
            &&& next <= i64::MAX
            &&& v <= 0 ==> next == 120_000
            &&& 0 < v <= 120_000 ==> next == v
            &&& v > 120_000 ==> {
                &&& 120_000 <= next < v
                &&& next > 120_000 ==> 200 * next <= 194 * v + 100
                &&& next > 120_000 ==> 2 * (next * actual) <= 2 * (v * target) + actual
                &&& 200 * next > 194 * v - 100 || 2 * (next * actual) > 2 * (v * target) - actual
            }
        }),
{
    let v = before.video_bitrate_bps as int;
    let next = plan::shrunk_bps(before, actual_bytes, info, opts);
    let t = plan::target_video_size(info, opts, before.audio);
    let a = plan::actual_video_size(info, actual_bytes, before.audio);
    plan_laws::law_shrink_keeps_floor(before, actual_bytes, info, opts);
    plan_laws::law_shrink_makes_progress(before, actual_bytes, info, opts);
    if v <= 0 {
        assert(v * t <= 0) by (nonlinear_arith)
            requires
                v <= 0,
                t > 0,
        ;
        arith::lemma_rounded_monotone(v * t, 0, a);
        arith::lemma_rounded_parts(0, a, 0, 0);
        arith::lemma_rounded_monotone(v * 97, 0, 100);
        arith::lemma_rounded_parts(0, 100, 0, 0);
    } else if v > 120_000 {
        if next > 120_000 {
            plan_laws::law_shrink_aims_at_target(before, actual_bytes, info, opts);
            assert(2 * next * a == 2 * (next * a)) by (nonlinear_arith);
            assert(2 * v * t == 2 * (v * t)) by (nonlinear_arith);
        }
        arith::lemma_rounded_bounds(v * t, a);
        arith::lemma_rounded_bounds(v * 97, 100);
        if t * 100 < a * 97 {
            let r = arith::rounded(v * t, a);
            assert(r * (2 * a) == 2 * (r * a)) by (nonlinear_arith);
            assert(r * a <= next * a) by (nonlinear_arith)
                requires
                    r <= next,
                    a > 0,
            ;
        }
    }
}

} // verus!
