//! What holds of every plan: the budget is kept, nothing is ever inflated, and
//! shrinking makes progress until there is nothing left to give.

use crate::arith;
use crate::media;
use crate::media::MediaInfo;
use crate::options::CompressOptions;
use crate::plan;
use crate::plan::{AudioAction, EncodePlan};
use vstd::arithmetic::power2;
use vstd::prelude::*;

verus! {

/// A first plan above the bitrate floor spends no more than the margin allows:
/// video and audio together stay within the budget, up to the half bit per
/// second that rounding the rate may add.
pub proof fn law_first_plan_within_budget(info: MediaInfo, opts: CompressOptions)
    requires
        info.duration_us > 0,
        plan::first_plan(info, opts).video_bitrate_bps > plan::MIN_VIDEO_BPS,
    ensures
        ({
            let p = plan::first_plan(info, opts);
            2 * plan::bits_over(info, p.video_bitrate_bps + plan::audio_rate(info, p.audio)) <= 2
                * plan::budget_bits(opts) + info.duration_us
        }),
{
    let audio = plan::audio_choice(info, opts);
    let us = info.duration_us as int;
    let rate = plan::audio_rate(info, audio);
    let left = plan::budget_bits(opts) - plan::bits_over(info, rate);
    let v = plan::video_target(info, opts, audio);
    law_video_rate_range(info, opts, audio);
    assert(plan::first_plan(info, opts).video_bitrate_bps == v);
    arith::lemma_rounded_bounds(arith::larger(left, 0), us);
    if left <= 0 {
        arith::lemma_rounded_parts(0, us, 0, 0);
    }
    let r = arith::rounded(left, us);
    assert(v <= r);
    assert(v * (2 * us) <= r * (2 * us)) by (nonlinear_arith)
        requires
            v <= r,
            us > 0,
    ;
    assert(2 * ((v + rate) * us) == v * (2 * us) + 2 * (rate * us)) by (nonlinear_arith);
}

/// A target video rate is a machine rate, positive, and at or above the floor or
/// the source's own rate, whichever is lower.
pub proof fn law_video_rate_range(info: MediaInfo, opts: CompressOptions, audio: AudioAction)
    ensures
        0 < plan::lowest_bps(info) <= plan::video_target(info, opts, audio) <= i64::MAX,
{
}

/// A larger ceiling, or less headroom below it, never means a lower video rate
/// for the same audio.
pub proof fn law_more_bytes_no_lower_rate(
    info: MediaInfo,
    less: CompressOptions,
    more: CompressOptions,
    audio: AudioAction,
)
    requires
        less.max_bytes <= more.max_bytes,
        less.margin_ppm <= more.margin_ppm,
    ensures
        plan::video_target(info, less, audio) <= plan::video_target(info, more, audio),
{
    assert(plan::budget_bits(less) <= plan::budget_bits(more)) by {
        let (a, b) = (8 * less.max_bytes, 8 * more.max_bytes);
        let (m, n) = (less.margin_ppm as int, more.margin_ppm as int);
        assert(a * m <= b * n) by (nonlinear_arith)
            requires
                0 <= a <= b,
                0 <= m <= n,
        ;
    }
    lemma_rate_rounded_monotone(
        arith::larger(
            plan::budget_bits(less) - plan::bits_over(info, plan::audio_rate(info, audio)),
            0,
        ),
        arith::larger(
            plan::budget_bits(more) - plan::bits_over(info, plan::audio_rate(info, audio)),
            0,
        ),
        info.duration_us as int,
    );
}

proof fn lemma_rate_rounded_monotone(a: int, b: int, d: int)
    requires
        0 <= a <= b,
        d >= 0,
    ensures
        arith::rate_rounded(a, d) <= arith::rate_rounded(b, d),
{
    if d > 0 {
        arith::lemma_rounded_monotone(a, b, d);
    }
}

/// A fixed number of bytes spread over more seconds means no more bits per
/// second.
pub proof fn law_longer_clip_no_higher_rate(
    short: MediaInfo,
    long: MediaInfo,
    opts: CompressOptions,
    audio: AudioAction,
)
    requires
        0 < short.duration_us <= long.duration_us,
        short.video_bitrate_bps == long.video_bitrate_bps,
        plan::audio_rate(short, audio) == plan::audio_rate(long, audio),
        plan::audio_rate(short, audio) >= 0,
    ensures
        plan::video_target(long, opts, audio) <= plan::video_target(short, opts, audio),
{
    let rate = plan::audio_rate(short, audio);
    let (s, l) = (short.duration_us as int, long.duration_us as int);
    assert(rate * s <= rate * l) by (nonlinear_arith)
        requires
            rate >= 0,
            0 < s <= l,
    ;
    let left = arith::larger(plan::budget_bits(opts) - rate * l, 0);
    let more = arith::larger(plan::budget_bits(opts) - rate * s, 0);
    arith::lemma_rounded_antitone(left, s, l);
    arith::lemma_rounded_monotone(left, more, s);
}

/// Dropping the audio spends its share on the picture: the plan has no audio,
/// and no less video rate than the same plan with audio.
pub proof fn law_no_audio_buys_video(info: MediaInfo, opts: CompressOptions)
    ensures
        ({
            let mute = plan::first_plan(info, CompressOptions { include_audio: false, ..opts });
            &&& mute.audio == AudioAction::Drop
            &&& mute.video_bitrate_bps >= plan::first_plan(info, opts).video_bitrate_bps
        }),
{
    let mute = CompressOptions { include_audio: false, ..opts };
    let audio = plan::audio_choice(info, opts);
    let rate = plan::audio_rate(info, audio);
    let us = info.duration_us as int;
    law_audio_never_upward(info, opts);
    assert(rate >= 0);
    assert(rate * us >= 0) by (nonlinear_arith)
        requires
            rate >= 0,
            us >= 0,
    ;
    assert(plan::bits_over(info, 0) == 0) by (nonlinear_arith)
        requires
            plan::bits_over(info, 0) == 0 * info.duration_us,
    ;
    assert(plan::budget_bits(opts) >= 0) by (nonlinear_arith)
        requires
            plan::budget_bits(opts) == 8 * opts.max_bytes * opts.margin_ppm,
    ;
    lemma_rate_rounded_monotone(
        arith::larger(plan::budget_bits(opts) - rate * us, 0),
        plan::budget_bits(opts),
        us,
    );
    law_video_rate_range(info, opts, audio);
    law_video_rate_range(info, mute, AudioAction::Drop);
}

/// Re-encoding never spends more on the picture than the source did, so a
/// small clip never grows: not in the first pass, nor in any after it.
pub proof fn law_never_above_source(
    info: MediaInfo,
    opts: CompressOptions,
    p: EncodePlan,
    actual_bytes: u64,
)
    requires
        info.video_bitrate_bps > 0,
    ensures
        plan::first_plan(info, opts).video_bitrate_bps <= info.video_bitrate_bps,
        0 < p.video_bitrate_bps <= info.video_bitrate_bps ==> plan::shrunk_plan(
            p,
            actual_bytes,
            info,
            opts,
        ).video_bitrate_bps <= info.video_bitrate_bps,
{
    law_video_rate_range(info, opts, plan::audio_choice(info, opts));
    law_shrink_makes_progress(p, actual_bytes, info, opts);
}

/// Audio is never re-encoded upward. A single track is only re-encoded to less
/// than it had; a mix of several asks for no more than the source rate, or the
/// floor where the source is below that.
pub proof fn law_audio_never_upward(info: MediaInfo, opts: CompressOptions)
    ensures
        plan::audio_choice(info, opts) matches AudioAction::Reencode { bps } ==> {
            &&& plan::AUDIO_MIN_BPS <= bps
            &&& bps <= arith::larger(plan::source_audio_bps(info), plan::AUDIO_MIN_BPS as int)
            &&& info.audio_tracks <= 1 ==> bps < plan::source_audio_bps(info)
        },
{
}

/// Audio keeps to its share of the budget, whether copied or re-encoded,
/// except where it is already as quiet as it is worth making it.
pub proof fn law_audio_within_share(info: MediaInfo, opts: CompressOptions)
    ensures
        ({
            let rate = plan::audio_rate(info, plan::audio_choice(info, opts));
            rate > plan::AUDIO_MIN_BPS ==> rate * (100 * info.duration_us) <= 8
                * plan::AUDIO_MAX_SHARE_PERCENT * opts.max_bytes * opts.margin_ppm
        }),
{
    let rate = plan::audio_rate(info, plan::audio_choice(info, opts));
    let us = info.duration_us as int;
    let n = 8 * plan::AUDIO_MAX_SHARE_PERCENT * opts.max_bytes * opts.margin_ppm;
    assert(0 <= 8 * plan::AUDIO_MAX_SHARE_PERCENT * opts.max_bytes * opts.margin_ppm)
        by (nonlinear_arith)
        requires
            plan::AUDIO_MAX_SHARE_PERCENT == 30,
    ;
    if us == 0 {
        assert(rate * (100 * us) == 0) by (nonlinear_arith)
            requires
                us == 0,
        ;
    } else if rate > plan::AUDIO_MIN_BPS {
        arith::lemma_product_within(rate, 100 * us, n);
        arith::lemma_product_within(plan::source_audio_bps(info), 100 * us, n);
    }
}

/// The floor holds after every overshoot too: a rate at or above the least one
/// for its clip stays so.
pub proof fn law_shrink_keeps_floor(
    p: EncodePlan,
    actual_bytes: u64,
    info: MediaInfo,
    opts: CompressOptions,
)
    ensures
        0 < plan::shrink_floor(p.video_bitrate_bps) <= plan::shrunk_bps(p, actual_bytes, info, opts)
            <= i64::MAX,
        p.video_bitrate_bps >= plan::lowest_bps(info) ==> plan::shrunk_bps(
            p,
            actual_bytes,
            info,
            opts,
        ) >= plan::lowest_bps(info),
        plan::shrunk_plan(p, actual_bytes, info, opts).video_bitrate_bps == plan::shrunk_bps(
            p,
            actual_bytes,
            info,
            opts,
        ),
{
    lemma_scaled_down(p, actual_bytes, info, opts);
}

proof fn lemma_scaled_down(
    p: EncodePlan,
    actual_bytes: u64,
    info: MediaInfo,
    opts: CompressOptions,
)
    ensures
        ({
            let r = plan::shrunk_bps(p, actual_bytes, info, opts);
            ||| r == plan::shrink_floor(p.video_bitrate_bps)
            ||| r > plan::shrink_floor(p.video_bitrate_bps) && 200 * r <= 194 * p.video_bitrate_bps
                + 100
        }),
{
    let v = p.video_bitrate_bps as int;
    let t = plan::target_video_size(info, opts, p.audio);
    let a = plan::actual_video_size(info, actual_bytes, p.audio);
    let by_percent = arith::rounded(v * 97, 100);
    arith::lemma_rounded_bounds(v * 97, 100);
    if t * 100 < a * 97 {
        let r = arith::rounded(v * t, a);
        arith::lemma_rounded_bounds(v * t, a);
        if v <= 0 {
            assert(v * t <= 0) by (nonlinear_arith)
                requires
                    v <= 0,
                    t >= 0,
            ;
            arith::lemma_rounded_monotone(v * t, 0, a);
            arith::lemma_rounded_parts(0, a, 0, 0);
        } else {
            // r * 2a <= 2vt + a, and 100t < 97a, so 200r <= 194v + 100.
            assert(200 * r <= 194 * v + 100) by (nonlinear_arith)
                requires
                    r * (2 * a) <= 2 * (v * t) + a,
                    t * 100 < a * 97,
                    v > 0,
                    a > 0,
            {
                assert(100 * (v * t) <= 97 * (v * a)) by (nonlinear_arith)
                    requires
                        t * 100 < a * 97,
                        v > 0,
                ;
                assert((200 * r) * a <= (194 * v + 100) * a) by (nonlinear_arith)
                    requires
                        r * (2 * a) <= 2 * (v * t) + a,
                        100 * (v * t) <= 97 * (v * a),
                ;
                assert(200 * r <= 194 * v + 100) by (nonlinear_arith)
                    requires
                        (200 * r) * a <= (194 * v + 100) * a,
                        a > 0,
                ;
            }
        }
    } else {
        assert(v * plan::SHRINK_MAX_PERCENT == v * 97);
    }
}

/// Every correction lowers the bitrate, by three percent at least, until the
/// floor is reached; at the floor, or below it, a rate stays where it is.
pub proof fn law_shrink_makes_progress(
    p: EncodePlan,
    actual_bytes: u64,
    info: MediaInfo,
    opts: CompressOptions,
)
    ensures
        ({
            let next = plan::shrunk_plan(p, actual_bytes, info, opts).video_bitrate_bps;
            &&& p.video_bitrate_bps > plan::MIN_VIDEO_BPS ==> next < p.video_bitrate_bps
            &&& 0 < p.video_bitrate_bps <= plan::MIN_VIDEO_BPS ==> next == p.video_bitrate_bps
            &&& next > plan::MIN_VIDEO_BPS ==> 100 * next <= 97 * p.video_bitrate_bps + 50
        }),
{
    law_shrink_keeps_floor(p, actual_bytes, info, opts);
    lemma_scaled_down(p, actual_bytes, info, opts);
}

/// A plan that shrinking leaves unchanged is at the floor or below it, and a
/// plan made for such a rate is left unchanged: repeating the encode would give
/// the same file.
pub proof fn law_shrink_stops_at_floor(
    p: EncodePlan,
    actual_bytes: u64,
    info: MediaInfo,
    opts: CompressOptions,
)
    requires
        p.video_bitrate_bps > 0,
        p == plan::plan_at(info, opts, p.audio, p.video_bitrate_bps as int),
    ensures
        plan::shrunk_plan(p, actual_bytes, info, opts) == p <==> p.video_bitrate_bps
            <= plan::MIN_VIDEO_BPS,
{
    law_shrink_makes_progress(p, actual_bytes, info, opts);
    law_shrink_keeps_floor(p, actual_bytes, info, opts);
}

/// A correction aims at the budget: were the video's size to follow its rate,
/// the next video would take up no more than the target, up to rounding the
/// rate. (At the floor the rate follows the floor instead.)
pub proof fn law_shrink_aims_at_target(
    p: EncodePlan,
    actual_bytes: u64,
    info: MediaInfo,
    opts: CompressOptions,
)
    requires
        p.video_bitrate_bps > 0,
        plan::shrunk_bps(p, actual_bytes, info, opts) > plan::MIN_VIDEO_BPS,
    ensures
        ({
            let target = plan::target_video_size(info, opts, p.audio);
            let actual = plan::actual_video_size(info, actual_bytes, p.audio);
            2 * plan::shrunk_bps(p, actual_bytes, info, opts) * actual <= 2 * p.video_bitrate_bps
                * target + actual
        }),
{
    let v = p.video_bitrate_bps as int;
    let t = plan::target_video_size(info, opts, p.audio);
    let a = plan::actual_video_size(info, actual_bytes, p.audio);
    let r = plan::shrunk_bps(p, actual_bytes, info, opts);
    arith::lemma_rounded_bounds(v * t, a);
    arith::lemma_rounded_bounds(v * 97, 100);
    if t * 100 < a * 97 {
        assert(2 * r * a == r * (2 * a)) by (nonlinear_arith);
        assert(2 * v * t == 2 * (v * t)) by (nonlinear_arith);
    } else {
        assert(v * plan::SHRINK_MAX_PERCENT == v * 97);
        assert(200 * r <= 194 * v + 100);
        assert(2 * r * a <= 2 * v * t + a) by (nonlinear_arith)
            requires
                200 * r <= 194 * v + 100,
                t * 100 >= a * 97,
                v > 0,
                a > 0,
        {
            assert((200 * r) * a <= (194 * v + 100) * a) by (nonlinear_arith)
                requires
                    200 * r <= 194 * v + 100,
                    a > 0,
            ;
            assert(v * (t * 100) >= v * (a * 97)) by (nonlinear_arith)
                requires
                    t * 100 >= a * 97,
                    v > 0,
            ;
            assert(2 * r * a <= 2 * v * t + a) by (nonlinear_arith)
                requires
                    (200 * r) * a <= (194 * v + 100) * a,
                    v * (t * 100) >= v * (a * 97),
            ;
        }
    }
}

/// Correction passes leave the audio decision alone.
pub proof fn law_shrink_keeps_audio(
    p: EncodePlan,
    actual_bytes: u64,
    info: MediaInfo,
    opts: CompressOptions,
)
    ensures
        plan::shrunk_plan(p, actual_bytes, info, opts).audio == p.audio,
{
}

// ---- frames ----

/// What scaling one side gives: a nearest root no longer than the side.
pub proof fn lemma_scaled_side(a: int, b: int, pixels: int)
    requires
        a >= 1,
        b >= 1,
        0 <= pixels < a * b,
    ensures
        0 <= plan::scaled_side(a, b, pixels) <= a,
        arith::is_nearest_root(plan::scaled_side(a, b, pixels), pixels * a, b),
{
    plan::lemma_scaled_side_bounds(a, b, pixels);
    assert(pixels * a >= 0) by (nonlinear_arith)
        requires
            pixels >= 0,
            a >= 1,
    ;
    arith::lemma_nearest_root(pixels * a, b, a);
}

/// Frames come out with even sides, which is what encoders take, and no
/// bigger than the source: clips are never enlarged. A source with a side of
/// one or none is the exception; it is encoded two pixels wide or tall.
pub proof fn law_never_enlarged(info: MediaInfo, opts: CompressOptions, video_bps: int)
    requires
        info.width >= 2,
        info.height >= 2,
    ensures
        ({
            let (w, h) = plan::resolution_choice(info, opts, video_bps);
            &&& 2 <= w <= info.width
            &&& 2 <= h <= info.height
            &&& w % 2 == 0
            &&& h % 2 == 0
        }),
{
    lemma_frame_bounds(info.width as int, info.height as int, video_bps);
}

proof fn lemma_frame_bounds(w: int, h: int, video_bps: int)
    requires
        w >= 2,
        h >= 2,
    ensures
        2 <= plan::ladder_frame(w, h, video_bps).0 <= w,
        2 <= plan::ladder_frame(w, h, video_bps).1 <= h,
        plan::ladder_frame(w, h, video_bps).0 % 2 == 0,
        plan::ladder_frame(w, h, video_bps).1 % 2 == 0,
{
    if let Some(pixels) = plan::pixel_budget(video_bps) {
        if w * h > pixels {
            assert(w * h == h * w) by (nonlinear_arith);
            lemma_scaled_side(w, h, pixels);
            lemma_scaled_side(h, w, pixels);
        }
    }
}

/// More bitrate never means a smaller frame: the resolution steps down only as
/// far as the bitrate warrants.
pub proof fn law_more_bits_no_smaller_frame(info: MediaInfo, low_bps: int, high_bps: int)
    requires
        low_bps <= high_bps,
    ensures
        plan::ladder_choice(info, low_bps).0 <= plan::ladder_choice(info, high_bps).0,
        plan::ladder_choice(info, low_bps).1 <= plan::ladder_choice(info, high_bps).1,
{
    let w = arith::larger(info.width as int, 2);
    let h = arith::larger(info.height as int, 2);
    lemma_frame_bounds(w, h, low_bps);
    match (plan::pixel_budget(low_bps), plan::pixel_budget(high_bps)) {
        (Some(few), Some(many)) => {
            if w * h > many {
                assert(w * h == h * w) by (nonlinear_arith);
                lemma_scaled_side(w, h, few);
                lemma_scaled_side(h, w, few);
                lemma_scaled_side(w, h, many);
                lemma_scaled_side(h, w, many);
                assert(few * w <= many * w && few * h <= many * h) by (nonlinear_arith)
                    requires
                        few <= many,
                        w > 0,
                        h > 0,
                ;
                arith::lemma_nearest_root_monotone(few * w, many * w, h);
                arith::lemma_nearest_root_monotone(few * h, many * h, w);
            }
        },
        _ => {},
    }
}

/// The budget is a number of pixels. A frame within it is kept; one past it is
/// scaled on both axes by the one factor that brings it to the budget, so each
/// side, above the least of two, is at most half a pixel over its exact share.
pub proof fn law_frame_keeps_pixel_budget(info: MediaInfo, video_bps: int)
    requires
        info.width >= 2,
        info.height >= 2,
    ensures
        ({
            let (w, h) = (info.width as int, info.height as int);
            let (x, y) = plan::ladder_choice(info, video_bps);
            match plan::pixel_budget(video_bps) {
                Some(pixels) if w * h > pixels => {
                    &&& x > 2 ==> (2 * x - 1) * (2 * x - 1) * h <= 4 * (pixels * w)
                    &&& y > 2 ==> (2 * y - 1) * (2 * y - 1) * w <= 4 * (pixels * h)
                },
                _ => x == w - w % 2 && y == h - h % 2,
            }
        }),
{
    let (w, h) = (info.width as int, info.height as int);
    let (x, y) = plan::ladder_choice(info, video_bps);
    if let Some(pixels) = plan::pixel_budget(video_bps) {
        if w * h > pixels {
            assert(w * h == h * w) by (nonlinear_arith);
            lemma_scaled_side(w, h, pixels);
            lemma_scaled_side(h, w, pixels);
            lemma_even_side_within(plan::scaled_side(w, h, pixels), x, pixels * w, h);
            lemma_even_side_within(plan::scaled_side(h, w, pixels), y, pixels * h, w);
        }
    }
}

proof fn lemma_even_side_within(root: int, side: int, n: int, d: int)
    requires
        d > 0,
        arith::is_nearest_root(root, n, d),
        side == plan::even_side(root),
    ensures
        side > 2 ==> (2 * side - 1) * (2 * side - 1) * d <= 4 * n,
{
    if side > 2 {
        assert((2 * side - 1) * (2 * side - 1) * d <= (2 * root - 1) * (2 * root - 1) * d)
            by (nonlinear_arith)
            requires
                2 < side <= root,
                d > 0,
        {
            assert((2 * side - 1) * (2 * side - 1) <= (2 * root - 1) * (2 * root - 1))
                by (nonlinear_arith)
                requires
                    2 < side <= root,
            ;
        }
    }
}

/// For 16:9 sources the pixel budget is a height cap: anything larger comes
/// out as exactly 1080p, 720p or 480p.
pub proof fn law_sixteen_by_nine_is_height_cap(info: MediaInfo, video_bps: int)
    requires
        info.width >= 2,
        info.height >= 2,
        9 * info.width == 16 * info.height,
        plan::pixel_budget(video_bps) matches Some(pixels) && info.width * info.height > pixels,
    ensures
        plan::ladder_choice(info, video_bps) == if video_bps >= 1_600_000 {
            (1920int, 1080int)
        } else if video_bps >= 700_000 {
            (1280int, 720int)
        } else {
            (854int, 480int)
        },
{
    let (w, h) = (info.width as int, info.height as int);
    let k = h / 9;
    assert(w == 16 * k && h == 9 * k);
    if video_bps >= 1_600_000 {
        assert((2 * 1920int - 1) * (2 * 1920int - 1) == 14737921 && (2 * 1920int + 1) * (2 * 1920int + 1)
            == 14753281) by (nonlinear_arith);
        lemma_reference_side(1920, 14737921, 14753281, 1920 * 1080int, w, h, k);
        assert((2 * 1080int - 1) * (2 * 1080int - 1) == 4661281 && (2 * 1080int + 1) * (2 * 1080int + 1)
            == 4669921) by (nonlinear_arith);
        lemma_reference_side(1080, 4661281, 4669921, 1920 * 1080int, h, w, k);
    } else if video_bps >= 700_000 {
        assert((2 * 1280int - 1) * (2 * 1280int - 1) == 6548481 && (2 * 1280int + 1) * (2 * 1280int + 1)
            == 6558721) by (nonlinear_arith);
        lemma_reference_side(1280, 6548481, 6558721, 1280 * 720int, w, h, k);
        assert((2 * 720int - 1) * (2 * 720int - 1) == 2070721 && (2 * 720int + 1) * (2 * 720int + 1)
            == 2076481) by (nonlinear_arith);
        lemma_reference_side(720, 2070721, 2076481, 1280 * 720int, h, w, k);
    } else {
        assert((2 * 854int - 1) * (2 * 854int - 1) == 2913849 && (2 * 854int + 1) * (2 * 854int + 1)
            == 2920681) by (nonlinear_arith);
        lemma_reference_side(854, 2913849, 2920681, 854 * 480int, w, h, k);
        assert((2 * 480int - 1) * (2 * 480int - 1) == 919681 && (2 * 480int + 1) * (2 * 480int + 1)
            == 923521) by (nonlinear_arith);
        lemma_reference_side(480, 919681, 923521, 854 * 480int, h, w, k);
    }
}

proof fn lemma_reference_side(r: int, p: int, q: int, pixels: int, a: int, b: int, k: int)
    requires
        k > 0,
        r > 0,
        p == (2 * r - 1) * (2 * r - 1),
        q == (2 * r + 1) * (2 * r + 1),
        (a == 16 * k && b == 9 * k && p * 9 <= 4 * pixels * 16 < q * 9) || (a == 9 * k && b == 16
            * k && p * 16 <= 4 * pixels * 9 < q * 16),
    ensures
        plan::scaled_side(a, b, pixels) == r,
{
    if a == 16 * k && b == 9 * k && p * 9 <= 4 * pixels * 16 < q * 9 {
        assert(p * b <= 4 * (pixels * a) < q * b) by (nonlinear_arith)
            requires
                k > 0,
                a == 16 * k,
                b == 9 * k,
                p * 9 <= 4 * pixels * 16 < q * 9,
        ;
    } else {
        assert(p * b <= 4 * (pixels * a) < q * b) by (nonlinear_arith)
            requires
                k > 0,
                a == 9 * k,
                b == 16 * k,
                p * 16 <= 4 * pixels * 9 < q * 16,
        ;
    }
    arith::lemma_nearest_root_is(r, pixels * a, b);
}

// ---- frame rates ----

/// A frame rate is only ever halved, some number of times: the numerator stays
/// and the denominator is doubled. Halving stops at once when the bitrate
/// covers the rate, stops before going below 24 frames per second, and goes on
/// otherwise: no fewer halvings would do.
pub proof fn law_rate_only_halves(info: MediaInfo, opts: CompressOptions, video_bps: int)
    ensures
        ({
            let den = media::rate_den(info.fps_den);
            let (n, d) = plan::fps_choice(info, opts, video_bps);
            &&& n == info.fps_num
            &&& exists|k: nat| d == den * #[trigger] power2::pow2(k)
            &&& d != den ==> n >= plan::MIN_FPS * d
            &&& d != den ==> d % 2 == 0 && !plan::affords_rate(video_bps, n, d / 2)
            &&& d != den ==> !plan::affords_rate(video_bps, n, den)
            &&& !opts.keep_fps ==> plan::affords_rate(video_bps, n, d) || !plan::can_halve(n, d)
            &&& opts.keep_fps ==> d == den
        }),
{
    let den = media::rate_den(info.fps_den);
    if opts.keep_fps {
        power2::lemma2_to64();
        assert(den == den * power2::pow2(0));
    } else {
        lemma_settled(info.fps_num as int, den, video_bps);
    }
}

proof fn lemma_settled(num: int, den: int, video_bps: int)
    requires
        den > 0,
    ensures
        ({
            let d = plan::settled_den(num, den, video_bps);
            &&& d >= den
            &&& exists|k: nat| d == den * #[trigger] power2::pow2(k)
            &&& d != den ==> num >= plan::MIN_FPS * d
            &&& d != den ==> d % 2 == 0 && !plan::affords_rate(video_bps, num, d / 2)
            &&& d != den ==> !plan::affords_rate(video_bps, num, den)
            &&& plan::affords_rate(video_bps, num, d) || !plan::can_halve(num, d)
        }),
    decreases num - den,
{
    if plan::affords_rate(video_bps, num, den) || !plan::can_halve(num, den) {
        power2::lemma2_to64();
        assert(den == den * power2::pow2(0));
    } else {
        plan::lemma_halving_leaves_room(num, den);
        assert(num >= 48 * den);
        lemma_settled(num, 2 * den, video_bps);
        let d = plan::settled_den(num, den, video_bps);
        let k = choose|k: nat| d == 2 * den * #[trigger] power2::pow2(k);
        power2::lemma_pow2_unfold(k + 1);
        assert(den * power2::pow2(k + 1) == 2 * den * power2::pow2(k)) by (nonlinear_arith)
            requires
                power2::pow2(k + 1) == 2 * power2::pow2(k),
        ;
        assert(plan::MIN_FPS * (2 * den) == 48 * den) by (nonlinear_arith)
            requires
                plan::MIN_FPS == 24,
        ;
    }
}

/// A chosen rate has a denominator that fits a machine integer.
pub proof fn lemma_rate_in_range(info: MediaInfo, opts: CompressOptions, video_bps: int)
    ensures
        1 <= plan::fps_choice(info, opts, video_bps).1 <= i32::MAX,
{
    let den = media::rate_den(info.fps_den);
    lemma_settled(info.fps_num as int, den, video_bps);
    let d = plan::settled_den(info.fps_num as int, den, video_bps);
    assert(plan::MIN_FPS * d == 24 * d) by (nonlinear_arith)
        requires
            plan::MIN_FPS == 24,
    ;
}

/// More bitrate never means fewer frames per second.
pub proof fn law_more_bits_no_fewer_frames(
    info: MediaInfo,
    opts: CompressOptions,
    low_bps: int,
    high_bps: int,
)
    requires
        low_bps <= high_bps,
    ensures
        plan::fps_choice(info, opts, low_bps).1 >= plan::fps_choice(info, opts, high_bps).1,
{
    lemma_settled_monotone(
        info.fps_num as int,
        media::rate_den(info.fps_den),
        low_bps,
        high_bps,
    );
}

proof fn lemma_settled_monotone(num: int, den: int, low_bps: int, high_bps: int)
    requires
        den > 0,
        low_bps <= high_bps,
    ensures
        plan::settled_den(num, den, low_bps) >= plan::settled_den(num, den, high_bps),
    decreases num - den,
{
    assert(low_bps * den <= high_bps * den) by (nonlinear_arith)
        requires
            den > 0,
            low_bps <= high_bps,
    ;
    lemma_settled(num, den, low_bps);
    if !plan::affords_rate(low_bps, num, den) && plan::can_halve(num, den) {
        plan::lemma_halving_leaves_room(num, den);
        assert(num >= 48 * den);
        lemma_settled_monotone(num, 2 * den, low_bps, high_bps);
    }
}

/// Holding the frame shows up as a difference only where the ladder would have
/// gone smaller.
pub proof fn law_hold_is_never_smaller(info: MediaInfo, opts: CompressOptions, video_bps: int)
    ensures
        ({
            let (w, h) = plan::resolution_choice(info, opts, video_bps);
            let (x, y) = plan::ladder_choice(info, video_bps);
            &&& x <= w
            &&& y <= h
            &&& !opts.keep_resolution ==> (x, y) == (w, h)
        }),
{
    let w = arith::larger(info.width as int, 2);
    let h = arith::larger(info.height as int, 2);
    if let Some(pixels) = plan::pixel_budget(video_bps) {
        if w * h > pixels {
            assert(w * h == h * w) by (nonlinear_arith);
            lemma_scaled_side(w, h, pixels);
            lemma_scaled_side(h, w, pixels);
        }
    }
}

} // verus!
