//! What holds of every clip on its way under the ceiling.

use crate::arith;
use crate::media;
use crate::media::MediaInfo;
use crate::options;
use crate::options::{CompressOptions, EncoderKind};
use crate::plan;
use crate::plan::{AudioAction, EncodePlan};
use crate::plan_laws;
use crate::session;
use crate::session::{CompressOutcome, Session, Work};
use vstd::prelude::*;

verus! {

/// The work after a history of measured sizes, `None` once there is no more.
pub open spec fn work_after(
    info: MediaInfo,
    opts: CompressOptions,
    work: Work,
    sizes: Seq<u64>,
) -> Option<Work>
    decreases sizes.len(),
{
    if sizes.len() == 0 {
        Some(work)
    } else {
        match work_after(info, opts, work, sizes.drop_last()) {
            Some(w) => session::next_work(info, opts, w, sizes.last()),
            None => None,
        }
    }
}

/// The plan of the pass after a history of sizes that were all too large.
pub open spec fn plan_after(
    info: MediaInfo,
    opts: CompressOptions,
    first: EncodePlan,
    sizes: Seq<u64>,
) -> EncodePlan
    decreases sizes.len(),
{
    if sizes.len() == 0 {
        first
    } else {
        plan::shrunk_plan(
            plan_after(info, opts, first, sizes.drop_last()),
            sizes.last(),
            info,
            opts,
        )
    }
}

/// A clip is encoded again only while every file so far was over the ceiling
/// and passes are left. Each pass is to the plan before it, shrunk by what that
/// one came out at.
pub proof fn law_passes(
    info: MediaInfo,
    opts: CompressOptions,
    first: EncodePlan,
    kind: EncoderKind,
    sizes: Seq<u64>,
)
    requires
        sizes.len() > 0,
        work_after(info, opts, Work::Encode { pass: 1, plan: first, kind }, sizes) is Some,
    ensures
        forall|i: int| 0 <= i < sizes.len() ==> #[trigger] sizes[i] > opts.max_bytes,
        1 + sizes.len() <= opts.max_passes,
        work_after(info, opts, Work::Encode { pass: 1, plan: first, kind }, sizes) == Some(
            Work::Encode {
                pass: (1 + sizes.len()) as u32,
                plan: plan_after(info, opts, first, sizes),
                kind,
            },
        ),
    decreases sizes.len(),
{
    reveal_with_fuel(work_after, 2);
    reveal_with_fuel(plan_after, 2);
    let before = sizes.drop_last();
    if before.len() > 0 {
        law_passes(info, opts, first, kind, before);
        assert forall|i: int| 0 <= i < sizes.len() implies #[trigger] sizes[i] > opts.max_bytes by {
            if i < before.len() {
                assert(before[i] == sizes[i]);
            }
        }
    }
}

/// And it is encoded again as long as every file was over the ceiling, passes
/// are left, and each plan differed from the one before it.
pub proof fn law_passes_go_on(
    info: MediaInfo,
    opts: CompressOptions,
    first: EncodePlan,
    kind: EncoderKind,
    sizes: Seq<u64>,
)
    requires
        1 + sizes.len() <= opts.max_passes,
        forall|i: int| 0 <= i < sizes.len() ==> #[trigger] sizes[i] > opts.max_bytes,
        forall|i: int|
            0 <= i < sizes.len() ==> plan_after(info, opts, first, #[trigger] sizes.take(i))
                != plan_after(info, opts, first, sizes.take(i + 1)),
    ensures
        work_after(info, opts, Work::Encode { pass: 1, plan: first, kind }, sizes) is Some,
    decreases sizes.len(),
{
    if sizes.len() > 0 {
        let before = sizes.drop_last();
        let n = before.len() as int;
        assert forall|i: int| 0 <= i < n implies #[trigger] before[i] > opts.max_bytes by {
            assert(before[i] == sizes[i]);
        }
        assert forall|i: int| 0 <= i < n implies plan_after(
            info,
            opts,
            first,
            #[trigger] before.take(i),
        ) != plan_after(info, opts, first, before.take(i + 1)) by {
            assert(before.take(i) =~= sizes.take(i));
            assert(before.take(i + 1) =~= sizes.take(i + 1));
        }
        law_passes_go_on(info, opts, first, kind, before);
        assert(sizes.take(n) =~= before);
        assert(sizes.take(n + 1) =~= sizes);
        assert(sizes[n] == sizes.last());
        if n > 0 {
            law_passes(info, opts, first, kind, before);
        } else {
            reveal_with_fuel(work_after, 2);
            reveal_with_fuel(plan_after, 2);
        }
    }
}

/// No clip is encoded more often than the passes allow, and each is encoded at
/// least once: whatever the sizes, there is no more work after as many files.
pub proof fn law_passes_are_bounded(
    info: MediaInfo,
    opts: CompressOptions,
    first: EncodePlan,
    kind: EncoderKind,
    sizes: Seq<u64>,
)
    requires
        sizes.len() >= 1,
        sizes.len() >= opts.max_passes,
    ensures
        work_after(info, opts, Work::Encode { pass: 1, plan: first, kind }, sizes) is None,
{
    if work_after(info, opts, Work::Encode { pass: 1, plan: first, kind }, sizes) is Some {
        law_passes(info, opts, first, kind, sizes);
    }
}

/// Every further pass asks for a lower bitrate than the one before it, for no
/// larger a frame and no more frames, and leaves the audio as it was.
pub proof fn law_bitrate_falls(
    info: MediaInfo,
    opts: CompressOptions,
    pass: u32,
    before: EncodePlan,
    kind: EncoderKind,
    bytes: u64,
)
    requires
        before.video_bitrate_bps > 0,
        before == plan::plan_at(info, opts, before.audio, before.video_bitrate_bps as int),
    ensures
        session::next_work(info, opts, Work::Encode { pass, plan: before, kind }, bytes) matches Some(
            Work::Encode { pass: next_pass, plan: after, .. },
        ) ==> {
            &&& next_pass == pass + 1
            &&& after.video_bitrate_bps < before.video_bitrate_bps
            &&& after.audio == before.audio
            &&& after.width <= before.width
            &&& after.height <= before.height
            &&& after.fps_num == before.fps_num
            &&& after.fps_den >= before.fps_den
        },
{
    plan_laws::law_shrink_makes_progress(before, bytes, info, opts);
    plan_laws::law_shrink_keeps_floor(before, bytes, info, opts);
    plan_laws::law_shrink_stops_at_floor(before, bytes, info, opts);
    let after = plan::shrunk_plan(before, bytes, info, opts);
    lemma_frame_in_range(info, opts, before.video_bitrate_bps as int);
    lemma_frame_in_range(info, opts, after.video_bitrate_bps as int);
    plan_laws::law_more_bits_no_smaller_frame(
        info,
        after.video_bitrate_bps as int,
        before.video_bitrate_bps as int,
    );
    plan_laws::law_more_bits_no_fewer_frames(
        info,
        opts,
        after.video_bitrate_bps as int,
        before.video_bitrate_bps as int,
    );
    plan_laws::lemma_rate_in_range(info, opts, before.video_bitrate_bps as int);
    plan_laws::lemma_rate_in_range(info, opts, after.video_bitrate_bps as int);
}

proof fn lemma_frame_in_range(info: MediaInfo, opts: CompressOptions, video_bps: int)
    ensures
        2 <= plan::resolution_choice(info, opts, video_bps).0 <= i32::MAX,
        2 <= plan::resolution_choice(info, opts, video_bps).1 <= i32::MAX,
        2 <= plan::ladder_choice(info, video_bps).0 <= i32::MAX,
        2 <= plan::ladder_choice(info, video_bps).1 <= i32::MAX,
{
    plan_laws::law_hold_is_never_smaller(info, opts, video_bps);
    let w = arith::larger(info.width as int, 2);
    let h = arith::larger(info.height as int, 2);
    if let Some(pixels) = plan::pixel_budget(video_bps) {
        if w * h > pixels {
            assert(w * h == h * w) by (nonlinear_arith);
            plan_laws::lemma_scaled_side(w, h, pixels);
            plan_laws::lemma_scaled_side(h, w, pixels);
        }
    }
}

/// The one promise: an outcome says that it fits exactly when the file is at or
/// under the ceiling.
pub proof fn law_fits_means_under_ceiling(s: Session, bytes: u64, o: CompressOutcome)
    requires
        session::is_outcome(s, bytes, o),
    ensures
        o.fits <==> o.final_bytes <= s.opts.max_bytes,
{
}

/// A clip that ends over the ceiling has used up its passes, or has reached the
/// point where another pass would give the same file.
pub proof fn law_giving_up(s: Session, bytes: u64, o: CompressOutcome)
    requires
        s.sound(),
        session::next_work(s.info, s.opts, s.work, bytes) is None,
        session::is_outcome(s, bytes, o),
        !o.fits,
    ensures
        o.passes >= s.opts.max_passes || o.last_plan.video_bitrate_bps <= plan::MIN_VIDEO_BPS,
{
    if let Work::Encode { plan, .. } = s.work {
        plan_laws::law_shrink_stops_at_floor(plan, bytes, s.info, s.opts);
    }
}

/// A clip is copied rather than encoded exactly when it is H.264 already, its
/// size is known, and it is at or under the ceiling.
pub proof fn law_small_clips_are_copied(info: MediaInfo, opts: CompressOptions, source_bytes: u64)
    ensures
        session::first_work(info, opts, source_bytes) is Remux <==> {
            &&& info.video_codec@ == "h264"@
            &&& 0 < source_bytes <= opts.max_bytes
        },
{
}

/// A copied file fits, and nothing about the picture has changed.
pub proof fn law_copies_keep_the_picture(s: Session, bytes: u64, o: CompressOutcome)
    requires
        s.work is Remux,
        session::next_work(s.info, s.opts, s.work, bytes) is None,
        session::is_outcome(s, bytes, o),
    ensures
        o.fits,
        o.passes == 0,
        o.last_plan.width == s.info.width,
        o.last_plan.height == s.info.height,
        o.last_plan.fps_num == s.info.fps_num,
        o.last_plan.video_bitrate_bps == s.info.video_bitrate_bps,
        o.held_instead_of is None,
{
}

/// Holding the frame is only reported where it was asked for, and the size that
/// is named is no larger than the one used, and smaller in some direction.
pub proof fn law_held_frame_is_larger(s: Session, bytes: u64, o: CompressOutcome)
    requires
        s.sound(),
        session::is_outcome(s, bytes, o),
    ensures
        o.held_instead_of matches Some((w, h)) ==> {
            &&& s.opts.keep_resolution
            &&& w <= o.last_plan.width
            &&& h <= o.last_plan.height
            &&& w < o.last_plan.width || h < o.last_plan.height
        },
{
    if let Work::Encode { plan, .. } = s.work {
        plan_laws::law_hold_is_never_smaller(s.info, s.opts, plan.video_bitrate_bps as int);
        lemma_frame_in_range(s.info, s.opts, plan.video_bitrate_bps as int);
    }
}

/// More headroom wins: NVENC's margin is taken where it is the smaller one, and
/// no other option is touched.
pub proof fn law_more_headroom_wins(
    opts: CompressOptions,
    kind: EncoderKind,
    nvenc_margin_ppm: u32,
)
    ensures
        ({
            let e = session::effective_options(opts, kind, nvenc_margin_ppm);
            &&& e.margin_ppm == if kind == EncoderKind::Nvenc {
                arith::smaller(opts.margin_ppm as int, nvenc_margin_ppm as int)
            } else {
                opts.margin_ppm as int
            }
            &&& e.max_bytes == opts.max_bytes
            &&& e.max_passes == opts.max_passes
            &&& e.keep_fps == opts.keep_fps
            &&& e.keep_resolution == opts.keep_resolution
            &&& e.include_audio == opts.include_audio
        }),
{
}

/// Progress runs from nothing to the whole, and never backwards as timestamps
/// grow; it is nothing only up to the start.
pub proof fn law_progress_is_monotone(
    earlier: int,
    later: int,
    time_base: (i32, i32),
    duration_us: int,
)
    requires
        earlier <= later,
        time_base.0 >= 0,
        duration_us > 0,
    ensures
        0 <= session::fraction_of(earlier, time_base, duration_us) <= session::fraction_of(
            later,
            time_base,
            duration_us,
        ) <= options::WHOLE_PPB,
        session::fraction_of(later, time_base, duration_us) == 0 <==> later * time_base.0 <= 0,
{
    let num = time_base.0 as int;
    let whole = media::rate_den(time_base.1) * duration_us;
    assert(whole > 0) by (nonlinear_arith)
        requires
            whole == media::rate_den(time_base.1) * duration_us,
            media::rate_den(time_base.1) >= 1,
            duration_us > 0,
    ;
    assert(earlier * num <= later * num) by (nonlinear_arith)
        requires
            earlier <= later,
            num >= 0,
    ;
    vstd::arithmetic::div_mod::lemma_div_is_ordered(
        earlier * num * 1_000_000 * 1_000_000_000,
        later * num * 1_000_000 * 1_000_000_000,
        whole,
    );
}

// ---- what the loop comes to ----

/// A clip that is copied keeps its sound exactly when it has any and it is
/// wanted, whatever is known of the sound's rate. Several tracks, and only
/// several, are mixed, at the rate that a plan for the clip gives its sound.
pub proof fn law_copying_asks_for_the_sound(
    info: MediaInfo,
    opts: CompressOptions,
    source_bytes: u64,
)
    ensures
        session::first_work(info, opts, source_bytes) matches Work::Remux {
            include_audio,
            mix_bps,
        } ==> {
            &&& include_audio == (opts.include_audio && info.has_audio)
            &&& mix_bps is Some <==> opts.include_audio && info.has_audio && info.audio_tracks > 1
            &&& mix_bps matches Some(bps) ==> plan::first_plan(info, opts).audio == (
            AudioAction::Reencode { bps })
        },
        !(session::first_work(info, opts, source_bytes) is Encode),
{
}

/// What is reported of a copied clip's sound is what was done with it: dropped
/// exactly when there is none or it is not wanted, mixed exactly when there are
/// several tracks, and copied otherwise.
pub proof fn law_copied_sound_is_reported(
    s: Session,
    source_bytes: u64,
    bytes: u64,
    o: CompressOutcome,
)
    requires
        s.work == session::first_work(s.info, s.opts, source_bytes),
        s.work is Remux,
        session::is_outcome(s, bytes, o),
    ensures
        ({
            let kept = s.opts.include_audio && s.info.has_audio;
            &&& o.last_plan.audio is Drop <==> !kept
            &&& o.last_plan.audio is Copy <==> kept && s.info.audio_tracks <= 1
            &&& o.last_plan.audio is Reencode <==> kept && s.info.audio_tracks > 1
            &&& o.last_plan.audio is Reencode ==> o.last_plan.audio == plan::first_plan(
                s.info,
                s.opts,
            ).audio
        }),
{
}

/// After a copy: done if the file is at or under the ceiling, and otherwise on
/// to finding an encoder.
pub proof fn law_after_a_copy(
    info: MediaInfo,
    opts: CompressOptions,
    include_audio: bool,
    mix_bps: Option<i64>,
    bytes: u64,
)
    ensures
        ({
            let next = session::next_work(
                info,
                opts,
                Work::Remux { include_audio, mix_bps },
                bytes,
            );
            &&& next is None <==> bytes <= opts.max_bytes
            &&& next is Some ==> next == Some(Work::ChooseEncoder)
        }),
{
}

/// After an encode there is no more to do exactly when the file is at or under
/// the ceiling, the passes are used up, or the rate is at the floor of
/// 120 kbit/s or below it. Otherwise the same encoder makes one more pass, to
/// the plan shrunk by the size that came out.
pub proof fn law_after_an_encode(
    s: Session,
    pass: u32,
    before: EncodePlan,
    kind: EncoderKind,
    bytes: u64,
)
    requires
        s.sound(),
        s.work == (Work::Encode { pass, plan: before, kind }),
    ensures
        ({
            let next = session::next_work(s.info, s.opts, s.work, bytes);
            &&& next is None <==> {
                ||| bytes <= s.opts.max_bytes
                ||| pass >= s.opts.max_passes
                ||| before.video_bitrate_bps <= 120_000
            }
            &&& next is Some ==> next == Some(
                Work::Encode {
                    pass: (pass + 1) as u32,
                    plan: plan::shrunk_plan(before, bytes, s.info, s.opts),
                    kind,
                },
            )
        }),
{
    plan_laws::law_shrink_stops_at_floor(before, bytes, s.info, s.opts);
}

/// While an encoder is being looked for, a size changes nothing.
pub proof fn law_no_encoder_yet(info: MediaInfo, opts: CompressOptions, bytes: u64)
    ensures
        session::next_work(info, opts, Work::ChooseEncoder, bytes) == Some(Work::ChooseEncoder),
{
}

/// An outcome tells what happened: where the file is, how large it is, whether
/// that is at or under the ceiling, how many passes there were, to what plan the
/// last was, and that there was none where the file was copied as it was.
pub proof fn law_outcome_tells_what_happened(s: Session, bytes: u64, o: CompressOutcome)
    requires
        session::is_outcome(s, bytes, o),
    ensures
        o.output@ == s.output@,
        o.final_bytes == bytes,
        o.fits == (bytes <= s.opts.max_bytes),
        o.info == s.info,
        o.remuxed == s.work is Remux,
        s.work is Remux ==> o.passes == 0,
        s.work matches Work::Encode { pass, plan, .. } ==> o.passes == pass && o.last_plan == plan,
        s.work is Remux ==> {
            &&& o.last_plan.width == s.info.width
            &&& o.last_plan.height == s.info.height
            &&& o.last_plan.fps_num == s.info.fps_num
            &&& s.info.fps_den >= 1 ==> o.last_plan.fps_den == s.info.fps_den
            &&& s.info.fps_den < 1 ==> o.last_plan.fps_den == 1
            &&& o.last_plan.video_bitrate_bps == s.info.video_bitrate_bps
        },
{
}

/// The size named as the one that a frame was held instead of is the one that
/// the same clip gets at the same rate with nothing held. It is named exactly
/// when the frame was to be held and the two differ.
pub proof fn law_hold_is_owned_up_to(s: Session, bytes: u64, o: CompressOutcome)
    requires
        session::is_outcome(s, bytes, o),
        s.work is Encode,
    ensures
        ({
            let free = CompressOptions { keep_resolution: false, ..s.opts };
            let (w, h) = plan::resolution_choice(
                s.info,
                free,
                o.last_plan.video_bitrate_bps as int,
            );
            &&& o.held_instead_of is Some <==> s.opts.keep_resolution && !(o.last_plan.width == w
                && o.last_plan.height == h)
            &&& o.held_instead_of matches Some((x, y)) ==> x == w && y == h
        }),
{
    let free = CompressOptions { keep_resolution: false, ..s.opts };
    lemma_frame_in_range(s.info, free, o.last_plan.video_bitrate_bps as int);
}

/// Only NVENC's margin is ever touched, and only to leave more headroom: every
/// other option is the caller's.
pub proof fn law_options_are_the_callers(
    opts: CompressOptions,
    kind: EncoderKind,
    nvenc_margin_ppm: u32,
)
    ensures
        ({
            let e = session::effective_options(opts, kind, nvenc_margin_ppm);
            &&& e == (CompressOptions { margin_ppm: e.margin_ppm, ..opts })
            &&& e.margin_ppm <= opts.margin_ppm
            &&& kind != EncoderKind::Nvenc ==> e.margin_ppm == opts.margin_ppm
            &&& kind == EncoderKind::Nvenc ==> e.margin_ppm <= nvenc_margin_ppm && (e.margin_ppm
                == opts.margin_ppm || e.margin_ppm == nvenc_margin_ppm)
        }),
{
}

/// Progress is the share of the clip that the timestamp is at, to the billionth
/// below: nothing up to the start, the whole from the end on, and in between at
/// least the first billionth.
pub proof fn law_progress_is_the_share(pts: int, time_base: (i32, i32), duration_us: int)
    requires
        duration_us > 0,
    ensures
        ({
            let f = session::fraction_of(pts, time_base, duration_us);
            let den: int = if time_base.1 >= 1 {
                time_base.1 as int
            } else {
                1
            };
            let at = pts * time_base.0 * 1_000_000;
            let end = den * duration_us;
            &&& at <= 0 ==> f == 0
            &&& at >= end ==> f == 1_000_000_000
            &&& 0 < at < end ==> {
                &&& 1 <= f < 1_000_000_000
                &&& f > 1 ==> f * end <= at * 1_000_000_000
                &&& (f + 1) * end > at * 1_000_000_000
            }
        }),
{
    let end = media::rate_den(time_base.1) * duration_us;
    assert(end > 0) by (nonlinear_arith)
        requires
            end == media::rate_den(time_base.1) * duration_us,
            media::rate_den(time_base.1) >= 1,
            duration_us > 0,
    ;
    let n = pts * time_base.0 * 1_000_000 * 1_000_000_000;
    let f = session::fraction_of(pts, time_base, duration_us);
    arith::lemma_product_within(f, end, n);
    arith::lemma_product_within(f + 1, end, n);
    arith::lemma_product_within(1_000_000_000, end, n);
    arith::lemma_product_within(0, end, n);
}

/// Progress is passed on at the start of a pass and whenever it has moved by a
/// hundredth of the whole, either way, and at no other time; the first report is
/// always passed on.
pub proof fn law_progress_is_passed_on(last: Option<u32>, fraction: u32)
    ensures
        session::worth_reporting(last, fraction) <==> {
            ||| last is None
            ||| fraction == 0
            ||| fraction - last->0 >= 10_000_000
            ||| last->0 - fraction >= 10_000_000
        },
{
}

} // verus!
