//! The measure-then-re-encode loop: no single-pass encoder guarantees a hard
//! size cap, so the only way to promise "under N bytes" is to check, and to
//! encode again at a lower bitrate where the check fails.
//!
//! Files and codecs are handled elsewhere. A [`Session`] says what work is to
//! be done next, and is told what came of it.

use crate::options;
use crate::options::{CompressOptions, EncoderKind};
use crate::arith;
use crate::media;
use crate::media::MediaInfo;
use crate::plan;
use crate::plan::{AudioAction, EncodePlan};
use crate::plan_laws;
use vstd::prelude::*;

verus! {

/// Reported as each encode pass advances, for progress displays and logs.
#[derive(Debug)]
pub struct PassInfo {
    pub pass: u32,
    pub max_passes: u32,
    pub plan: EncodePlan,
    /// FFmpeg's name of the encoder in use.
    pub encoder: String,
    /// How far through the current pass, in parts per billion.
    pub fraction_ppb: u32,
}

#[derive(Debug)]
pub struct CompressOutcome {
    pub output: String,
    pub final_bytes: u64,
    pub passes: u32,
    /// Whether the final file is within `max_bytes`.
    pub fits: bool,
    pub info: MediaInfo,
    pub last_plan: EncodePlan,
    /// True when the file was copied rather than re-encoded, because it already
    /// fitted the ceiling.
    pub remuxed: bool,
    /// When the frame was held at the source size and the ladder would have
    /// chosen something smaller, the size it would have chosen. `None` when no
    /// hold was asked for, or when holding cost nothing.
    pub held_instead_of: Option<(i32, i32)>,
}

/// What is to be done next.
#[derive(Clone, Copy, Debug)]
pub enum Work {
    /// Copy the streams into an MP4, and measure the file.
    Remux { include_audio: bool, mix_bps: Option<i64> },
    /// Find out which encoder works.
    ChooseEncoder,
    /// Encode to this plan, and measure the file.
    Encode { pass: u32, plan: EncodePlan, kind: EncoderKind },
}

/// One clip on its way under the ceiling.
#[derive(Debug)]
pub struct Session {
    pub output: String,
    pub info: MediaInfo,
    pub opts: CompressOptions,
    pub work: Work,
}

/// What came of a measurement.
#[derive(Debug)]
pub enum Progress {
    Continue(Session),
    Finished(CompressOutcome),
}

/// Audio is kept.
pub open spec fn audio_kept(info: MediaInfo, opts: CompressOptions) -> bool {
    opts.include_audio && info.has_audio
}

/// The rate to mix at where a copy has several tracks: the one that the planner
/// picks for a full pass.
pub open spec fn mix_rate(info: MediaInfo, opts: CompressOptions) -> Option<i64> {
    match plan::audio_choice(info, opts) {
        AudioAction::Reencode { bps } if info.audio_tracks > 1 => Some(bps),
        _ => None,
    }
}

/// A clip that already fits needs no encoding at all. Only H.264 qualifies:
/// anything else has to be converted, for the output to be H.264 in MP4.
pub open spec fn fits_as_it_is(info: MediaInfo, opts: CompressOptions, source_bytes: u64) -> bool {
    info.video_codec@ == "h264"@ && 0 < source_bytes <= opts.max_bytes
}

/// The first work on a clip.
pub open spec fn first_work(info: MediaInfo, opts: CompressOptions, source_bytes: u64) -> Work {
    if fits_as_it_is(info, opts, source_bytes) {
        Work::Remux { include_audio: audio_kept(info, opts), mix_bps: mix_rate(info, opts) }
    } else {
        Work::ChooseEncoder
    }
}

/// The options once the encoder is known. NVENC overshoots its average enough
/// to need more headroom; a caller asking for even more of it wins.
pub open spec fn effective_options(
    opts: CompressOptions,
    kind: EncoderKind,
    nvenc_margin_ppm: u32,
) -> CompressOptions {
    if kind == EncoderKind::Nvenc && nvenc_margin_ppm < opts.margin_ppm {
        CompressOptions { margin_ppm: nvenc_margin_ppm, ..opts }
    } else {
        opts
    }
}

/// The work after a file was measured, `None` where there is no more.
pub open spec fn next_work(
    info: MediaInfo,
    opts: CompressOptions,
    work: Work,
    bytes: u64,
) -> Option<Work> {
    match work {
        Work::Remux { .. } => if bytes <= opts.max_bytes {
            None
        } else {
            // A container swap can change the overhead; where that pushes the
            // file past the ceiling it is encoded after all.
            Some(Work::ChooseEncoder)
        },
        Work::ChooseEncoder => Some(Work::ChooseEncoder),
        Work::Encode { pass, plan, kind } => {
            let next = plan::shrunk_plan(plan, bytes, info, opts);
            if bytes <= opts.max_bytes || pass >= opts.max_passes || next == plan {
                None
            } else {
                Some(Work::Encode { pass: (pass + 1) as u32, plan: next, kind })
            }
        },
    }
}

/// What a copied file is reported to be.
pub open spec fn remux_plan(info: MediaInfo, include_audio: bool, mix_bps: Option<i64>) -> EncodePlan {
    EncodePlan {
        width: info.width,
        height: info.height,
        fps_num: info.fps_num,
        fps_den: media::rate_den(info.fps_den) as i32,
        video_bitrate_bps: info.video_bitrate_bps,
        audio: if !include_audio {
            AudioAction::Drop
        } else {
            match mix_bps {
                Some(bps) => AudioAction::Reencode { bps },
                None => AudioAction::Copy,
            }
        },
    }
}

/// The size that holding the frame was done instead of, where that makes a
/// difference.
pub open spec fn held_instead(
    info: MediaInfo,
    opts: CompressOptions,
    used: EncodePlan,
) -> Option<(i32, i32)> {
    let (w, h) = plan::ladder_choice(info, used.video_bitrate_bps as int);
    if opts.keep_resolution && (w, h) != (used.width as int, used.height as int) {
        Some((w as i32, h as i32))
    } else {
        None
    }
}

/// The outcome when the last work produced a file of this size.
pub open spec fn is_outcome(s: Session, bytes: u64, o: CompressOutcome) -> bool {
    &&& o.output@ == s.output@
    &&& o.final_bytes == bytes
    &&& o.fits == (bytes <= s.opts.max_bytes)
    &&& o.info == s.info
    &&& match s.work {
        Work::Remux { include_audio, mix_bps } => {
            &&& o.passes == 0
            &&& o.last_plan == remux_plan(s.info, include_audio, mix_bps)
            &&& o.remuxed
            &&& o.held_instead_of is None
        },
        Work::ChooseEncoder => false,
        Work::Encode { pass, plan, .. } => {
            &&& o.passes == pass
            &&& o.last_plan == plan
            &&& !o.remuxed
            &&& o.held_instead_of == held_instead(s.info, s.opts, plan)
        },
    }
}

/// Start on a clip of `source_bytes` (zero where that is unknown), to be
/// written to `output`, at or below the ceiling of `opts`.
pub fn compress_to_target(
    info: MediaInfo,
    output: String,
    opts: CompressOptions,
    source_bytes: u64,
) -> (r: Session)
    ensures
        r.info == info,
        r.output == output,
        r.opts == opts,
        r.work == first_work(info, opts, source_bytes),
        r.sound(),
{
    let h264 = "h264".to_owned();
    let work = if info.video_codec == h264 && source_bytes > 0 && source_bytes <= opts.max_bytes {
        // Several tracks still have to be mixed, which needs an encode; the
        // planner picks the rate, exactly as it would for a full pass.
        let mix_bps = match plan::plan_initial(&info, &opts).audio {
            AudioAction::Reencode { bps } => if info.audio_tracks > 1 {
                Some(bps)
            } else {
                None
            },
            _ => None,
        };
        Work::Remux { include_audio: opts.include_audio && info.has_audio, mix_bps }
    } else {
        Work::ChooseEncoder
    };
    Session { output, info, opts, work }
}

impl Session {
    /// A copy keeps the sound that there is and that is wanted, and mixes several
    /// tracks. An encode is to a plan that suits the clip, the options and its
    /// own bitrate; the passes are counted from one, and the first is to the
    /// first plan.
    pub open spec fn sound(self) -> bool {
        match self.work {
            Work::Encode { pass, plan, .. } => {
                &&& pass >= 1
                &&& pass == 1 ==> plan == plan::first_plan(self.info, self.opts)
                &&& plan.video_bitrate_bps >= plan::lowest_bps(self.info)
                &&& self.info.video_bitrate_bps > 0 ==> plan.video_bitrate_bps
                    <= self.info.video_bitrate_bps
                &&& plan == plan::plan_at(
                    self.info,
                    self.opts,
                    plan.audio,
                    plan.video_bitrate_bps as int,
                )
            },
            Work::Remux { include_audio, mix_bps } => {
                &&& include_audio == (self.opts.include_audio && self.info.has_audio)
                &&& mix_bps is Some <==> include_audio && self.info.audio_tracks > 1
                &&& mix_bps matches Some(bps) ==> plan::first_plan(self.info, self.opts).audio == (
                AudioAction::Reencode { bps })
            },
            Work::ChooseEncoder => true,
        }
    }

    /// The encoder that works was found: plan the first pass for it. Asked for
    /// at any other time, nothing changes.
    pub fn encoder_resolved(self, kind: EncoderKind, nvenc_margin_ppm: u32) -> (r: Session)
        ensures
            r.info == self.info,
            r.output == self.output,
            self.sound() ==> r.sound(),
            self.work is ChooseEncoder ==> {
                &&& r.opts == effective_options(self.opts, kind, nvenc_margin_ppm)
                &&& r.work == (Work::Encode {
                    pass: 1,
                    plan: plan::first_plan(self.info, r.opts),
                    kind,
                })
            },
            !(self.work is ChooseEncoder) ==> r == self,
    {
        match self.work {
            Work::ChooseEncoder => {
                let mut opts = self.opts;
                if kind == EncoderKind::Nvenc && nvenc_margin_ppm < opts.margin_ppm {
                    opts.margin_ppm = nvenc_margin_ppm;
                }
                let plan = plan::plan_initial(&self.info, &opts);
                proof {
                    plan_laws::law_video_rate_range(
                        self.info,
                        opts,
                        plan::audio_choice(self.info, opts),
                    );
                }
                Session {
                    output: self.output,
                    info: self.info,
                    opts,
                    work: Work::Encode { pass: 1, plan, kind },
                }
            },
            _ => self,
        }
    }

    /// The file that the current work produced has this size: either it is
    /// done with, because the file fits, the passes are used up or the plan has
    /// nothing left to give, or it is to be encoded again to a tighter plan.
    pub fn measured(self, bytes: u64) -> (r: Progress)
        ensures
            match next_work(self.info, self.opts, self.work, bytes) {
                Some(work) => r matches Progress::Continue(s) && {
                    &&& s.output == self.output
                    &&& s.info == self.info
                    &&& s.opts == self.opts
                    &&& s.work == work
                    &&& self.sound() ==> s.sound()
                },
                None => r matches Progress::Finished(o) && is_outcome(self, bytes, o),
            },
    {
        match self.work {
            Work::Remux { include_audio, mix_bps } => {
                if bytes <= self.opts.max_bytes {
                    let audio = if !include_audio {
                        AudioAction::Drop
                    } else {
                        match mix_bps {
                            Some(bps) => AudioAction::Reencode { bps },
                            None => AudioAction::Copy,
                        }
                    };
                    let last_plan = EncodePlan {
                        width: self.info.width,
                        height: self.info.height,
                        fps_num: self.info.fps_num,
                        fps_den: media::sound_den(self.info.fps_den),
                        video_bitrate_bps: self.info.video_bitrate_bps,
                        audio,
                    };
                    Progress::Finished(
                        CompressOutcome {
                            output: self.output,
                            final_bytes: bytes,
                            passes: 0,
                            fits: true,
                            info: self.info,
                            last_plan,
                            remuxed: true,
                            held_instead_of: None,
                        },
                    )
                } else {
                    Progress::Continue(
                        Session {
                            output: self.output,
                            info: self.info,
                            opts: self.opts,
                            work: Work::ChooseEncoder,
                        },
                    )
                }
            },
            Work::ChooseEncoder => Progress::Continue(self),
            Work::Encode { pass, plan, kind } => {
                let fits: bool = bytes <= self.opts.max_bytes;
                if !fits && pass < self.opts.max_passes {
                    let next = plan.shrink(bytes, &self.info, &self.opts);
                    if next != plan {
                        proof {
                            plan_laws::law_shrink_keeps_floor(plan, bytes, self.info, self.opts);
                            plan_laws::law_shrink_makes_progress(plan, bytes, self.info, self.opts);
                        }
                        return Progress::Continue(
                            Session {
                                output: self.output,
                                info: self.info,
                                opts: self.opts,
                                work: Work::Encode { pass: pass + 1, plan: next, kind },
                            },
                        );
                    }
                }
                let held_instead_of = held(&self.info, &self.opts, &plan);
                Progress::Finished(
                    CompressOutcome {
                        output: self.output,
                        final_bytes: bytes,
                        passes: pass,
                        fits,
                        info: self.info,
                        last_plan: plan,
                        remuxed: false,
                        held_instead_of,
                    },
                )
            },
        }
    }

    /// What to report as the current pass starts, before anything is read: that
    /// nothing of it is done yet. `None` between passes.
    pub fn pass_started(&self) -> (r: Option<PassInfo>)
        ensures
            match self.work {
                Work::Encode { pass, plan, kind } => r matches Some(p) && {
                    &&& p.pass == pass
                    &&& p.max_passes == self.opts.max_passes
                    &&& p.plan == plan
                    &&& p.encoder@ == crate::encoder::encoder_name(kind)
                    &&& p.fraction_ppb == 0
                },
                _ => r is None,
            },
    {
        self.pass_info(0)
    }

    /// What to report of the current pass, `None` between passes.
    pub fn pass_info(&self, fraction_ppb: u32) -> (r: Option<PassInfo>)
        ensures
            match self.work {
                Work::Encode { pass, plan, kind } => r matches Some(p) && {
                    &&& p.pass == pass
                    &&& p.max_passes == self.opts.max_passes
                    &&& p.plan == plan
                    &&& p.encoder@ == crate::encoder::encoder_name(kind)
                    &&& p.fraction_ppb == fraction_ppb
                },
                _ => r is None,
            },
    {
        match self.work {
            Work::Encode { pass, plan, kind } => Some(
                PassInfo {
                    pass,
                    max_passes: self.opts.max_passes,
                    plan,
                    encoder: kind.name().to_owned(),
                    fraction_ppb,
                },
            ),
            _ => None,
        }
    }
}

fn held(info: &MediaInfo, opts: &CompressOptions, used: &EncodePlan) -> (r: Option<(i32, i32)>)
    ensures
        r == held_instead(*info, *opts, *used),
{
    let (w, h) = plan::ladder_resolution(info, used.video_bitrate_bps);
    if opts.keep_resolution && (w != used.width || h != used.height) {
        Some((w, h))
    } else {
        None
    }
}

// ---- progress ----

/// How far a timestamp is through a clip, in parts per billion, rounded down;
/// but once it is past the start, no longer nothing.
pub open spec fn fraction_of(pts: int, time_base: (i32, i32), duration_us: int) -> int {
    let at = pts * time_base.0;
    if at <= 0 {
        0
    } else {
        arith::larger(
            1,
            arith::smaller(
                options::WHOLE_PPB as int,
                (at * 1_000_000 * 1_000_000_000) / (media::rate_den(time_base.1) * duration_us),
            ),
        )
    }
}

/// How far reading has come, from the timestamp of a packet: a good measure of
/// how far the pass has. `None` where the packet has no timestamp or the clip
/// no length.
pub fn pass_fraction(pts: Option<i64>, time_base: (i32, i32), duration_us: u64) -> (r: Option<u32>)
    ensures
        match pts {
            Some(p) if duration_us > 0 => r == Some(
                fraction_of(p as int, time_base, duration_us as int) as u32,
            ),
            _ => r is None,
        },
        r matches Some(f) ==> f <= options::WHOLE_PPB,
{
    let pts: i64 = match pts {
        Some(p) => p,
        None => {
            return None;
        },
    };
    if duration_us == 0 {
        return None;
    }
    let den: i32 = media::sound_den(time_base.1);
    proof {
        lemma_fraction_fits(pts as int, time_base.0 as int, den as int, duration_us as int);
    }
    let at: i128 = (pts as i128) * (time_base.0 as i128);
    let whole: u128 = (den as u128) * (duration_us as u128);
    if at <= 0 {
        return Some(0);
    }
    let scaled: u128 = (at as u128) * 1_000_000;
    if scaled >= whole {
        proof {
            lemma_fraction_high(at as int, whole as int);
        }
        return Some(options::WHOLE_PPB);
    }
    let f: u128 = scaled * 1_000_000_000 / whole;
    proof {
        lemma_fraction_mid(at as int, whole as int);
    }
    Some(
        if f >= 1 {
            f as u32
        } else {
            1
        },
    )
}

proof fn lemma_fraction_fits(pts: int, num: int, den: int, us: int)
    requires
        -0x8000_0000_0000_0000 <= pts <= 0x7fff_ffff_ffff_ffff,
        -0x8000_0000 <= num <= 0x7fff_ffff,
        1 <= den <= 0x7fff_ffff,
        1 <= us <= 0xffff_ffff_ffff_ffff,
    ensures
        -0x8000_0000_0000_0000 * 0x8000_0000 <= pts * num <= 0x8000_0000_0000_0000 * 0x8000_0000,
        1 <= den * us <= 0x7fff_ffff * 0xffff_ffff_ffff_ffff,
{
    assert(-0x8000_0000_0000_0000 * 0x8000_0000 <= pts * num <= 0x8000_0000_0000_0000
        * 0x8000_0000) by (nonlinear_arith)
        requires
            -0x8000_0000_0000_0000 <= pts <= 0x7fff_ffff_ffff_ffff,
            -0x8000_0000 <= num <= 0x7fff_ffff,
    ;
    assert(1 <= den * us <= 0x7fff_ffff * 0xffff_ffff_ffff_ffff) by (nonlinear_arith)
        requires
            1 <= den <= 0x7fff_ffff,
            1 <= us <= 0xffff_ffff_ffff_ffff,
    ;
}

proof fn lemma_fraction_high(at: int, whole: int)
    requires
        whole >= 1,
        at * 1_000_000 >= whole,
    ensures
        (at * 1_000_000 * 1_000_000_000) / whole >= 1_000_000_000,
{
    arith::lemma_product_within(1_000_000_000, whole, at * 1_000_000 * 1_000_000_000);
}

proof fn lemma_fraction_mid(at: int, whole: int)
    requires
        whole >= 1,
        at > 0,
        at * 1_000_000 < whole,
    ensures
        0 <= (at * 1_000_000 * 1_000_000_000) / whole < 1_000_000_000,
{
    arith::lemma_product_within(1_000_000_000, whole, at * 1_000_000 * 1_000_000_000);
    arith::lemma_product_within(0, whole, at * 1_000_000 * 1_000_000_000);
}

/// Whether a fraction is worth passing on, given the last one that was: it is
/// where a pass starts, and where it moved by a hundredth.
pub open spec fn worth_reporting(last_ppb: Option<u32>, fraction_ppb: u32) -> bool {
    match last_ppb {
        None => true,
        Some(last) => fraction_ppb == 0 || fraction_ppb >= last + 10_000_000 || last >= fraction_ppb
            + 10_000_000,
    }
}

/// Progress comes with every packet; only meaningful changes are passed on.
pub fn should_report(last_ppb: Option<u32>, fraction_ppb: u32) -> (r: bool)
    ensures
        r == worth_reporting(last_ppb, fraction_ppb),
{
    match last_ppb {
        None => true,
        Some(last) => fraction_ppb == 0 || fraction_ppb as u64 >= last as u64 + 10_000_000
            || last as u64 >= fraction_ppb as u64 + 10_000_000,
    }
}

} // verus!
