//! The filter descriptions that FFmpeg's graph parser is handed.

use crate::media;
use crate::plan::EncodePlan;
use crate::text;
use vstd::prelude::*;

verus! {

/// `scale` to the exact frame, `fps` for a constant rate, and one pixel format.
pub open spec fn video_filter_text(plan: EncodePlan) -> Seq<char> {
    "scale="@ + text::decimal(plan.width as int) + ":"@ + text::decimal(plan.height as int)
        + ":flags=bicubic,fps="@ + text::decimal(plan.fps_num as int) + "/"@ + text::decimal(
        media::rate_den(plan.fps_den),
    ) + ",format=pix_fmts=yuv420p"@
}

/// The video filter chain of a plan: exact frame size, constant frame rate,
/// one pixel format.
pub fn video_filter_spec(plan: &EncodePlan) -> (r: String)
    ensures
        r@ == video_filter_text(*plan),
{
    let mut s = "scale=".to_owned();
    text::push_decimal(&mut s, plan.width as i64);
    s.append(":");
    text::push_decimal(&mut s, plan.height as i64);
    s.append(":flags=bicubic,fps=");
    text::push_decimal(&mut s, plan.fps_num as i64);
    s.append("/");
    text::push_decimal(&mut s, media::sound_den(plan.fps_den) as i64);
    s.append(",format=pix_fmts=yuv420p");
    s
}

/// What the video buffer source has to know of the decoder.
#[derive(Clone, Copy, Debug, PartialEq, Eq)]
pub struct VideoSource {
    pub width: i32,
    pub height: i32,
    pub pix_fmt: i32,
    pub time_base: (i32, i32),
    pub pixel_aspect: (i32, i32),
}

pub open spec fn video_source_text(v: VideoSource) -> Seq<char> {
    "video_size="@ + text::decimal(v.width as int) + "x"@ + text::decimal(v.height as int)
        + ":pix_fmt="@ + text::decimal(v.pix_fmt as int) + ":time_base="@ + text::decimal(
        v.time_base.0 as int,
    ) + "/"@ + text::decimal(v.time_base.1 as int) + ":pixel_aspect="@ + text::decimal(
        v.pixel_aspect.0 as int,
    ) + "/"@ + text::decimal(v.pixel_aspect.1 as int)
}

/// Arguments of the video buffer source.
pub fn video_source_args(v: &VideoSource) -> (r: String)
    ensures
        r@ == video_source_text(*v),
{
    let mut s = "video_size=".to_owned();
    text::push_decimal(&mut s, v.width as i64);
    s.append("x");
    text::push_decimal(&mut s, v.height as i64);
    s.append(":pix_fmt=");
    text::push_decimal(&mut s, v.pix_fmt as i64);
    s.append(":time_base=");
    text::push_decimal(&mut s, v.time_base.0 as i64);
    s.append("/");
    text::push_decimal(&mut s, v.time_base.1 as i64);
    s.append(":pixel_aspect=");
    text::push_decimal(&mut s, v.pixel_aspect.0 as i64);
    s.append("/");
    text::push_decimal(&mut s, v.pixel_aspect.1 as i64);
    s
}

/// At least one.
pub open spec fn positive(x: i32) -> int {
    if x >= 1 {
        x as int
    } else {
        1
    }
}

/// A given text, or a default where there is none.
pub open spec fn text_or(given: Option<&str>, default: Seq<char>) -> Seq<char> {
    match given {
        Some(s) => s@,
        None => default,
    }
}

pub open spec fn audio_source_text(
    time_base: (i32, i32),
    sample_rate: i32,
    sample_fmt: Option<&str>,
    layout: Option<&str>,
) -> Seq<char> {
    "time_base="@ + text::decimal(positive(time_base.0)) + "/"@ + text::decimal(
        positive(time_base.1),
    ) + ":sample_rate="@ + text::decimal(positive(sample_rate)) + ":sample_fmt="@ + text_or(
        sample_fmt,
        "fltp"@,
    ) + ":channel_layout="@ + text_or(layout, "stereo"@)
}

/// Arguments of one audio buffer source. A format FFmpeg has no name for is
/// taken for planar float, a layout it cannot describe for stereo.
pub fn audio_source_args(
    time_base: (i32, i32),
    sample_rate: i32,
    sample_fmt: Option<&str>,
    layout: Option<&str>,
) -> (r: String)
    ensures
        r@ == audio_source_text(time_base, sample_rate, sample_fmt, layout),
{
    let mut s = "time_base=".to_owned();
    text::push_decimal(&mut s, media::sound_den(time_base.0) as i64);
    s.append("/");
    text::push_decimal(&mut s, media::sound_den(time_base.1) as i64);
    s.append(":sample_rate=");
    text::push_decimal(&mut s, media::sound_den(sample_rate) as i64);
    s.append(":sample_fmt=");
    match sample_fmt {
        Some(f) => s.append(f),
        None => s.append("fltp"),
    }
    s.append(":channel_layout=");
    match layout {
        Some(l) => s.append(l),
        None => s.append("stereo"),
    }
    s
}

/// The name of the graph input that takes track `i`.
pub open spec fn input_name(i: int) -> Seq<char> {
    "ain"@ + text::digits(i)
}

/// The name of the graph input that takes one track.
pub fn audio_input_name(i: usize) -> (r: String)
    ensures
        r@ == input_name(i as int),
{
    let mut s = "ain".to_owned();
    text::push_number(&mut s, i as u128);
    s
}

/// Labels of the first `n` graph inputs, one after the other.
pub open spec fn input_labels(n: int) -> Seq<char>
    decreases n,
{
    if n <= 0 {
        Seq::empty()
    } else {
        input_labels(n - 1) + "["@ + input_name(n - 1) + "]"@
    }
}

/// Several tracks meet in a mix; one needs none.
pub open spec fn mix_text(inputs: int) -> Seq<char> {
    if inputs > 1 {
        "amix=inputs="@ + text::digits(inputs) + ":duration=longest,"@
    } else {
        Seq::empty()
    }
}

pub open spec fn audio_filter_text(inputs: int, rate: i32, layout: Option<&str>) -> Seq<char> {
    input_labels(inputs) + mix_text(inputs) + "aformat=sample_fmts=fltp:sample_rates="@
        + text::decimal(rate as int) + ":channel_layouts="@ + text_or(layout, "stereo"@)
        + "[aout]"@
}

/// The audio filter chain: every track, mixed where there are several, and
/// converted to what the encoder takes. The ends are labelled, so that the
/// graph is linked by name. The mix divides by the number of live inputs, for
/// summing without that clips sound that already peaks near full scale.
pub fn audio_filter_spec(inputs: usize, rate: i32, layout: Option<&str>) -> (r: String)
    ensures
        r@ == audio_filter_text(inputs as int, rate, layout),
{
    let mut s = String::new();
    let mut i: usize = 0;
    while i < inputs
        invariant
            i <= inputs,
            s@ == input_labels(i as int),
        decreases inputs - i,
    {
        s.append("[");
        let name = audio_input_name(i);
        s.append(name.as_str());
        s.append("]");
        i = i + 1;
    }
    if inputs > 1 {
        s.append("amix=inputs=");
        text::push_number(&mut s, inputs as u128);
        s.append(":duration=longest,");
    }
    s.append("aformat=sample_fmts=fltp:sample_rates=");
    text::push_decimal(&mut s, rate as i64);
    s.append(":channel_layouts=");
    match layout {
        Some(l) => s.append(l),
        None => s.append("stereo"),
    }
    s.append("[aout]");
    assert(s@ =~= audio_filter_text(inputs as int, rate, layout));
    s
}

// ---- laws ----

/// The video is scaled to the plan's frame and brought to its constant rate, a
/// denominator below one counting as one, in one pixel format.
pub proof fn law_video_is_filtered_to_the_plan(plan: EncodePlan)
    ensures
        video_filter_text(plan) == "scale="@ + text::decimal(plan.width as int) + ":"@
            + text::decimal(plan.height as int) + ":flags=bicubic,fps="@ + text::decimal(
            plan.fps_num as int,
        ) + "/"@ + text::decimal(
            if plan.fps_den >= 1 {
                plan.fps_den as int
            } else {
                1
            },
        ) + ",format=pix_fmts=yuv420p"@,
{
}

/// Every track has a label of its own in the mix, in order; the mix counts them
/// and lasts as long as the longest, and a single track is not mixed at all.
pub proof fn law_every_track_is_in_the_mix(inputs: int, rate: i32, layout: Option<&str>)
    requires
        inputs >= 1,
    ensures
        ({
            let ending = "aformat=sample_fmts=fltp:sample_rates="@ + text::decimal(rate as int)
                + ":channel_layouts="@ + (match layout {
                Some(l) => l@,
                None => "stereo"@,
            }) + "[aout]"@;
            &&& inputs == 1 ==> audio_filter_text(inputs, rate, layout) == "["@ + "ain"@
                + text::digits(0) + "]"@ + ending
            &&& inputs > 1 ==> audio_filter_text(inputs, rate, layout) == input_labels(inputs)
                + "amix=inputs="@ + text::digits(inputs) + ":duration=longest,"@ + ending
            &&& input_labels(inputs) == input_labels(inputs - 1) + "["@ + "ain"@ + text::digits(
                inputs - 1,
            ) + "]"@
        }),
{
    let whole = audio_filter_text(inputs, rate, layout);
    reveal_with_fuel(input_labels, 2);
    if inputs == 1 {
        assert(whole =~= "["@ + "ain"@ + text::digits(0) + "]"@ + (
        "aformat=sample_fmts=fltp:sample_rates="@ + text::decimal(rate as int)
            + ":channel_layouts="@ + text_or(layout, "stereo"@) + "[aout]"@));
    } else {
        assert(whole =~= input_labels(inputs) + "amix=inputs="@ + text::digits(inputs)
            + ":duration=longest,"@ + ("aformat=sample_fmts=fltp:sample_rates="@ + text::decimal(
            rate as int,
        ) + ":channel_layouts="@ + text_or(layout, "stereo"@) + "[aout]"@));
    }
    assert(input_labels(inputs) =~= input_labels(inputs - 1) + "["@ + "ain"@ + text::digits(
        inputs - 1,
    ) + "]"@);
}

/// The graph is told what the decoders give: sizes and times as they are for the
/// video, and for the audio at least one of each, with planar float and stereo
/// for what has no name.
pub proof fn law_sources_are_described(
    v: VideoSource,
    time_base: (i32, i32),
    sample_rate: i32,
    sample_fmt: Option<&str>,
    layout: Option<&str>,
)
    ensures
        video_source_text(v) == "video_size="@ + text::decimal(v.width as int) + "x"@
            + text::decimal(v.height as int) + ":pix_fmt="@ + text::decimal(v.pix_fmt as int)
            + ":time_base="@ + text::decimal(v.time_base.0 as int) + "/"@ + text::decimal(
            v.time_base.1 as int,
        ) + ":pixel_aspect="@ + text::decimal(v.pixel_aspect.0 as int) + "/"@ + text::decimal(
            v.pixel_aspect.1 as int,
        ),
        time_base.0 >= 1 && time_base.1 >= 1 && sample_rate >= 1 && sample_fmt is Some && layout
            is Some ==> audio_source_text(time_base, sample_rate, sample_fmt, layout)
            == "time_base="@ + text::decimal(time_base.0 as int) + "/"@ + text::decimal(
            time_base.1 as int,
        ) + ":sample_rate="@ + text::decimal(sample_rate as int) + ":sample_fmt="@
            + sample_fmt->0@ + ":channel_layout="@ + layout->0@,
        time_base.0 < 1 ==> audio_source_text(time_base, sample_rate, sample_fmt, layout)
            == audio_source_text((1, time_base.1), sample_rate, sample_fmt, layout),
        time_base.1 < 1 ==> audio_source_text(time_base, sample_rate, sample_fmt, layout)
            == audio_source_text((time_base.0, 1), sample_rate, sample_fmt, layout),
        sample_rate < 1 ==> audio_source_text(time_base, sample_rate, sample_fmt, layout)
            == audio_source_text(time_base, 1, sample_fmt, layout),
        sample_fmt is None ==> audio_source_text(time_base, sample_rate, sample_fmt, layout)
            == audio_source_text(time_base, sample_rate, Some("fltp"), layout),
        layout is None ==> audio_source_text(time_base, sample_rate, sample_fmt, layout)
            == audio_source_text(time_base, sample_rate, sample_fmt, Some("stereo")),
{
}

} // verus!
