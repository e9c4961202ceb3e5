//! Colours and pictures of the window, as plain values.

use crate::options;
use vstd::prelude::*;

verus! {

/// An opaque colour.
#[derive(Clone, Copy, Debug, PartialEq, Eq, Structural)]
pub struct Rgb {
    pub r: u8,
    pub g: u8,
    pub b: u8,
}

/// One channel, part of the way from `x` to `y`, rounded down.
pub open spec fn mixed_channel(x: u8, y: u8, t_ppb: int) -> int {
    (x * (options::WHOLE_PPB - t_ppb) + y * t_ppb) / options::WHOLE_PPB as int
}

/// A share of the way, at most the whole of it.
pub open spec fn clamped_ppb(t_ppb: u32) -> int {
    if t_ppb >= options::WHOLE_PPB {
        options::WHOLE_PPB as int
    } else {
        t_ppb as int
    }
}

/// A colour part of the way between two.
pub open spec fn mixed_color(a: Rgb, b: Rgb, t_ppb: u32) -> Rgb {
    Rgb {
        r: mixed_channel(a.r, b.r, clamped_ppb(t_ppb)) as u8,
        g: mixed_channel(a.g, b.g, clamped_ppb(t_ppb)) as u8,
        b: mixed_channel(a.b, b.b, clamped_ppb(t_ppb)) as u8,
    }
}

fn lerp_channel(x: u8, y: u8, t_ppb: u32) -> (r: u8)
    requires
        t_ppb <= options::WHOLE_PPB,
    ensures
        r == mixed_channel(x, y, t_ppb as int),
{
    proof {
        lemma_channel_between(x, y, t_ppb as int);
        assert(0 <= x * (1_000_000_000 - t_ppb) <= 255 * 1_000_000_000) by (nonlinear_arith)
            requires
                0 <= x <= 255,
                0 <= t_ppb <= 1_000_000_000,
        ;
        assert(0 <= y * t_ppb <= 255 * 1_000_000_000) by (nonlinear_arith)
            requires
                0 <= y <= 255,
                0 <= t_ppb <= 1_000_000_000,
        ;
    }
    let n: u64 = (x as u64) * ((options::WHOLE_PPB - t_ppb) as u64) + (y as u64) * (t_ppb as u64);
    (n / (options::WHOLE_PPB as u64)) as u8
}

/// A colour part of the way from `a` to `b`, in parts per billion.
pub fn lerp_color(a: Rgb, b: Rgb, t_ppb: u32) -> (r: Rgb)
    ensures
        r == mixed_color(a, b, t_ppb),
{
    let t: u32 = if t_ppb >= options::WHOLE_PPB {
        options::WHOLE_PPB
    } else {
        t_ppb
    };
    Rgb { r: lerp_channel(a.r, b.r, t), g: lerp_channel(a.g, b.g, t), b: lerp_channel(a.b, b.b, t) }
}

proof fn lemma_channel_between(x: u8, y: u8, t: int)
    requires
        0 <= t <= 1_000_000_000,
    ensures
        x <= y ==> x <= mixed_channel(x, y, t) <= y,
        y <= x ==> y <= mixed_channel(x, y, t) <= x,
{
    let n = x * (1_000_000_000 - t) + y * t;
    if x <= y {
        assert(x * 1_000_000_000 <= n <= y * 1_000_000_000) by (nonlinear_arith)
            requires
                n == x * (1_000_000_000 - t) + y * t,
                x <= y,
                0 <= t <= 1_000_000_000,
        ;
    } else {
        assert(y * 1_000_000_000 <= n <= x * 1_000_000_000) by (nonlinear_arith)
            requires
                n == x * (1_000_000_000 - t) + y * t,
                y <= x,
                0 <= t <= 1_000_000_000,
        ;
    }
}

proof fn lemma_channel_ends(x: u8, y: u8)
    ensures
        mixed_channel(x, y, 0) == x,
        mixed_channel(x, y, 1_000_000_000) == y,
{
    assert(x * 1_000_000_000 + y * 0 == x * 1_000_000_000 && x * 0 + y * 1_000_000_000 == y * 1_000_000_000)
        by (nonlinear_arith);
}

/// A gradient starts at one colour, ends at the other, and stays between them.
pub proof fn law_gradient(a: Rgb, b: Rgb, t_ppb: u32)
    ensures
        mixed_color(a, b, 0) == a,
        mixed_color(a, b, options::WHOLE_PPB) == b,
        ({
            let m = mixed_color(a, b, t_ppb);
            (a.r <= m.r <= b.r || b.r <= m.r <= a.r) && (a.g <= m.g <= b.g || b.g <= m.g <= a.g)
                && (a.b <= m.b <= b.b || b.b <= m.b <= a.b)
        }),
{
    lemma_channel_ends(a.r, b.r);
    lemma_channel_ends(a.g, b.g);
    lemma_channel_ends(a.b, b.b);
    lemma_channel_between(a.r, b.r, clamped_ppb(t_ppb));
    lemma_channel_between(a.g, b.g, clamped_ppb(t_ppb));
    lemma_channel_between(a.b, b.b, clamped_ppb(t_ppb));
}

/// Which typefaces the window uses: one for the interface, one for anything
/// technical, so that digits stay aligned.
#[derive(Clone, Copy, Debug)]
pub struct Typefaces {
    pub ui: &'static str,
    pub mono: &'static str,
}

/// The pairing for a choice, `inter` for the one, anything else or nothing for
/// the other.
pub fn typefaces(choice: Option<String>) -> (r: Typefaces)
    ensures
        choice matches Some(c) && c@ == "inter"@ ==> r.ui@ == "Inter"@ && r.mono@
            == "JetBrainsMono"@,
        !(choice matches Some(c) && c@ == "inter"@) ==> r.ui@ == "IBMPlexSans"@ && r.mono@
            == "IBMPlexMono"@,
{
    let wanted = "inter".to_owned();
    let inter: bool = match choice {
        Some(c) => c == wanted,
        None => false,
    };
    if inter {
        Typefaces { ui: "Inter", mono: "JetBrainsMono" }
    } else {
        Typefaces { ui: "IBMPlexSans", mono: "IBMPlexMono" }
    }
}

// ---- pictures ----

/// What `eframe::icon_data::from_png_bytes` makes of a file: width, height and
/// the pixels as red, green, blue and alpha bytes, or nothing where it reports
/// an error. The decoder behind it first asks a table of further formats that a
/// program may add to; this one adds none, so the bytes alone decide.
pub uninterp spec fn decoded_picture(bytes: Seq<u8>) -> Option<(u32, u32, Seq<u8>)>;

/// A decoded picture.
#[derive(Debug)]
pub struct Picture {
    pub width: u32,
    pub height: u32,
    /// Red, green, blue and alpha of each pixel, row by row.
    pub rgba: Vec<u8>,
}

/// Calls `eframe::icon_data::from_png_bytes`, which decodes a picture from the
/// bytes alone: what it gives, or that it fails, is [`decoded_picture`] of them.
#[verifier::external_body]
fn decode_png(bytes: &[u8]) -> (r: Option<Picture>)
    ensures
        match r {
            Some(p) => decoded_picture(bytes@) == Some((p.width, p.height, p.rgba@)),
            None => decoded_picture(bytes@) is None,
        },
{
    match eframe::icon_data::from_png_bytes(bytes) {
        Ok(icon) => Some(Picture { width: icon.width, height: icon.height, rgba: icon.rgba }),
        Err(_) => None,
    }
}

/// A picture has the bytes that its size asks for.
pub open spec fn is_whole(width: u32, height: u32, rgba: Seq<u8>) -> bool {
    rgba.len() == 4 * width * height
}

/// Whether a picture has the bytes that its size asks for, four to a pixel, as
/// anything that draws it relies on.
pub fn has_all_pixels(p: &Picture) -> (r: bool)
    ensures
        r == is_whole(p.width, p.height, p.rgba@),
{
    assert(0 <= p.width * p.height <= 0xffff_ffff * 0xffff_ffff) by (nonlinear_arith)
        requires
            0 <= p.width <= 0xffff_ffff,
            0 <= p.height <= 0xffff_ffff,
    ;
    assert(4 * p.width * p.height == 4 * (p.width * p.height)) by (nonlinear_arith);
    p.rgba.len() as u128 == 4 * ((p.width as u128) * (p.height as u128))
}

/// The picture in a file, `None` where it cannot be decoded or is cut short.
pub fn load_picture(bytes: &[u8]) -> (r: Option<Picture>)
    ensures
        match decoded_picture(bytes@) {
            Some((w, h, rgba)) if is_whole(w, h, rgba) => r matches Some(p) && p.width == w
                && p.height == h && p.rgba@ == rgba,
            _ => r is None,
        },
{
    match decode_png(bytes) {
        Some(p) => if has_all_pixels(&p) {
            Some(p)
        } else {
            None
        },
        None => None,
    }
}

/// A colour part of the way is that part of the way, in each channel, to the
/// step below; past the end it is the end.
pub proof fn law_gradient_is_even(a: Rgb, b: Rgb, t_ppb: u32)
    ensures
        ({
            let t: int = if t_ppb <= 1_000_000_000 {
                t_ppb as int
            } else {
                1_000_000_000
            };
            let m = mixed_color(a, b, t_ppb);
            &&& 1_000_000_000 * m.r <= a.r * (1_000_000_000 - t) + b.r * t < 1_000_000_000 * (m.r
                + 1)
            &&& 1_000_000_000 * m.g <= a.g * (1_000_000_000 - t) + b.g * t < 1_000_000_000 * (m.g
                + 1)
            &&& 1_000_000_000 * m.b <= a.b * (1_000_000_000 - t) + b.b * t < 1_000_000_000 * (m.b
                + 1)
        }),
{
    let t = clamped_ppb(t_ppb);
    lemma_channel_between(a.r, b.r, t);
    lemma_channel_between(a.g, b.g, t);
    lemma_channel_between(a.b, b.b, t);
}

/// A picture is whole when it has four bytes to each of its pixels.
pub proof fn law_whole_pictures(width: u32, height: u32, rgba: Seq<u8>)
    ensures
        is_whole(width, height, rgba) <==> rgba.len() == width * height + width * height + width
            * height + width * height,
{
    let (w, h) = (width as int, height as int);
    assert(4 * w * h == w * h + w * h + w * h + w * h) by (nonlinear_arith);
}

} // verus!
