//! Texture preparation: which images hold color data, which GPU format each
//! image is uploaded in, and how pixel data is widened to formats the GPU
//! samples (three-channel data gains an alpha channel, color luminance data
//! is spread to RGBA).
use vstd::prelude::*;

verus! {

/// Pixel layout of a decoded image.
#[derive(Debug, PartialEq, Eq, Structural, Copy, Clone)]
pub enum PixelFormat {
    R8,
    R8G8,
    R8G8B8,
    R8G8B8A8,
    R16,
    R16G16,
    R16G16B16,
    R16G16B16A16,
    R32G32B32Float,
    R32G32B32A32Float,
}

/// GPU format a texture is created with.
#[derive(Debug, PartialEq, Eq, Structural, Copy, Clone)]
pub enum TextureFormat {
    R8G8B8A8Srgb,
    R8Unorm,
    R8G8Unorm,
    R8G8B8A8Unorm,
    R16Sfloat,
    R16G16Sfloat,
    R16G16B16A16Sfloat,
}

/// Images with 32-bit float channels are not supported.
pub open spec fn is_supported_format(format: PixelFormat) -> bool {
    !(format is R32G32B32Float || format is R32G32B32A32Float)
}

/// GPU format for an image: 8-bit color data is sampled as sRGB RGBA;
/// 8-bit non-color data keeps its channel count, except that three channels
/// become four; 16-bit data becomes half floats, three channels again
/// becoming four.
pub open spec fn spec_texture_format(format: PixelFormat, color: bool) -> TextureFormat {
    match format {
        PixelFormat::R8 => if color {
            TextureFormat::R8G8B8A8Srgb
        } else {
            TextureFormat::R8Unorm
        },
        PixelFormat::R8G8 => if color {
            TextureFormat::R8G8B8A8Srgb
        } else {
            TextureFormat::R8G8Unorm
        },
        PixelFormat::R8G8B8 | PixelFormat::R8G8B8A8 => if color {
            TextureFormat::R8G8B8A8Srgb
        } else {
            TextureFormat::R8G8B8A8Unorm
        },
        PixelFormat::R16 => TextureFormat::R16Sfloat,
        PixelFormat::R16G16 => TextureFormat::R16G16Sfloat,
        _ => TextureFormat::R16G16B16A16Sfloat,
    }
}

/// GPU format for an image of `format`, holding color data when `color`.
pub fn convert_to_vk_format(format: PixelFormat, color: bool) -> (f: TextureFormat)
    requires
        is_supported_format(format),
    ensures
        f == spec_texture_format(format, color),
{
    match format {
        PixelFormat::R8 => if color {
            TextureFormat::R8G8B8A8Srgb
        } else {
            TextureFormat::R8Unorm
        },
        PixelFormat::R8G8 => if color {
            TextureFormat::R8G8B8A8Srgb
        } else {
            TextureFormat::R8G8Unorm
        },
        PixelFormat::R8G8B8 | PixelFormat::R8G8B8A8 => if color {
            TextureFormat::R8G8B8A8Srgb
        } else {
            TextureFormat::R8G8B8A8Unorm
        },
        PixelFormat::R16 => TextureFormat::R16Sfloat,
        PixelFormat::R16G16 => TextureFormat::R16G16Sfloat,
        _ => TextureFormat::R16G16B16A16Sfloat,
    }
}

/// The ways pixel data is widened.
#[derive(Debug, PartialEq, Eq, Structural, Copy, Clone)]
pub enum Widening {
    /// 8-bit RGB to RGBA with an opaque alpha.
    Rgb8,
    /// 16-bit RGB to RGBA with alpha 1.0 as a half float.
    Rgb16,
    /// 8-bit luminance to opaque grey RGBA.
    Luminance8,
    /// 8-bit luminance and alpha to grey RGBA.
    LuminanceAlpha8,
}

/// Bytes per source pixel of a widening.
pub open spec fn source_pixel_size(w: Widening) -> nat {
    match w {
        Widening::Rgb8 => 3,
        Widening::Rgb16 => 6,
        Widening::Luminance8 => 1,
        Widening::LuminanceAlpha8 => 2,
    }
}

/// The widened bytes of one source pixel `c`.
pub open spec fn widen_pixel(w: Widening, c: Seq<u8>) -> Seq<u8> {
    match w {
        Widening::Rgb8 => seq![c[0], c[1], c[2], 255u8],
        Widening::Rgb16 => c.take(6) + seq![0x00u8, 0x3Cu8],
        Widening::Luminance8 => seq![c[0], c[0], c[0], 255u8],
        Widening::LuminanceAlpha8 => seq![c[0], c[0], c[0], c[1]],
    }
}

/// Widens every whole source pixel of `p`, in order; trailing bytes that do
/// not make up a whole pixel are dropped.
pub open spec fn widen_all(w: Widening, p: Seq<u8>) -> Seq<u8>
    decreases p.len(),
{
    if p.len() < source_pixel_size(w) {
        Seq::empty()
    } else {
        widen_pixel(w, p.take(source_pixel_size(w) as int)) + widen_all(
            w,
            p.skip(source_pixel_size(w) as int),
        )
    }
}

/// The widening applied to an image of `format`, if any: three-channel data
/// always gains an alpha channel; one- and two-channel 8-bit data is spread
/// to RGBA only when it holds color.
pub open spec fn widening_for(format: PixelFormat, is_color: bool) -> Option<Widening> {
    match format {
        PixelFormat::R8G8B8 => Some(Widening::Rgb8),
        PixelFormat::R16G16B16 => Some(Widening::Rgb16),
        PixelFormat::R8 => if is_color {
            Some(Widening::Luminance8)
        } else {
            None
        },
        PixelFormat::R8G8 => if is_color {
            Some(Widening::LuminanceAlpha8)
        } else {
            None
        },
        _ => None,
    }
}

/// The bytes uploaded for an image of `format` with pixel data `p`.
pub open spec fn expanded_pixels(format: PixelFormat, is_color: bool, p: Seq<u8>) -> Seq<u8> {
    match widening_for(format, is_color) {
        Some(w) => widen_all(w, p),
        None => p,
    }
}

fn widening(format: PixelFormat, is_color: bool) -> (r: Option<Widening>)
    ensures
        r == widening_for(format, is_color),
{
    match format {
        PixelFormat::R8G8B8 => Some(Widening::Rgb8),
        PixelFormat::R16G16B16 => Some(Widening::Rgb16),
        PixelFormat::R8 => if is_color {
            Some(Widening::Luminance8)
        } else {
            None
        },
        PixelFormat::R8G8 => if is_color {
            Some(Widening::LuminanceAlpha8)
        } else {
            None
        },
        _ => None,
    }
}

fn widen(w: Widening, pixels: &Vec<u8>) -> (out: Vec<u8>)
    ensures
        out@ == widen_all(w, pixels@),
{
    let size: usize = match w {
        Widening::Rgb8 => 3,
        Widening::Rgb16 => 6,
        Widening::Luminance8 => 1,
        Widening::LuminanceAlpha8 => 2,
    };
    let mut out: Vec<u8> = Vec::new();
    let mut pos: usize = 0;
    proof {
        assert(pixels@.skip(0) =~= pixels@);
        assert(out@ + widen_all(w, pixels@.skip(0)) =~= widen_all(w, pixels@));
    }
    while size <= pixels.len() - pos
        invariant
            size == source_pixel_size(w),
            pos <= pixels@.len(),
            out@ + widen_all(w, pixels@.skip(pos as int)) == widen_all(w, pixels@),
        decreases pixels@.len() - pos,
    {
        let ghost rest = pixels@.skip(pos as int);
        let ghost before = out@;
        match w {
            Widening::Rgb8 => {
                out.push(pixels[pos]);
                out.push(pixels[pos + 1]);
                out.push(pixels[pos + 2]);
                out.push(255);
            },
            Widening::Rgb16 => {
                out.push(pixels[pos]);
                out.push(pixels[pos + 1]);
                out.push(pixels[pos + 2]);
                out.push(pixels[pos + 3]);
                out.push(pixels[pos + 4]);
                out.push(pixels[pos + 5]);
                out.push(0x00);
                out.push(0x3C);
            },
            Widening::Luminance8 => {
                let l = pixels[pos];
                out.push(l);
                out.push(l);
                out.push(l);
                out.push(255);
            },
            Widening::LuminanceAlpha8 => {
                let l = pixels[pos];
                let a = pixels[pos + 1];
                out.push(l);
                out.push(l);
                out.push(l);
                out.push(a);
            },
        }
        proof {
            let chunk = rest.take(size as int);
            assert(out@ =~= before + widen_pixel(w, chunk));
            assert(rest.skip(size as int) =~= pixels@.skip(pos + size));
            assert(widen_all(w, rest) == widen_pixel(w, chunk) + widen_all(w, rest.skip(size as int)));
            assert(before + widen_pixel(w, chunk) + widen_all(w, pixels@.skip(pos + size)) =~= before
                + (widen_pixel(w, chunk) + widen_all(w, pixels@.skip(pos + size))));
        }
        pos = pos + size;
    }
    proof {
        assert(widen_all(w, pixels@.skip(pos as int)) =~= Seq::<u8>::empty());
        assert(out@ + Seq::<u8>::empty() =~= out@);
    }
    out
}

/// The bytes to upload for an image of `format` whose pixel data is
/// `pixels`: widened as [`widening_for`] says, otherwise unchanged.
pub fn expand_pixels(format: PixelFormat, is_color: bool, pixels: &Vec<u8>) -> (out: Vec<u8>)
    ensures
        out@ == expanded_pixels(format, is_color, pixels@),
{
    match widening(format, is_color) {
        Some(w) => widen(w, pixels),
        None => {
            let mut out: Vec<u8> = Vec::new();
            let mut i: usize = 0;
            while i < pixels.len()
                invariant
                    i <= pixels@.len(),
                    out@ == pixels@.take(i as int),
                decreases pixels@.len() - i,
            {
                out.push(pixels[i]);
                proof {
                    assert(pixels@.take(i + 1) =~= pixels@.take(i as int).push(pixels@[i as int]));
                }
                i += 1;
            }
            proof {
                assert(pixels@.take(i as int) =~= pixels@);
            }
            out
        },
    }
}

/// Marks, for `image_count` images, those that some material samples as color
/// (as base color or emissive texture); `color_images` lists those images.
pub fn texture_color_flags(image_count: usize, color_images: &Vec<usize>) -> (flags: Vec<bool>)
    requires
        forall|k: int| 0 <= k < color_images@.len() ==> #[trigger] color_images@[k] < image_count,
    ensures
        flags@.len() == image_count,
        forall|i: int| 0 <= i < image_count ==> #[trigger] flags@[i] == color_images@.contains(i as usize),
{
    let mut flags: Vec<bool> = Vec::new();
    let mut i: usize = 0;
    while i < image_count
        invariant
            i <= image_count,
            flags@.len() == i,
            forall|j: int| 0 <= j < i ==> !#[trigger] flags@[j],
        decreases image_count - i,
    {
        flags.push(false);
        i += 1;
    }
    let mut k: usize = 0;
    while k < color_images.len()
        invariant
            k <= color_images@.len(),
            flags@.len() == image_count,
            forall|k2: int| 0 <= k2 < color_images@.len() ==> #[trigger] color_images@[k2] < image_count,
            forall|j: int|
                0 <= j < image_count ==> #[trigger] flags@[j] == color_images@.take(k as int).contains(
                    j as usize,
                ),
        decreases color_images@.len() - k,
    {
        let idx = color_images[k];
        flags.set(idx, true);
        proof {
            let prev = color_images@.take(k as int);
            let next = color_images@.take(k + 1);
            assert(next =~= prev.push(idx));
            assert forall|j: int| 0 <= j < image_count implies #[trigger] flags@[j] == next.contains(
                j as usize,
            ) by {
                if j == idx as int {
                    assert(next[k as int] == idx);
                } else {
                    if next.contains(j as usize) {
                        let m = choose|m: int| 0 <= m < next.len() && next[m] == j as usize;
                        assert(m < k);
                        assert(prev[m] == j as usize);
                    }
                    if prev.contains(j as usize) {
                        let m = choose|m: int| 0 <= m < prev.len() && prev[m] == j as usize;
                        assert(next[m] == j as usize);
                    }
                }
            }
        }
        k += 1;
    }
    proof {
        assert(color_images@.take(k as int) =~= color_images@);
    }
    flags
}

/// Whether image `idx` holds color data; images beyond the flags do not.
pub fn is_color_image(flags: &Vec<bool>, idx: usize) -> (b: bool)
    ensures
        b == (idx < flags@.len() && flags@[idx as int]),
{
    if idx < flags.len() {
        flags[idx]
    } else {
        false
    }
}

/// Bytes per widened pixel of a widening.
pub open spec fn widened_pixel_size(w: Widening) -> nat {
    match w {
        Widening::Rgb16 => 8,
        _ => 4,
    }
}

proof fn lemma_widen_pixel_len(w: Widening, c: Seq<u8>)
    requires
        c.len() >= source_pixel_size(w),
    ensures
        widen_pixel(w, c).len() == widened_pixel_size(w),
{
}

/// Widening works pixel by pixel: the result holds one widened pixel for each
/// whole source pixel, and widened pixel `k` is the widening of source pixel
/// `k`.
pub proof fn widening_is_pixelwise(w: Widening, p: Seq<u8>, k: int)
    requires
        0 <= k < p.len() / source_pixel_size(w),
    ensures
        widen_all(w, p).len() == (p.len() / source_pixel_size(w)) * widened_pixel_size(w),
        widen_all(w, p).subrange(
            k * widened_pixel_size(w),
            k * widened_pixel_size(w) + widened_pixel_size(w),
        ) == widen_pixel(
            w,
            p.subrange(k * source_pixel_size(w), k * source_pixel_size(w) + source_pixel_size(w)),
        ),
    decreases p.len(),
{
    let s = source_pixel_size(w) as int;
    let o = widened_pixel_size(w) as int;
    let rest = p.skip(s);
    lemma_widen_pixel_len(w, p.take(s));
    lemma_widen_len(w, p);
    assert(widen_all(w, p) == widen_pixel(w, p.take(s)) + widen_all(w, rest));
    if k == 0 {
        assert(p.subrange(0, s) =~= p.take(s));
        assert(widen_all(w, p).subrange(0, o) =~= widen_pixel(w, p.take(s)));
    } else {
        assert((rest.len() as int) / s == (p.len() as int) / s - 1) by {
            vstd::arithmetic::div_mod::lemma_div_plus_one(rest.len() as int, s);
        }
        widening_is_pixelwise(w, rest, k - 1);
        assert(k * o == (k - 1) * o + o) by (nonlinear_arith);
        assert(k * s == (k - 1) * s + s) by (nonlinear_arith);
        assert(rest.subrange((k - 1) * s, (k - 1) * s + s) =~= p.subrange(k * s, k * s + s));
        let n = rest.len() as int;
        let m = n / s;
        assert((k - 1) * o + o <= m * o) by (nonlinear_arith)
            requires
                k - 1 < m,
                o > 0,
        ;
        let a = widen_pixel(w, p.take(s));
        let b = widen_all(w, rest);
        assert(b.len() == m * o);
        assert forall|i: int| 0 <= i < o implies #[trigger] (a + b)[k * o + i] == b[(k - 1) * o + i] by {
            assert(k * o + i >= o);
        }
        assert(widen_all(w, p).subrange(k * o, k * o + o) =~= widen_all(w, rest).subrange(
            (k - 1) * o,
            (k - 1) * o + o,
        ));
    }
}

proof fn lemma_widen_len(w: Widening, p: Seq<u8>)
    ensures
        widen_all(w, p).len() == (p.len() / source_pixel_size(w)) * widened_pixel_size(w),
    decreases p.len(),
{
    let s = source_pixel_size(w) as int;
    let o = widened_pixel_size(w) as int;
    if p.len() < s {
        vstd::arithmetic::div_mod::lemma_basic_div(p.len() as int, s);
    } else {
        let rest = p.skip(s);
        lemma_widen_pixel_len(w, p.take(s));
        lemma_widen_len(w, rest);
        vstd::arithmetic::div_mod::lemma_div_plus_one(rest.len() as int, s);
        let n = rest.len() as int;
        assert((n / s + 1) * o == (n / s) * o + o) by (nonlinear_arith);
    }
}

/// Bytes per texel of a GPU format.
pub open spec fn texel_size(f: TextureFormat) -> nat {
    match f {
        TextureFormat::R8Unorm => 1,
        TextureFormat::R8G8Unorm | TextureFormat::R16Sfloat => 2,
        TextureFormat::R16G16B16A16Sfloat => 8,
        _ => 4,
    }
}

/// Bytes per pixel of decoded image data.
pub open spec fn pixel_size(format: PixelFormat) -> nat {
    match format {
        PixelFormat::R8 => 1,
        PixelFormat::R8G8 | PixelFormat::R16 => 2,
        PixelFormat::R8G8B8 => 3,
        PixelFormat::R8G8B8A8 | PixelFormat::R16G16 => 4,
        PixelFormat::R16G16B16 => 6,
        PixelFormat::R16G16B16A16 => 8,
        PixelFormat::R32G32B32Float => 12,
        PixelFormat::R32G32B32A32Float => 16,
    }
}

/// Bytes per pixel of the data uploaded for an image of `format`.
pub open spec fn uploaded_pixel_size(format: PixelFormat, is_color: bool) -> nat {
    match widening_for(format, is_color) {
        Some(w) => widened_pixel_size(w),
        None => pixel_size(format),
    }
}

/// The uploaded bytes always match the texture they are copied into: for
/// every supported image, the bytes per uploaded pixel equal the bytes per
/// texel of the format chosen for it, and widened data has the pixel size of
/// the source format it widens.
pub proof fn upload_matches_texture_format(format: PixelFormat, is_color: bool)
    requires
        is_supported_format(format),
    ensures
        uploaded_pixel_size(format, is_color) == texel_size(spec_texture_format(format, is_color)),
        widening_for(format, is_color) matches Some(w) ==> source_pixel_size(w) == pixel_size(
            format,
        ),
{
}

} // verus!
