//! Pixel-buffer handling for decoded images.
//!
//! Raster bytes decode through the image codec library behind a trusted
//! wrapper; everything that inspects or rewrites pixel bytes is verified
//! here. A rasterized vector image arrives as premultiplied pixels whose
//! channel order differs by platform; [`normalize_premultiplied`] detects
//! the order from the channel averages over the non-transparent pixels
//! and rewrites the buffer into straight, top-left-origin RGBA.

use vstd::prelude::*;

verus! {

/// A decoded image: straight RGBA bytes, four per pixel, rows top to
/// bottom.
pub struct RasterImage {
    pub width: u32,
    pub height: u32,
    pub pixels: Vec<u8>,
}

impl RasterImage {
    /// The buffer holds exactly four bytes per pixel.
    pub open spec fn wf(self) -> bool {
        self.pixels@.len() == 4 * self.width * self.height
    }
}

/// Why decoding failed.
#[derive(Debug)]
pub enum DecodeError {
    /// The bytes are not a raster image this build can decode.
    UnsupportedBytes { detail: String },
    /// The vector image has no positive intrinsic size.
    InvalidSvgSize,
    /// The vector image could not be parsed or rendered.
    SvgRasterization { detail: String },
}

/// What the image codec library decodes the given bytes to, if anything:
/// width, height and straight RGBA bytes. The result depends on the bytes
/// alone.
pub uninterp spec fn decoded_raster(bytes: Seq<u8>) -> Option<(u32, u32, Seq<u8>)>;

/// Relies on `image::load_from_memory` and `DynamicImage::into_rgba8`:
/// decodes raster bytes and lays the result out as straight RGBA, four
/// bytes for each of `width * height` pixels.
#[verifier::external_body]
pub(crate) fn decode_raster(bytes: &[u8]) -> (r: Result<RasterImage, DecodeError>)
    ensures
        match r {
            Ok(img) => decoded_raster(bytes@) == Some((img.width, img.height, img.pixels@))
                && img.wf(),
            Err(_) => decoded_raster(bytes@) is None,
        },
{
    match image::load_from_memory(bytes) {
        Ok(dyn_img) => {
            let rgba = dyn_img.into_rgba8();
            let width = rgba.width();
            let height = rgba.height();
            Ok(RasterImage { width, height, pixels: rgba.into_raw() })
        },
        Err(e) => Err(DecodeError::UnsupportedBytes { detail: e.to_string() }),
    }
}

/// Swap the red and blue channels of every pixel in place, turning RGBA
/// bytes into BGRA or back.
pub fn rgba_to_bgra(pixels: &mut Vec<u8>)
    requires
        old(pixels)@.len() % 4 == 0,
    ensures
        final(pixels)@ == swapped_channels(old(pixels)@),
{
    let n = pixels.len();
    let mut g: usize = 0;
    while g < n
        invariant
            n == pixels@.len(),
            n == old(pixels)@.len(),
            n % 4 == 0,
            g % 4 == 0,
            g <= n,
            forall|j: int| 0 <= j < g ==> pixels@[j] == swapped_channels(old(pixels)@)[j],
            forall|j: int| g <= j < n ==> pixels@[j] == old(pixels)@[j],
        decreases n - g,
    {
        assert(g + 4 <= n);
        let b0 = pixels[g];
        let b2 = pixels[g + 2];
        pixels.set(g, b2);
        pixels.set(g + 2, b0);
        proof {
            assert(forall|j: int|
                0 <= j < g + 4 ==> pixels@[j] == swapped_channels(old(pixels)@)[j]);
        }
        g = g + 4;
    }
    proof {
        assert(g == n);
        assert(pixels@ =~= swapped_channels(old(pixels)@));
    }
}

/// The buffer with the first and third byte of every four swapped.
pub open spec fn swapped_channels(p: Seq<u8>) -> Seq<u8> {
    Seq::new(
        p.len(),
        |j: int|
            {
                let g = 4 * (j / 4);
                if j % 4 == 0 {
                    p[g + 2]
                } else if j % 4 == 2 {
                    p[g]
                } else {
                    p[j]
                }
            },
    )
}

/// Sum of the channel-`ch` bytes over the pixels whose alpha byte is not
/// zero.
pub open spec fn channel_sum(p: Seq<u8>, ch: int) -> int
    decreases p.len(),
{
    if p.len() < 4 {
        0
    } else {
        channel_sum(p.take(p.len() - 4), ch) + if p[p.len() - 4 + 3] > 0 {
            p[p.len() - 4 + ch] as int
        } else {
            0
        }
    }
}

/// How many pixels have a non-zero alpha byte.
pub open spec fn opaque_count(p: Seq<u8>) -> int
    decreases p.len(),
{
    if p.len() < 4 {
        0
    } else {
        opaque_count(p.take(p.len() - 4)) + if p[p.len() - 4 + 3] > 0 {
            1int
        } else {
            0int
        }
    }
}

/// Which source byte holds the red channel: 2 when the buffer reads as
/// BGRA, 0 when it reads as RGBA.
///
/// The channel whose average over the non-transparent pixels dominates
/// both others by more than 5% is taken for red; a fully transparent or
/// ambiguous buffer falls back to BGRA. Comparing the sums scaled by
/// 20 and 21 compares the averages against the 1.05 margin exactly.
pub open spec fn red_source_index(p: Seq<u8>) -> int {
    let s0 = channel_sum(p, 0);
    let s1 = channel_sum(p, 1);
    let s2 = channel_sum(p, 2);
    if opaque_count(p) == 0 {
        2
    } else if 20 * s2 > 21 * s0 && 20 * s2 > 21 * s1 {
        2
    } else if 20 * s0 > 21 * s2 && 20 * s0 > 21 * s1 {
        0
    } else {
        2
    }
}

/// One color channel divided by its alpha and capped at the byte range.
pub open spec fn unpre_val(v: int, a: int) -> int {
    if v * 255 / a > 255 {
        255
    } else {
        v * 255 / a
    }
}

/// The byte at position `j` after un-premultiplying with the red source
/// channel at `r_src` (blue then sits at `2 - r_src`).
pub open spec fn norm_byte(p: Seq<u8>, r_src: int, j: int) -> u8 {
    let g = 4 * (j / 4);
    let a = p[g + 3] as int;
    if j % 4 == 3 {
        p[j]
    } else if a == 0 {
        0
    } else {
        let src = if j % 4 == 0 {
            r_src
        } else if j % 4 == 1 {
            1int
        } else {
            2 - r_src
        };
        unpre_val(p[g + src] as int, a) as u8
    }
}

/// The whole buffer rewritten into straight RGBA.
pub open spec fn normalized_pixels(p: Seq<u8>) -> Seq<u8> {
    Seq::new(p.len(), |j: int| norm_byte(p, red_source_index(p), j))
}

/// Rewrite a premultiplied pixel buffer of unknown channel order into
/// straight RGBA, in place.
///
/// The channel order is detected once over the whole buffer; then every
/// pixel has its color channels divided by its alpha, capped at 255,
/// while fully transparent pixels are cleared to zero instead of divided.
pub fn normalize_premultiplied(pixels: &mut Vec<u8>)
    requires
        old(pixels)@.len() % 4 == 0,
    ensures
        final(pixels)@ == normalized_pixels(old(pixels)@),
{
    let n = pixels.len();
    let mut s0: u128 = 0;
    let mut s1: u128 = 0;
    let mut s2: u128 = 0;
    let mut opaque: u64 = 0;
    let mut g: usize = 0;
    while g < n
        invariant
            n == pixels@.len(),
            n % 4 == 0,
            g % 4 == 0,
            g <= n,
            s0 == channel_sum(pixels@.take(g as int), 0),
            s1 == channel_sum(pixels@.take(g as int), 1),
            s2 == channel_sum(pixels@.take(g as int), 2),
            opaque == opaque_count(pixels@.take(g as int)),
            s0 <= 255 * (g as int) && s1 <= 255 * (g as int) && s2 <= 255 * (g as int),
            opaque <= g,
        decreases n - g,
    {
        assert(g + 4 <= n);
        let a = pixels[g + 3];
        if a > 0 {
            s0 = s0 + pixels[g] as u128;
            s1 = s1 + pixels[g + 1] as u128;
            s2 = s2 + pixels[g + 2] as u128;
            opaque = opaque + 1;
        }
        proof {
            let pre = pixels@.take(g as int);
            let cur = pixels@.take(g + 4);
            assert(cur.take(cur.len() - 4) =~= pre);
        }
        g = g + 4;
    }
    proof {
        assert(pixels@.take(n as int) =~= pixels@);
    }
    let r_src: usize = if opaque == 0 {
        2
    } else if 20 * s2 > 21 * s0 && 20 * s2 > 21 * s1 {
        2
    } else if 20 * s0 > 21 * s2 && 20 * s0 > 21 * s1 {
        0
    } else {
        2
    };
    let b_src: usize = 2 - r_src;
    proof {
        assert(r_src == red_source_index(pixels@));
    }
    let ghost p0 = pixels@;
    let mut g: usize = 0;
    while g < n
        invariant
            n == pixels@.len(),
            n == p0.len(),
            n % 4 == 0,
            g % 4 == 0,
            g <= n,
            r_src == red_source_index(p0),
            b_src == 2 - r_src,
            forall|j: int| 0 <= j < g ==> pixels@[j] == norm_byte(p0, r_src as int, j),
            forall|j: int| g <= j < n ==> pixels@[j] == p0[j],
        decreases n - g,
    {
        assert(g + 4 <= n);
        let a = pixels[g + 3];
        if a > 0 {
            let vr: u32 = pixels[g + r_src] as u32;
            let vg: u32 = pixels[g + 1] as u32;
            let vb: u32 = pixels[g + b_src] as u32;
            let rr: u32 = vr * 255 / a as u32;
            let rg: u32 = vg * 255 / a as u32;
            let rb: u32 = vb * 255 / a as u32;
            let outr: u8 = if rr > 255 {
                255
            } else {
                rr as u8
            };
            let outg: u8 = if rg > 255 {
                255
            } else {
                rg as u8
            };
            let outb: u8 = if rb > 255 {
                255
            } else {
                rb as u8
            };
            pixels.set(g, outr);
            pixels.set(g + 1, outg);
            pixels.set(g + 2, outb);
        } else {
            pixels.set(g, 0);
            pixels.set(g + 1, 0);
            pixels.set(g + 2, 0);
        }
        proof {
            assert(forall|j: int| 0 <= j < g + 4 ==> pixels@[j] == norm_byte(p0, r_src as int, j));
        }
        g = g + 4;
    }
    proof {
        assert(pixels@ =~= normalized_pixels(p0));
    }
}

} // verus!
