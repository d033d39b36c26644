//! Image resolution: the decisions of the fetch-and-decode pipeline.
//!
//! Fetching, file reading and vector rasterization are outside work the
//! host performs; every decision between those steps is made here. A
//! remote reference is fetched and decoded; bytes that look like a
//! vector image are rasterized and normalized; and when both fail, one
//! server-side PNG fallback URL is tried before giving up. Local files
//! are read and decoded directly, with no fallback.

use vstd::prelude::*;
use crate::decode::DecodeError;
use crate::decode::RasterImage;
use crate::decode::decode_raster;
use crate::decode::decoded_raster;
use crate::decode::normalize_premultiplied;
use crate::decode::normalized_pixels;
use crate::text::fold_eq;
use crate::text::is_prefix_of;
use crate::text::starts_with;
use crate::text::str_chars;
use crate::text::string_from_chars;
use crate::text::subrange_chars;

verus! {

/// The server-side PNG fallback for a URL: the first `?` becomes
/// `.png?`, or `.png` is appended when there is no query string.
pub open spec fn png_fallback_spec(s: Seq<char>) -> Seq<char> {
    match s.index_of_first('?') {
        Some(i) => s.take(i) + ".png"@ + s.skip(i),
        None => s + ".png"@,
    }
}

/// Build the server-side PNG fallback URL for a reference.
pub fn png_fallback_url(original: &str) -> (r: String)
    ensures
        r@ == png_fallback_spec(original@),
{
    let chars = str_chars(original);
    let png = str_chars(".png");
    match crate::text::find_char(chars.as_slice(), '?') {
        Some(i) => {
            let n = chars.len();
            assert(i < n);
            let mut out = subrange_chars(chars.as_slice(), 0, i);
            crate::text::extend_chars(&mut out, png.as_slice());
            let tail = subrange_chars(chars.as_slice(), i, n);
            crate::text::extend_chars(&mut out, tail.as_slice());
            proof {
                assert(out@ =~= original@.take(i as int) + ".png"@ + original@.skip(i as int));
            }
            string_from_chars(out.as_slice())
        },
        None => {
            let mut out = subrange_chars(chars.as_slice(), 0, chars.len());
            crate::text::extend_chars(&mut out, png.as_slice());
            proof {
                assert(out@ =~= original@ + ".png"@);
            }
            string_from_chars(out.as_slice())
        },
    }
}

/// Why resolving an image failed.
#[derive(Debug)]
pub enum FetchError {
    /// The network request itself failed.
    Network { detail: String },
    /// The body could not be decoded, even after every fallback.
    Undecodable { error: DecodeError },
}

/// The next piece of outside work the pipeline asks for, or its end.
pub enum LoadAction {
    /// Issue a GET for this URL and report the body.
    FetchUrl(String),
    /// Read this local file and report the bytes.
    ReadFile(String),
    /// Rasterize these vector-image bytes and report the premultiplied
    /// pixels.
    Rasterize(Vec<u8>),
    /// The image is decoded and normalized.
    Finish(RasterImage),
    /// The image cannot be resolved.
    Fail(FetchError),
}

/// Which fetch the pipeline is waiting for.
#[derive(Clone, Copy, Debug, PartialEq, Eq, Structural)]
pub enum LoadPhase {
    /// The reference itself.
    Primary,
    /// The PNG fallback URL.
    Fallback,
}

/// A reference names a remote resource.
pub open spec fn is_remote(s: Seq<char>) -> bool {
    is_prefix_of("http://"@, s) || is_prefix_of("https://"@, s)
}

/// The payload looks like a vector image: it opens with `<`, or the
/// reference ends in `.svg` in any case mix.
pub open spec fn looks_like_svg(bytes: Seq<u8>, reference: Seq<char>) -> bool {
    (bytes.len() > 0 && bytes[0] == 60) || (reference.len() >= 4 && fold_eq(
        reference.skip(reference.len() - 4),
        ".svg"@,
    ))
}

/// Whether the payload looks like a vector image, executably.
pub fn looks_like_svg_exec(bytes: &[u8], reference: &[char]) -> (r: bool)
    ensures
        r == looks_like_svg(bytes@, reference@),
{
    if bytes.len() > 0 && bytes[0] == 60 {
        return true;
    }
    if reference.len() >= 4 {
        let ext = subrange_chars(reference, reference.len() - 4, reference.len());
        let svg = str_chars(".svg");
        let r = crate::text::chars_eq_ignore_case(ext.as_slice(), svg.as_slice());
        proof {
            assert(ext@ =~= reference@.skip(reference@.len() - 4));
        }
        r
    } else {
        false
    }
}

/// Begin loading a reference: remote references are fetched, local
/// paths are read from disk.
pub fn begin_load(reference: &str) -> (r: (LoadAction, LoadPhase))
    ensures
        r.1 == LoadPhase::Primary,
        is_remote(reference@) ==> (r.0 matches LoadAction::FetchUrl(u) && u@ == reference@),
        !is_remote(reference@) ==> (r.0 matches LoadAction::ReadFile(p) && p@ == reference@),
{
    let chars = str_chars(reference);
    let http = str_chars("http://");
    let https = str_chars("https://");
    if starts_with(chars.as_slice(), http.as_slice()) || starts_with(
        chars.as_slice(),
        https.as_slice(),
    ) {
        (LoadAction::FetchUrl(reference.to_owned()), LoadPhase::Primary)
    } else {
        (LoadAction::ReadFile(reference.to_owned()), LoadPhase::Primary)
    }
}

/// Take the outcome of a fetch and decide the next step.
///
/// Primary bytes that decode are done; primary bytes that do not decode
/// but look like a vector image go to the rasterizer; otherwise the PNG
/// fallback URL is fetched once. Fallback bytes either decode or end
/// the pipeline with the decode error; a failed fetch ends it with the
/// network error, whichever phase it came from.
pub fn on_fetched(
    reference: &str,
    phase: LoadPhase,
    body: Result<Vec<u8>, String>,
) -> (r: (LoadAction, LoadPhase))
    ensures
        match body {
            Ok(bytes) => {
                match decoded_raster(bytes@) {
                    Some((w, h, px)) => (r.0 matches LoadAction::Finish(img) && img.width == w
                        && img.height == h && img.pixels@ == px),
                    None => {
                        if phase == LoadPhase::Primary {
                            if looks_like_svg(bytes@, reference@) {
                                r.0 matches LoadAction::Rasterize(b) && b@ == bytes@
                            } else {
                                (r.0 matches LoadAction::FetchUrl(u) && u@ == png_fallback_spec(
                                    reference@,
                                )) && r.1 == LoadPhase::Fallback
                            }
                        } else {
                            r.0 matches LoadAction::Fail(FetchError::Undecodable { .. })
                        }
                    },
                }
            },
            Err(detail) => r.0 matches LoadAction::Fail(
                FetchError::Network { detail: d },
            ) && d@ == detail@,
        },
{
    match body {
        Ok(bytes) => {
            match decode_raster(bytes.as_slice()) {
                Ok(img) => (LoadAction::Finish(img), phase),
                Err(e) => {
                    match phase {
                        LoadPhase::Primary => {
                            let chars = str_chars(reference);
                            if looks_like_svg_exec(bytes.as_slice(), chars.as_slice()) {
                                (LoadAction::Rasterize(bytes), LoadPhase::Primary)
                            } else {
                                (
                                    LoadAction::FetchUrl(png_fallback_url(reference)),
                                    LoadPhase::Fallback,
                                )
                            }
                        },
                        LoadPhase::Fallback => (
                            LoadAction::Fail(FetchError::Undecodable { error: e }),
                            phase,
                        ),
                    }
                },
            }
        },
        Err(detail) => (LoadAction::Fail(FetchError::Network { detail }), phase),
    }
}

/// Take the outcome of reading a local file and decode it; local
/// references have no fallback.
pub fn on_local_bytes(body: Result<Vec<u8>, String>) -> (r: LoadAction)
    ensures
        match body {
            Ok(bytes) => {
                match decoded_raster(bytes@) {
                    Some((w, h, px)) => r matches LoadAction::Finish(img) && img.width == w
                        && img.height == h && img.pixels@ == px,
                    None => r matches LoadAction::Fail(FetchError::Undecodable { .. }),
                }
            },
            Err(detail) => r matches LoadAction::Fail(FetchError::Network { detail: d }) && d@
                == detail@,
        },
{
    match body {
        Ok(bytes) => {
            match decode_raster(bytes.as_slice()) {
                Ok(img) => LoadAction::Finish(img),
                Err(e) => LoadAction::Fail(FetchError::Undecodable { error: e }),
            }
        },
        Err(detail) => LoadAction::Fail(FetchError::Network { detail }),
    }
}

/// Take the outcome of rasterizing vector bytes: successful pixels are
/// normalized into straight RGBA and finish the pipeline; a failed
/// rasterization — or a pixel buffer that is not whole pixels of four
/// bytes — falls back to the PNG fallback URL.
pub fn on_rasterized(
    reference: &str,
    raster: Result<RasterImage, DecodeError>,
) -> (r: (LoadAction, LoadPhase))
    ensures
        match raster {
            Ok(img) => {
                if img.pixels@.len() % 4 == 0 {
                    r.0 matches LoadAction::Finish(out) && out.width == img.width && out.height
                        == img.height && out.pixels@ == normalized_pixels(img.pixels@)
                } else {
                    (r.0 matches LoadAction::FetchUrl(u) && u@ == png_fallback_spec(reference@))
                        && r.1 == LoadPhase::Fallback
                }
            },
            Err(_) => (r.0 matches LoadAction::FetchUrl(u) && u@ == png_fallback_spec(reference@))
                && r.1 == LoadPhase::Fallback,
        },
{
    match raster {
        Ok(img) => {
            let mut pixels = img.pixels;
            if pixels.len() % 4 == 0 {
                normalize_premultiplied(&mut pixels);
                (
                    LoadAction::Finish(
                        RasterImage { width: img.width, height: img.height, pixels },
                    ),
                    LoadPhase::Primary,
                )
            } else {
                (
                    LoadAction::FetchUrl(png_fallback_url(reference)),
                    LoadPhase::Fallback,
                )
            }
        },
        Err(_) => (LoadAction::FetchUrl(png_fallback_url(reference)), LoadPhase::Fallback),
    }
}

} // verus!
