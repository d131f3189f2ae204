//! What the asset editor learns from an image file's bytes: the decoded
//! RGBA raster, the format, the colour type, the SHA-256 digest, and the
//! facts an image report is built from.

use vstd::prelude::*;
use sha2::{Digest, Sha256};
use crate::asset::SceneAssetEditError;
use crate::mask::{SceneAssetPixelRect, selection_bounds, count_true, selected_pixel_count};
use crate::raster::{SceneAssetRaster, chan};
use crate::text::push_char;

verus! {

#[verifier::external_type_specification]
#[verifier::external_body]
pub struct ExImageError(image::ImageError);

/// What the image crate's built-in decoders give for the bytes, in the
/// format its built-in magic-number table recognises: width, height, the
/// RGBA bytes of `to_rgba8`, the name of the source colour type and whether
/// it has alpha; `None` when no format is recognised or the bytes do not
/// decode in it.
pub uninterp spec fn decoded_image(bytes: Seq<u8>) -> Option<(u32, u32, Seq<u8>, Seq<char>, bool)>;

/// What the image crate's built-in decoders give for the bytes when they are
/// read in the format the file extension names, converted with
/// `into_rgba8`: width, height and RGBA bytes; `None` when the extension
/// names no built-in format or the bytes do not decode in it.
pub uninterp spec fn decoded_rgba(bytes: Seq<u8>, extension: Seq<char>) -> Option<(u32, u32, Seq<u8>)>;

/// The name of the format the image crate recognises from the bytes' magic
/// number, if any.
pub uninterp spec fn guessed_format(bytes: Seq<u8>) -> Option<Seq<char>>;

/// The SHA-256 digest of the bytes.
pub uninterp spec fn sha256_of(bytes: Seq<u8>) -> Seq<u8>;

/// A decoded image: its RGBA raster, its colour type's name and whether the
/// source had an alpha channel.
pub struct DecodedImage {
    pub raster: SceneAssetRaster,
    pub color_type: String,
    pub has_alpha: bool,
}

/// Decodes the bytes in the format `image::guess_format` recognises from
/// their magic number, with `image::load_from_memory_with_format`, and
/// converts the result with `to_rgba8`. This is what `image::load_from_memory`
/// does when no format-detection or decoding hook has been registered with
/// the image crate; these two calls consult no hooks. Claims that the
/// outcome is `decoded_image(bytes)`, and that the raster holds four bytes
/// per pixel, as the image crate builds an `RgbaImage` (`ImageBuffer::new`
/// in its conversions, an exactly sized buffer from an RGBA8 decoder). The
/// error's content is not stated.
#[verifier::external_body]
fn decode_image(bytes: &[u8]) -> (decoded: Result<DecodedImage, image::ImageError>)
    ensures
        decoded is Err <==> decoded_image(bytes@) is None,
        decoded is Ok ==> decoded_image(bytes@) == Some(
            (
                decoded.unwrap().raster.width,
                decoded.unwrap().raster.height,
                decoded.unwrap().raster.data@,
                decoded.unwrap().color_type@,
                decoded.unwrap().has_alpha,
            ),
        ),
        decoded is Ok ==> decoded.unwrap().raster.wf(),
{
    let format = image::guess_format(bytes)?;
    let image = image::load_from_memory_with_format(bytes, format)?;
    let color = image.color();
    let rgba = image.to_rgba8();
    let (width, height) = rgba.dimensions();
    Ok(DecodedImage {
        raster: SceneAssetRaster { width, height, data: rgba.into_raw() },
        color_type: format!("{color:?}"),
        has_alpha: color.has_alpha(),
    })
}

/// Decodes the bytes in the format that `image::ImageFormat::from_extension`
/// names for the extension, with `image::load_from_memory_with_format` (the
/// reader and default limits that `ImageReader::open(..).decode()` uses),
/// then `into_rgba8`. It uses the built-in decoders only: this is what the
/// reader does when no decoding hook has been registered with the image
/// crate. An extension that names no format gives the image
/// crate's unsupported-format error, as the reader does. Claims that the
/// outcome is `decoded_rgba(bytes, extension)` and that the raster holds four
/// bytes per pixel; the error's content is not stated.
#[verifier::external_body]
fn decode_with_extension(bytes: &[u8], extension: &str) -> (decoded: Result<SceneAssetRaster, image::ImageError>)
    ensures
        decoded is Err <==> decoded_rgba(bytes@, extension@) is None,
        decoded is Ok ==> decoded_rgba(bytes@, extension@) == Some(
            (decoded.unwrap().width, decoded.unwrap().height, decoded.unwrap().data@),
        ),
        decoded is Ok ==> decoded.unwrap().wf(),
{
    let format = image::ImageFormat::from_extension(extension).ok_or_else(|| {
        image::ImageError::Unsupported(image::error::ImageFormatHint::PathExtension(extension.into()).into())
    })?;
    let rgba = image::load_from_memory_with_format(bytes, format)?.into_rgba8();
    let (width, height) = rgba.dimensions();
    Ok(SceneAssetRaster { width, height, data: rgba.into_raw() })
}

/// Decodes an image file's bytes into an RGBA raster, in the format its
/// extension names. Succeeds exactly when the image crate decodes them; an
/// error is an image-file error for `path`.
pub fn decode_rgba_raster(path: &str, bytes: &[u8], extension: &str) -> (r: Result<SceneAssetRaster, SceneAssetEditError>)
    ensures
        r is Ok <==> decoded_rgba(bytes@, extension@) is Some,
        r matches Ok(x) ==> x.wf() && decoded_rgba(bytes@, extension@) == Some((x.width, x.height, x.data@)),
        r matches Err(e) ==> (e matches SceneAssetEditError::ImageFile { path: p, message: _ } && p@ == path@),
{
    match decode_with_extension(bytes, extension) {
        Ok(x) => Ok(x),
        Err(error) => Err(SceneAssetEditError::ImageFile { path: String::from_str(path), message: image_error_text(&error) }),
    }
}

/// The text of an image crate error, as its `Display` writes it; nothing is
/// stated of it.
#[verifier::external_body]
fn image_error_text(error: &image::ImageError) -> (s: String) {
    error.to_string()
}

/// The name of the format `image::guess_format` recognises, written as its
/// `Debug` form; claims it is `guessed_format(bytes)`.
#[verifier::external_body]
fn guess_format_name(bytes: &[u8]) -> (name: Option<String>)
    ensures
        name is None <==> guessed_format(bytes@) is None,
        name is Some ==> guessed_format(bytes@) == Some(name.unwrap()@),
{
    image::guess_format(bytes).ok().map(|format| format!("{format:?}"))
}

/// The SHA-256 digest of the bytes, from the sha2 crate; claims it is
/// `sha256_of(bytes)` and 32 bytes long (`Sha256`'s output size).
#[verifier::external_body]
fn sha256_digest(bytes: &[u8]) -> (d: Vec<u8>)
    ensures
        d@ == sha256_of(bytes@),
        d@.len() == 32,
{
    let mut hasher = Sha256::new();
    hasher.update(bytes);
    hasher.finalize().to_vec()
}

/// A lower-case hexadecimal digit.
pub open spec fn hex_digit(n: int) -> char {
    if n < 10 {
        (48 + n) as char
    } else {
        (87 + n) as char
    }
}

/// The bytes in lower-case hexadecimal, two digits each.
pub open spec fn hex_text(bytes: Seq<u8>) -> Seq<char>
    decreases bytes.len(),
{
    if bytes.len() == 0 {
        seq![]
    } else {
        hex_text(bytes.drop_last()) + seq![hex_digit((bytes.last() / 16) as int), hex_digit((bytes.last() % 16) as int)]
    }
}

fn hex_char(n: u8) -> (c: char)
    requires
        n < 16,
    ensures
        c == hex_digit(n as int),
{
    if n < 10 {
        (48 + n) as char
    } else {
        (87 + n) as char
    }
}

/// The bytes in lower-case hexadecimal, two digits each.
pub fn hex_lower(bytes: &[u8]) -> (s: String)
    ensures
        s@ == hex_text(bytes@),
{
    let mut s = String::new();
    let mut i: usize = 0;
    while i < bytes.len()
        invariant
            i <= bytes@.len(),
            s@ == hex_text(bytes@.take(i as int)),
        decreases bytes.len() - i,
    {
        let b = bytes[i];
        proof {
            assert(bytes@.take(i + 1).drop_last() =~= bytes@.take(i as int));
        }
        push_char(&mut s, hex_char(b / 16));
        push_char(&mut s, hex_char(b % 16));
        proof {
            assert(s@ =~= hex_text(bytes@.take(i + 1)));
        }
        i = i + 1;
    }
    proof {
        assert(bytes@.take(bytes@.len() as int) =~= bytes@);
    }
    s
}

/// The SHA-256 digest of the bytes in lower-case hexadecimal.
pub fn sha256_hex(bytes: &[u8]) -> (s: String)
    ensures
        s@ == hex_text(sha256_of(bytes@)),
        s@.len() == 64,
{
    let d = sha256_digest(bytes);
    let s = hex_lower(d.as_slice());
    proof {
        lemma_hex_len(d@);
    }
    s
}

proof fn lemma_hex_len(bytes: Seq<u8>)
    ensures
        hex_text(bytes).len() == 2 * bytes.len(),
    decreases bytes.len(),
{
    if bytes.len() > 0 {
        lemma_hex_len(bytes.drop_last());
    }
}

/// What an image report is built from: size, colour type (the format's
/// name, a colon and the colour type's name), whether it has alpha, how
/// many pixels are fully transparent out of how many (at least one), the
/// bounds of the visible content and the file's SHA-256 digest.
pub struct SceneAssetImageFacts {
    pub width: u32,
    pub height: u32,
    pub color_type: String,
    pub has_alpha: bool,
    pub transparent_pixels: usize,
    pub pixel_count: usize,
    pub content_bounds: Option<SceneAssetPixelRect>,
    pub sha256: String,
}

/// The recognised format's name, or `unknown`.
pub open spec fn format_label(bytes: Seq<u8>) -> Seq<char> {
    match guessed_format(bytes) {
        Some(n) => n,
        None => "unknown"@,
    }
}

/// The facts of an image report, from the decoded image, the name of the
/// format its bytes were recognised as (`None` when none was) and the
/// digest text of its bytes.
pub fn image_facts_of(format: Option<String>, decoded: &DecodedImage, sha256: String) -> (f: SceneAssetImageFacts)
    requires
        decoded.raster.wf(),
    ensures
        ({
            let w = decoded.raster.width;
            let h = decoded.raster.height;
            let d = decoded.raster.data@;
            &&& f.width == w
            &&& f.height == h
            &&& f.color_type@ == (match format {
                Some(n) => n@,
                None => "unknown"@,
            }) + ":"@ + decoded.color_type@
            &&& f.has_alpha == decoded.has_alpha
            &&& f.transparent_pixels == count_true(Seq::new((w * h) as nat, |i: int| chan(d, i, 3) == 0))
            &&& f.pixel_count == (if w * h == 0 { 1 } else { w * h })
            &&& selection_bounds(w, h, Seq::new((w * h) as nat, |i: int| chan(d, i, 3) != 0), f.content_bounds)
            &&& f.sha256 == sha256
        }),
{
    let raster = &decoded.raster;
    let mut color_type = match format {
        Some(name) => name,
        None => String::from_str("unknown"),
    };
    color_type.append(":");
    color_type.append(decoded.color_type.as_str());
    let n = raster.pixel_len();
    let mut transparent: Vec<bool> = Vec::new();
    let mut i: usize = 0;
    while i < n
        invariant
            raster.wf(),
            n == raster.count(),
            i <= n,
            transparent@ =~= Seq::new(n as nat, |j: int| chan(raster.data@, j, 3) == 0).take(i as int),
        decreases n - i,
    {
        let p = raster.pixel(i);
        transparent.push(p[3] == 0);
        i = i + 1;
    }
    proof {
        assert(Seq::new(n as nat, |j: int| chan(raster.data@, j, 3) == 0).take(n as int) =~= Seq::new(
            n as nat,
            |j: int| chan(raster.data@, j, 3) == 0,
        ));
        assert(raster.opaque_flags() =~= Seq::new(n as nat, |j: int| chan(raster.data@, j, 3) != 0));
    }
    let content_bounds = raster.content_bounds();
    SceneAssetImageFacts {
        width: raster.width,
        height: raster.height,
        color_type,
        has_alpha: decoded.has_alpha,
        transparent_pixels: selected_pixel_count(transparent.as_slice()),
        pixel_count: if n == 0 { 1 } else { n },
        content_bounds,
        sha256,
    }
}

/// Decodes the bytes of the image file at `path` and gathers the facts of
/// its report (see `image_facts_of`); bytes that do not decode are an
/// image-file error for `path`.
pub fn scene_asset_image_facts(path: &str, bytes: &[u8]) -> (r: Result<SceneAssetImageFacts, SceneAssetEditError>)
    ensures
        decoded_image(bytes@) is None ==> (r matches Err(SceneAssetEditError::ImageFile { path: p, message: _ })
            && p@ == path@),
        decoded_image(bytes@) matches Some((w, h, d, c, a)) ==> (r matches Ok(f) && {
            &&& f.width == w
            &&& f.height == h
            &&& f.color_type@ == format_label(bytes@) + ":"@ + c
            &&& f.has_alpha == a
            &&& f.transparent_pixels == count_true(Seq::new((w * h) as nat, |i: int| chan(d, i, 3) == 0))
            &&& f.pixel_count == (if w * h == 0 { 1 } else { w * h })
            &&& selection_bounds(w, h, Seq::new((w * h) as nat, |i: int| chan(d, i, 3) != 0), f.content_bounds)
            &&& f.sha256@ == hex_text(sha256_of(bytes@))
        }),
{
    let format = guess_format_name(bytes);
    let decoded = match decode_image(bytes) {
        Ok(d) => d,
        Err(e) => {
            return Err(SceneAssetEditError::ImageFile { path: String::from_str(path), message: image_error_text(&e) });
        },
    };
    Ok(image_facts_of(format, &decoded, sha256_hex(bytes)))
}

} // verus!
