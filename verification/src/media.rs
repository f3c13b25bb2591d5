use vstd::prelude::*;

use crate::failure::{failure, PluginFailure, INTERNAL_ERROR};
use vstd::string::StringSliceAdditionalSpecFns;
use vstd::utf8::{encode_utf8, is_ascii_chars};

verus! {

broadcast use vstd::string::group_string_axioms;

/// The image crate's `ImageError`, carried through as an opaque value and only
/// turned into text for a message.
#[verifier::external_type_specification]
#[verifier::external_body]
pub struct ExImageError(image::ImageError);

/// The longest edge that a stored image keeps.
pub const MAX_IMAGE_EDGE: u32 = 4096;

/// The longest edge of an item's thumbnail.
pub const THUMB_EDGE: u32 = 160;

/// The longest edge of the enlarged view of an image.
pub const LIGHTBOX_EDGE: u32 = 1920;

/// The length that an enlarged view's data URL is kept within where the quality
/// allows, comfortably below the host's limit.
pub const LIGHTBOX_URL_LIMIT: usize = 1_500_000;

/// The host's limit on the JSON that carries an enlarged view: 2 MiB.
pub const LIGHTBOX_URL_MAX: usize = 2_097_152;

/// The symbol for the 6-bit value `v` in the standard base64 alphabet.
pub open spec fn base64_symbol(v: int) -> char {
    if v < 26 {
        (65 + v) as char
    } else if v < 52 {
        (97 + v - 26) as char
    } else if v < 62 {
        (48 + v - 52) as char
    } else if v == 62 {
        '+'
    } else {
        '/'
    }
}

/// Standard base64 with `=` padding (RFC 4648, section 4).
pub open spec fn base64_standard(b: Seq<u8>) -> Seq<char>
    decreases b.len(),
{
    if b.len() == 0 {
        seq![]
    } else {
        let b0 = b[0] as int;
        let b1 = if b.len() > 1 { b[1] as int } else { 0 };
        let b2 = if b.len() > 2 { b[2] as int } else { 0 };
        let c0 = base64_symbol(b0 / 4);
        let c1 = base64_symbol((b0 % 4) * 16 + b1 / 16);
        let c2 = base64_symbol((b1 % 16) * 4 + b2 / 64);
        let c3 = base64_symbol(b2 % 64);
        if b.len() == 1 {
            seq![c0, c1, '=', '=']
        } else if b.len() == 2 {
            seq![c0, c1, c2, '=']
        } else {
            seq![c0, c1, c2, c3] + base64_standard(b.skip(3))
        }
    }
}

/// Whether the base64 text of `n` bytes has a length that fits in `usize`.
pub open spec fn base64_len_fits(n: nat) -> bool {
    n / 3 * 4 + 4 <= usize::MAX
}

/// `base64::engine::general_purpose::STANDARD.encode`: the standard alphabet
/// with padding, as the crate's `alphabet::STANDARD` and `PAD` configure it. The
/// crate panics where the encoded length overflows `usize`, which `requires` leaves out.
#[verifier::external_body]
fn encode_base64(bytes: &[u8]) -> (text: String)
    requires
        base64_len_fits(bytes@.len()),
    ensures
        text@ == base64_standard(bytes@),
{
    base64::Engine::encode(&base64::engine::general_purpose::STANDARD, bytes)
}

/// The prefix of a PNG data URL.
pub open spec fn png_url_prefix() -> Seq<char> {
    "data:image/png;base64,"@
}

/// The prefix of a JPEG data URL.
pub open spec fn jpeg_url_prefix() -> Seq<char> {
    "data:image/jpeg;base64,"@
}

/// A data URL for PNG bytes, as an item's preview holds it.
pub fn png_data_url(png: &[u8]) -> (url: String)
    requires
        base64_len_fits(png@.len()),
    ensures
        url@ == png_url_prefix() + base64_standard(png@),
{
    let mut url = String::from_str("data:image/png;base64,");
    let encoded = encode_base64(png);
    url.append(encoded.as_str());
    url
}

/// A data URL for JPEG bytes.
pub fn jpeg_data_url(jpeg: &[u8]) -> (url: String)
    requires
        base64_len_fits(jpeg@.len()),
    ensures
        url@ == jpeg_url_prefix() + base64_standard(jpeg@),
{
    let mut url = String::from_str("data:image/jpeg;base64,");
    let encoded = encode_base64(jpeg);
    url.append(encoded.as_str());
    url
}

/// Whether an RGBA buffer of `len` bytes holds a `width` by `height` image
/// (what `ImageBuffer::from_raw` checks).
pub open spec fn rgba_fits(width: u32, height: u32, len: nat) -> bool {
    4 * width * height <= len
}

/// The bytes that a `width` by `height` RGBA image takes, or `usize::MAX` where
/// that does not fit.
pub open spec fn rgba_len_needed(width: u32, height: u32) -> nat {
    if width * height * 4 <= usize::MAX {
        (width * height * 4) as nat
    } else {
        usize::MAX as nat
    }
}

/// The bytes that a `width` by `height` RGBA image takes, saturating at `usize::MAX`.
pub fn rgba_byte_len(width: u32, height: u32) -> (n: usize)
    ensures
        n == rgba_len_needed(width, height),
{
    let area = match (width as usize).checked_mul(height as usize) {
        Some(v) => v,
        None => usize::MAX,
    };
    match area.checked_mul(4) {
        Some(v) => v,
        None => usize::MAX,
    }
}

/// What is wrong with an RGBA buffer of `len` bytes for a `width` by `height`
/// image, if anything: too short, or a size that cannot be held at all.
pub open spec fn image_buffer_problem(width: u32, height: u32, len: nat) -> Option<Seq<char>> {
    if len < rgba_len_needed(width, height) {
        Some("Image buffer is truncated"@)
    } else if !rgba_fits(width, height, len) {
        Some("Invalid image buffer"@)
    } else {
        None
    }
}

/// Checks an RGBA buffer of `len` bytes for a `width` by `height` image; gives
/// the number of bytes that the image takes.
pub fn check_image_buffer(width: u32, height: u32, len: usize) -> (r: Result<usize, PluginFailure>)
    ensures
        match image_buffer_problem(width, height, len as nat) {
            Some(m) => r matches Err(f) && f.code == INTERNAL_ERROR && f.message@ == m,
            None => r matches Ok(n) && n == 4 * width * height,
        },
{
    let expected = rgba_byte_len(width, height);
    if len < expected {
        return Err(failure(INTERNAL_ERROR, "Image buffer is truncated"));
    }
    if expected == usize::MAX {
        proof {
            let a = width * height;
            assert(a * 4 != usize::MAX) by (nonlinear_arith)
                requires
                    usize::MAX == 0xffff_ffff || usize::MAX == 0xffff_ffff_ffff_ffff,
                    a >= 0,
            {}
            assert(width * height * 4 == 4 * width * height) by (nonlinear_arith);
        }
        return Err(failure(INTERNAL_ERROR, "Invalid image buffer"));
    }
    proof {
        assert(width * height * 4 == 4 * width * height) by (nonlinear_arith);
    }
    Ok(expected)
}

/// An RGBA image kept as it is where both edges are within `max_edge`: its
/// first `4 * width * height` bytes. A buffer with a problem is refused; `None`
/// means that the image must be scaled down.
pub fn image_within_edge(width: u32, height: u32, rgba: &[u8], max_edge: u32) -> (r: Result<
    Option<(u32, u32, Vec<u8>)>,
    PluginFailure,
>)
    ensures
        match image_buffer_problem(width, height, rgba@.len()) {
            Some(m) => r matches Err(f) && f.code == INTERNAL_ERROR && f.message@ == m,
            None => if width <= max_edge && height <= max_edge {
                r matches Ok(Some((w, h, px))) && w == width && h == height && px@ == rgba@.take(
                    4 * width * height,
                )
            } else {
                r matches Ok(None)
            },
        },
{
    let n = check_image_buffer(width, height, rgba.len())?;
    if width <= max_edge && height <= max_edge {
        Ok(Some((width, height, leading_bytes(rgba, n))))
    } else {
        Ok(None)
    }
}

/// A copy of the first `n` bytes.
fn leading_bytes(bytes: &[u8], n: usize) -> (px: Vec<u8>)
    requires
        n <= bytes@.len(),
    ensures
        px@ == bytes@.take(n as int),
{
    let mut px: Vec<u8> = Vec::new();
    let mut i: usize = 0;
    while i < n
        invariant
            n <= bytes@.len(),
            i <= n,
            px@ == bytes@.take(i as int),
        decreases n - i,
    {
        px.push(bytes[i]);
        assert(bytes@.take(i + 1) =~= bytes@.take(i as int).push(bytes@[i as int]));
        i = i + 1;
    }
    px
}

/// The RGBA pixels that the image crate's `resize` with the triangle filter makes
/// of a `width` by `height` RGBA image at a new size.
pub uninterp spec fn triangle_resize(
    width: u32,
    height: u32,
    rgba: Seq<u8>,
    new_width: u32,
    new_height: u32,
) -> Seq<u8>;

/// `ImageBuffer::<Rgba<u8>, _>::from_raw`, then `imageops::resize` with
/// `FilterType::Triangle`. `from_raw` gives `None` exactly where the buffer is
/// too short. `resize` gives an RGBA image of the new size; on the way it builds
/// a `width` by `new_height` image of four `f32` a pixel, and `ImageBuffer::new`
/// panics where a buffer's length overflows, which `requires` leaves out. The
/// scaled pixels are a function of the arguments, not written out.
#[verifier::external_body]
fn resize_triangle(width: u32, height: u32, rgba: Vec<u8>, new_width: u32, new_height: u32) -> (r:
    Option<Vec<u8>>)
    requires
        16 * width * new_height <= isize::MAX,
        4 * new_width * new_height <= isize::MAX,
    ensures
        r is None <==> !rgba_fits(width, height, rgba@.len()),
        r matches Some(px) ==> px@ == triangle_resize(width, height, rgba@, new_width, new_height)
            && px@.len() == 4 * new_width * new_height,
{
    let img = image::RgbaImage::from_raw(width, height, rgba)?;
    let filter = image::imageops::FilterType::Triangle;
    Some(image::imageops::resize(&img, new_width, new_height, filter).into_raw())
}

/// An RGBA image scaled to `new_width` by `new_height` with the triangle filter:
/// the first `4 * width * height` bytes of a buffer without a problem are scaled;
/// a buffer with a problem is refused.
pub fn downscale_to(width: u32, height: u32, rgba: &[u8], new_width: u32, new_height: u32) -> (r:
    Result<(u32, u32, Vec<u8>), PluginFailure>)
    requires
        16 * width * new_height <= isize::MAX,
        4 * new_width * new_height <= isize::MAX,
    ensures
        match image_buffer_problem(width, height, rgba@.len()) {
            Some(m) => r matches Err(f) && f.code == INTERNAL_ERROR && f.message@ == m,
            None => r matches Ok((w, h, px)) && w == new_width && h == new_height && px@
                == triangle_resize(width, height, rgba@.take(4 * width * height), new_width, new_height)
                && px@.len() == 4 * new_width * new_height,
        },
{
    let n = check_image_buffer(width, height, rgba.len())?;
    let px = leading_bytes(rgba, n);
    match resize_triangle(width, height, px, new_width, new_height) {
        Some(scaled) => Ok((new_width, new_height, scaled)),
        None => Err(failure(INTERNAL_ERROR, "Invalid image buffer")),
    }
}

/// What the image crate's PNG encoder writes for a `width` by `height` RGBA buffer.
pub uninterp spec fn png_encoding(width: u32, height: u32, rgba: Seq<u8>) -> Seq<u8>;

/// `ImageBuffer::<Rgba<u8>, _>::from_raw`, then `write_to` a `Cursor` as
/// `ImageFormat::Png`. `from_raw` gives `None` exactly where the buffer is too
/// short. The png crate's writer refuses a zero width or height and nothing else
/// for 8-bit RGBA, and writing to memory does not fail, so encoding succeeds
/// exactly when both edges are above zero. The encoded bytes are a function of
/// the arguments, not written out; the encoder reads the first `4 * width *
/// height` bytes. PNG is lossless and writes no colour-space chunk here, so the
/// image crate decodes the bytes back to the same size and pixels, for the image
/// sizes that this library stores (each edge at most `MAX_IMAGE_EDGE`, well within
/// the decoder's default memory limit). A `Vec` never holds more than
/// `isize::MAX` bytes.
#[verifier::external_body]
fn png_from_rgba(width: u32, height: u32, rgba: Vec<u8>) -> (r: Option<Result<Vec<u8>, image::ImageError>>)
    ensures
        r is None <==> !rgba_fits(width, height, rgba@.len()),
        r matches Some(res) ==> (res is Ok <==> width > 0 && height > 0),
        r matches Some(Ok(png)) ==> png@ == png_encoding(width, height, rgba@) && png@.len()
            <= isize::MAX,
        r matches Some(Ok(png)) ==> (width <= MAX_IMAGE_EDGE && height <= MAX_IMAGE_EDGE
            ==> decoded_image(png@) == Some((width, height, rgba@.take(4 * width * height)))),
{
    let img = image::RgbaImage::from_raw(width, height, rgba)?;
    let mut out = std::io::Cursor::new(Vec::new());
    Some(match img.write_to(&mut out, image::ImageFormat::Png) {
        Ok(()) => Ok(out.into_inner()),
        Err(e) => Err(e),
    })
}

/// The image crate's `Display` text for an error. What it says is not stated.
#[verifier::external_body]
fn image_error_text(e: &image::ImageError) -> String {
    format!("{e}")
}

/// `prefix` followed by the text of `e`.
fn image_failure(prefix: &str, e: &image::ImageError) -> (f: PluginFailure)
    ensures
        f.code == INTERNAL_ERROR,
        f.message@.len() >= prefix@.len(),
        f.message@.subrange(0, prefix@.len() as int) == prefix@,
{
    let mut message = String::from_str(prefix);
    let text = image_error_text(e);
    message.append(text.as_str());
    assert(message@.subrange(0, prefix@.len() as int) =~= prefix@);
    PluginFailure { code: INTERNAL_ERROR, message }
}

/// A `width` by `height` RGBA buffer encoded as PNG. A buffer too short for the
/// size is refused as invalid; an image with an empty edge fails in the encoder,
/// reported with its text; any other image is encoded.
pub fn encode_png(width: u32, height: u32, rgba: &[u8]) -> (r: Result<Vec<u8>, PluginFailure>)
    ensures
        r is Ok <==> rgba_fits(width, height, rgba@.len()) && width > 0 && height > 0,
        !rgba_fits(width, height, rgba@.len()) ==> (r matches Err(f) && f.code == INTERNAL_ERROR
            && f.message@ == "Invalid image buffer"@),
        rgba_fits(width, height, rgba@.len()) && (width == 0 || height == 0) ==> (r matches Err(f)
            && f.code == INTERNAL_ERROR && f.message@.len() >= 19 && f.message@.subrange(0, 19)
            == "PNG encode failed: "@),
        r matches Ok(png) ==> png@ == png_encoding(width, height, rgba@) && base64_len_fits(
            png@.len(),
        ),
        r matches Ok(png) ==> (width <= MAX_IMAGE_EDGE && height <= MAX_IMAGE_EDGE
            ==> decoded_image(png@) == Some((width, height, rgba@.take(4 * width * height)))),
        r matches Err(f) ==> f.code == INTERNAL_ERROR,
{
    let mut buf: Vec<u8> = Vec::new();
    let mut i: usize = 0;
    while i < rgba.len()
        invariant
            i <= rgba@.len(),
            buf@ == rgba@.take(i as int),
        decreases rgba@.len() - i,
    {
        buf.push(rgba[i]);
        assert(rgba@.take(i + 1) =~= rgba@.take(i as int).push(rgba@[i as int]));
        i = i + 1;
    }
    assert(rgba@.take(i as int) =~= rgba@);
    match png_from_rgba(width, height, buf) {
        None => Err(failure(INTERNAL_ERROR, "Invalid image buffer")),
        Some(Ok(png)) => {
            assert(base64_len_fits(png@.len()));
            Ok(png)
        },
        Some(Err(e)) => {
            proof {
                reveal_strlit("PNG encode failed: ");
            }
            Err(image_failure("PNG encode failed: ", &e))
        },
    }
}

/// What the image crate's JPEG encoder writes for an RGB buffer at a quality.
pub uninterp spec fn jpeg_encoding(rgb: Seq<u8>, width: u32, height: u32, quality: u8) -> Seq<u8>;

/// Whether the JPEG encoder takes an image of this size: each edge from 1 to 65535.
pub open spec fn jpeg_size_ok(width: u32, height: u32) -> bool {
    1 <= width <= 65535 && 1 <= height <= 65535
}

/// `JpegEncoder::new_with_quality` on a `Cursor`, then `write_image` with
/// `ExtendedColorType::Rgb8`. The encoder panics unless the buffer holds
/// exactly three bytes a pixel, which `requires` leaves out, and refuses an
/// edge of 0 or above 65535; writing to memory does not fail otherwise. The
/// encoded bytes are a function of the arguments, not written out. A `Vec` never
/// holds more than `isize::MAX` bytes.
#[verifier::external_body]
fn jpeg_from_rgb(rgb: &[u8], width: u32, height: u32, quality: u8) -> (r: Result<
    Vec<u8>,
    image::ImageError,
>)
    requires
        rgb@.len() == 3 * width * height,
    ensures
        r is Ok <==> jpeg_size_ok(width, height),
        r matches Ok(jpeg) ==> jpeg@ == jpeg_encoding(rgb@, width, height, quality) && jpeg@.len()
            <= isize::MAX,
{
    let mut out = std::io::Cursor::new(Vec::new());
    let encoder = image::codecs::jpeg::JpegEncoder::new_with_quality(&mut out, quality);
    match image::ImageEncoder::write_image(encoder, rgb, width, height, image::ExtendedColorType::Rgb8) {
        Ok(()) => Ok(out.into_inner()),
        Err(e) => Err(e),
    }
}

/// The JPEG data URL of an RGB image at one quality.
pub open spec fn lightbox_candidate(rgb: Seq<u8>, width: u32, height: u32, quality: u8) -> Seq<
    char,
> {
    jpeg_url_prefix() + base64_standard(jpeg_encoding(rgb, width, height, quality))
}

/// The data URL of the enlarged view: JPEG at quality 85, then 15 less each
/// time the URL is longer than `LIGHTBOX_URL_LIMIT`, until a quality of 45 or
/// less is reached, whose URL is taken whatever its length.
pub open spec fn lightbox_url(rgb: Seq<u8>, width: u32, height: u32, quality: u8) -> Seq<char>
    decreases quality,
{
    let url = lightbox_candidate(rgb, width, height, quality);
    if url.len() <= LIGHTBOX_URL_LIMIT || quality <= 45 {
        url
    } else {
        lightbox_url(rgb, width, height, (quality - 15) as u8)
    }
}

proof fn lemma_symbol_ascii(v: int)
    requires
        0 <= v < 64,
    ensures
        '\0' <= base64_symbol(v) <= '\u{7f}',
{
}

proof fn lemma_base64_len(b: Seq<u8>)
    ensures
        base64_standard(b).len() == (b.len() + 2) / 3 * 4,
    decreases b.len(),
{
    if b.len() >= 3 {
        lemma_base64_len(b.skip(3));
        assert(b.skip(3).len() == b.len() - 3);
        assert(base64_standard(b).len() == 4 + base64_standard(b.skip(3)).len());
        assert((b.len() + 2) / 3 == (b.len() - 3 + 2) / 3 + 1);
    } else if b.len() > 0 {
        assert(base64_standard(b).len() == 4);
    }
}

proof fn lemma_base64_ascii(b: Seq<u8>)
    ensures
        is_ascii_chars(base64_standard(b)),
    decreases b.len(),
{
    if b.len() > 0 {
        let b0 = b[0] as int;
        let b1 = if b.len() > 1 { b[1] as int } else { 0 };
        let b2 = if b.len() > 2 { b[2] as int } else { 0 };
        lemma_symbol_ascii(b0 / 4);
        lemma_symbol_ascii((b0 % 4) * 16 + b1 / 16);
        lemma_symbol_ascii((b1 % 16) * 4 + b2 / 64);
        lemma_symbol_ascii(b2 % 64);
        if b.len() > 3 {
            lemma_base64_ascii(b.skip(3));
        }
        let r = base64_standard(b);
        let c0 = base64_symbol(b0 / 4);
        let c1 = base64_symbol((b0 % 4) * 16 + b1 / 16);
        let c2 = base64_symbol((b1 % 16) * 4 + b2 / 64);
        let c3 = base64_symbol(b2 % 64);
        let head = if b.len() == 1 {
            seq![c0, c1, '=', '=']
        } else if b.len() == 2 {
            seq![c0, c1, c2, '=']
        } else {
            seq![c0, c1, c2, c3]
        };
        let tail = if b.len() > 3 {
            base64_standard(b.skip(3))
        } else {
            Seq::<char>::empty()
        };
        if b.len() == 1 {
            assert(r == seq![c0, c1, '=', '=']);
            assert(r =~= head + tail);
        } else if b.len() == 2 {
            assert(r == seq![c0, c1, c2, '=']);
            assert(r =~= head + tail);
        } else {
            assert(r == seq![c0, c1, c2, c3] + base64_standard(b.skip(3)));
            assert(r =~= head + tail);
        }
        assert forall|i: int| 0 <= i < r.len() implies '\0' <= #[trigger] r[i] <= '\u{7f}' by {
            if i < 4 {
                assert(r[i] == head[i]);
            } else {
                assert(r[i] == tail[i - 4]);
            }
        }
    }
}

/// The enlarged view of a `width` by `height` RGB image as a JPEG data URL
/// meant to stay under the host's 2 MiB limit, with its size.
pub fn lightbox_data_url(width: u32, height: u32, rgb: &[u8]) -> (r: Result<
    (u32, u32, String),
    PluginFailure,
>)
    requires
        rgb@.len() == 3 * width * height,
    ensures
        r is Ok <==> jpeg_size_ok(width, height),
        r matches Ok((w, h, url)) ==> {
            &&& w == width
            &&& h == height
            &&& url@ == lightbox_url(rgb@, width, height, 85)
            &&& is_ascii_chars(url@)
        },
        r matches Err(f) ==> f.code == INTERNAL_ERROR,
{
    let mut quality: u8 = 85;
    loop
        invariant
            rgb@.len() == 3 * width * height,
            quality == 85 || quality == 70 || quality == 55 || quality == 40,
            lightbox_url(rgb@, width, height, 85) == lightbox_url(rgb@, width, height, quality),
        decreases quality,
    {
        let jpeg = match jpeg_from_rgb(rgb, width, height, quality) {
            Ok(b) => b,
            Err(e) => {
                return Err(image_failure("JPEG encode failed: ", &e));
            },
        };
        assert(base64_len_fits(jpeg@.len()));
        let url = jpeg_data_url(jpeg.as_slice());
        proof {
            reveal_strlit("data:image/jpeg;base64,");
            lemma_base64_ascii(jpeg@);
            lemma_base64_len(jpeg@);
            assert(url@.len() <= usize::MAX);
            let pre = jpeg_url_prefix();
            assert forall|i: int| 0 <= i < pre.len() implies '\0' <= #[trigger] pre[i] <= '\u{7f}' by {}
            vstd::utf8::is_ascii_chars_concat(url@, pre, base64_standard(jpeg@));
        }
        let text = url.as_str();
        let n = text.len();
        proof {
            vstd::utf8::is_ascii_chars_encode_utf8(text@);
        }
        assert(text.spec_bytes() == encode_utf8(text@));
        assert(n == url@.len());
        if n <= LIGHTBOX_URL_LIMIT || quality <= 45 {
            return Ok((width, height, url));
        }
        quality = quality - 15;
    }
}

/// The size and RGBA pixels that the image crate decodes from encoded image
/// bytes, or `None` where it cannot decode them.
pub uninterp spec fn decoded_image(bytes: Seq<u8>) -> Option<(u32, u32, Seq<u8>)>;

/// `image::load_from_memory`, then `to_rgba8`: the format is guessed from the
/// bytes and the default limits apply, so whether decoding succeeds, and the
/// decoded image, are a function of the bytes, not written out; an RGBA buffer
/// holds four bytes a pixel.
#[verifier::external_body]
fn rgba_from_encoded(bytes: &[u8]) -> (r: Result<(u32, u32, Vec<u8>), image::ImageError>)
    ensures
        r is Ok <==> decoded_image(bytes@) is Some,
        r matches Ok((w, h, px)) ==> decoded_image(bytes@) == Some((w, h, px@)) && px@.len() == 4
            * w * h,
{
    match image::load_from_memory(bytes) {
        Ok(img) => {
            let rgba = img.to_rgba8();
            Ok((rgba.width(), rgba.height(), rgba.into_raw()))
        },
        Err(e) => Err(e),
    }
}

/// Decodes a stored image blob to its size and RGBA pixels.
pub fn decode_png(bytes: &[u8]) -> (r: Result<(u32, u32, Vec<u8>), PluginFailure>)
    ensures
        r is Ok <==> decoded_image(bytes@) is Some,
        r matches Ok((w, h, px)) ==> decoded_image(bytes@) == Some((w, h, px@)) && px@.len() == 4
            * w * h,
        r matches Err(f) ==> f.code == INTERNAL_ERROR && f.message@.len() >= 29
            && f.message@.subrange(0, 29) == "Failed to decode image blob: "@,
{
    match rgba_from_encoded(bytes) {
        Ok(decoded) => Ok(decoded),
        Err(e) => {
            proof {
                reveal_strlit("Failed to decode image blob: ");
            }
            Err(image_failure("Failed to decode image blob: ", &e))
        },
    }
}

/// The RGB pixels of a `width` by `height` RGBA image: each pixel's red, green
/// and blue bytes, its alpha byte dropped.
pub open spec fn rgb_conversion(width: u32, height: u32, rgba: Seq<u8>) -> Seq<u8> {
    Seq::new((3 * width * height) as nat, |i: int| rgba[4 * (i / 3) + i % 3])
}

/// `ImageBuffer::<Rgba<u8>, _>::from_raw`, then `DynamicImage::ImageRgba8(..).to_rgb8()`.
/// `from_raw` gives `None` exactly where the buffer is too short. `to_rgb8`
/// casts 8-bit RGBA to 8-bit RGB channel by channel, whatever the colour space:
/// of each of the image's `width * height` pixels it keeps red, green and blue
/// and drops alpha.
#[verifier::external_body]
fn rgb_from_rgba(width: u32, height: u32, rgba: Vec<u8>) -> (r: Option<Vec<u8>>)
    ensures
        r is None <==> !rgba_fits(width, height, rgba@.len()),
        r matches Some(rgb) ==> rgb@ == rgb_conversion(width, height, rgba@),
{
    let img = image::RgbaImage::from_raw(width, height, rgba)?;
    Some(image::DynamicImage::ImageRgba8(img).to_rgb8().into_raw())
}

/// The enlarged view of a `width` by `height` RGBA image, converted to RGB,
/// as `lightbox_data_url` makes it.
pub fn lightbox_from_rgba(width: u32, height: u32, rgba: Vec<u8>) -> (r: Result<
    (u32, u32, String),
    PluginFailure,
>)
    ensures
        !rgba_fits(width, height, rgba@.len()) ==> (r matches Err(f) && f.code == INTERNAL_ERROR
            && f.message@ == "Invalid image buffer"@),
        rgba_fits(width, height, rgba@.len()) ==> (r is Ok <==> jpeg_size_ok(width, height)),
        r matches Ok((w, h, url)) ==> {
            &&& w == width
            &&& h == height
            &&& url@ == lightbox_url(rgb_conversion(width, height, rgba@), width, height, 85)
            &&& is_ascii_chars(url@)
        },
        r matches Err(f) ==> f.code == INTERNAL_ERROR,
{
    match rgb_from_rgba(width, height, rgba) {
        Some(rgb) => lightbox_data_url(width, height, rgb.as_slice()),
        None => Err(failure(INTERNAL_ERROR, "Invalid image buffer")),
    }
}

/// Where an image item's blob is kept, relative to the data directory.
pub open spec fn blob_path(id: Seq<char>) -> Seq<char> {
    "blobs/"@ + id + ".png"@
}

/// Where the blob of the image item with id `id` is kept: `blobs/<id>.png`.
pub fn blob_file_name(id: &str) -> (rel: String)
    ensures
        rel@ == blob_path(id@),
{
    let mut rel = String::from_str("blobs/");
    rel.append(id);
    rel.append(".png");
    rel
}

} // verus!
