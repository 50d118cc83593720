//! Image payloads sent by the interface: the data-URL framing, the size limits, and
//! decoding into an image.
use vstd::prelude::*;
use vstd::utf8::encode_utf8;

use image::{ColorType, DynamicImage, GenericImageView};

use crate::codec::{base64_decoded, base64_encoded, decode_base64, encode_base64};
use crate::error::{Error, ErrorKind};
use crate::ocr::BBox;
use crate::screenshot::ImageMeta;
use crate::text::{
    chars_of, decimal, eq_ignore_case, eq_ignore_case_str, find_char, find_from, has_prefix,
    lemma_find_from, lemma_find_shift, owned, push_decimal, push_str, split, split_chars, starts_with_chars,
    str_eq, string_from_chars, string_of_chars, trim, trim_chars, vec_slice,
};

verus! {

/// Largest decoded image payload, in bytes.
pub const MAX_IMAGE_PAYLOAD_BYTES: usize = 25 * 1024 * 1024;

/// Largest decoded image, in pixels.
pub const MAX_IMAGE_PIXELS: u64 = 24_000_000;

/// A screenshot as a base64-encoded PNG with its size.
#[derive(Debug)]
pub struct ScreenshotPayload {
    pub meta: ImageMeta,
    pub base64_png: String,
}

/// How the pixels of an image are stored: the channels and the bits per channel.
#[derive(Clone, Copy, Debug, PartialEq, Eq, Structural)]
pub enum PixelFormat {
    L8,
    La8,
    Rgb8,
    Rgba8,
    L16,
    La16,
    Rgb16,
    Rgba16,
    Rgb32F,
    Rgba32F,
    Other,
}

/// Whether pixels in `format` have 8-bit channels.
pub open spec fn byte_channels(format: PixelFormat) -> bool {
    format == PixelFormat::L8 || format == PixelFormat::La8 || format == PixelFormat::Rgb8
        || format == PixelFormat::Rgba8
}

/// A decoded image with its width and height in pixels and its pixel format, read from
/// it when it was made. The pixels never change afterwards, so these stay the image's own.
#[derive(Debug)]
pub struct Image {
    pixels: DynamicImage,
    width: u32,
    height: u32,
    format: PixelFormat,
}

/// The pixel format of an image; `DynamicImage::color`, one arm per color type. It
/// depends on the image alone, which the contract cannot name, so nothing is claimed.
#[verifier::external_body]
fn pixel_format(image: &DynamicImage) -> PixelFormat {
    match image.color() {
        ColorType::L8 => PixelFormat::L8,
        ColorType::La8 => PixelFormat::La8,
        ColorType::Rgb8 => PixelFormat::Rgb8,
        ColorType::Rgba8 => PixelFormat::Rgba8,
        ColorType::L16 => PixelFormat::L16,
        ColorType::La16 => PixelFormat::La16,
        ColorType::Rgb16 => PixelFormat::Rgb16,
        ColorType::Rgba16 => PixelFormat::Rgba16,
        ColorType::Rgb32F => PixelFormat::Rgb32F,
        ColorType::Rgba32F => PixelFormat::Rgba32F,
        _ => PixelFormat::Other,
    }
}

impl Image {
    /// The width and height of the image, in pixels.
    pub closed spec fn size(&self) -> (u32, u32) {
        (self.width, self.height)
    }

    /// The pixel format of the image.
    pub closed spec fn pixel_format(&self) -> PixelFormat {
        self.format
    }

    /// The image of `pixels`, with the size and pixel format it has.
    pub fn from_pixels(pixels: DynamicImage) -> (r: Image) {
        let (width, height) = image_dimensions(&pixels);
        let format = pixel_format(&pixels);
        Image { pixels, width, height, format }
    }

    /// The width in pixels.
    pub fn width(&self) -> (w: u32)
        ensures
            w == self.size().0,
    {
        self.width
    }

    /// The height in pixels.
    pub fn height(&self) -> (h: u32)
        ensures
            h == self.size().1,
    {
        self.height
    }

    /// The pixel format.
    pub fn format(&self) -> (f: PixelFormat)
        ensures
            f == self.pixel_format(),
    {
        self.format
    }

    /// The pixels.
    pub fn pixels(&self) -> (r: &DynamicImage) {
        &self.pixels
    }

    /// The pixels, giving up the image.
    pub fn into_pixels(self) -> (r: DynamicImage) {
        self.pixels
    }
}

/// PNG bytes of an image; `DynamicImage::write_to` with `ImageFormat::Png` into a buffer,
/// the error returned as its text. The PNG encoder writes 8-bit channels as they are and
/// refuses only an empty image there, and a buffer in memory takes every write, so a
/// non-empty image with 8-bit channels always encodes. For other formats (16-bit, where
/// a reordering buffer is allocated fallibly, and float, which the PNG encoder refuses)
/// nothing is claimed, nor of the bytes.
#[verifier::external_body]
fn encode_png(image: &Image) -> (r: Result<Vec<u8>, String>)
    ensures
        image.size().0 > 0 && image.size().1 > 0 && byte_channels(image.pixel_format()) ==> r is Ok,
{
    let mut png = Vec::new();
    image.pixels.write_to(&mut std::io::Cursor::new(&mut png), image::ImageFormat::Png).map(|_| png).map_err(
        |err| format!("{err}"),
    )
}

impl ScreenshotPayload {
    /// The payload of a captured image: its size, no path, and its PNG encoding in base64.
    /// Only the PNG encoder can fail, and it does not for a non-empty image with 8-bit
    /// channels.
    pub fn from_image(image: &Image) -> (r: Result<ScreenshotPayload, Error>)
        ensures
            r matches Ok(p) ==> p.meta.path is None && p.meta.width == image.size().0
                && p.meta.height == image.size().1 && exists|png: Seq<u8>| p.base64_png@
                == base64_encoded(png),
            r matches Err(e) ==> e@.0 == ErrorKind::Image,
            image.size().0 > 0 && image.size().1 > 0 && byte_channels(image.pixel_format()) ==> r is Ok,
    {
        let width = image.width();
        let height = image.height();
        let png = match encode_png(image) {
            Ok(b) => b,
            Err(text) => {
                return Err(Error::new(ErrorKind::Image, text));
            },
        };
        Ok(ScreenshotPayload {
            meta: ImageMeta { width, height, path: None },
            base64_png: encode_base64(png.as_slice()),
        })
    }

    /// A copy of the payload.
    pub fn duplicate(&self) -> (r: ScreenshotPayload)
        ensures
            r == *self,
    {
        ScreenshotPayload {
            meta: ImageMeta {
                width: self.meta.width,
                height: self.meta.height,
                path: match &self.meta.path {
                    Some(p) => Some(p.clone()),
                    None => None,
                },
            },
            base64_png: self.base64_png.clone(),
        }
    }
}

/// The whole-image region of a screenshot payload.
pub fn payload_to_full_region(payload: &ScreenshotPayload) -> (b: BBox)
    ensures
        b == (BBox { x: 0, y: 0, width: payload.meta.width, height: payload.meta.height }),
{
    BBox { x: 0, y: 0, width: payload.meta.width, height: payload.meta.height }
}

/// Most base64 characters a payload within `MAX_IMAGE_PAYLOAD_BYTES` can take.
pub fn max_base64_payload_chars() -> (n: usize)
    ensures
        n == (MAX_IMAGE_PAYLOAD_BYTES + 2) / 3 * 4,
{
    (MAX_IMAGE_PAYLOAD_BYTES + 2) / 3 * 4
}

/// A media type an image data URL may declare, compared without ASCII case.
pub open spec fn supported_media_type(m: Seq<char>) -> bool {
    eq_ignore_case(m, "image/png"@) || eq_ignore_case(m, "image/jpeg"@) || eq_ignore_case(
        m,
        "image/webp"@,
    )
}

/// Whether an image data URL may declare media type `media_type`.
pub fn is_supported_image_data_url_media_type(media_type: &str) -> (b: bool)
    ensures
        b == supported_media_type(media_type@),
{
    eq_ignore_case_str(media_type, "image/png") || eq_ignore_case_str(media_type, "image/jpeg")
        || eq_ignore_case_str(media_type, "image/webp")
}

/// The trimmed `;`-separated parts of data-URL metadata.
pub open spec fn metadata_parts(metadata: Seq<char>) -> Seq<Seq<char>> {
    split(metadata, ';').map_values(|p: Seq<char>| trim(p))
}

/// What is wrong with the metadata of an image data URL, or `None`: the media type must be
/// PNG, JPEG or WebP, and a later part must be `base64`.
pub open spec fn metadata_problem(metadata: Seq<char>) -> Option<Seq<char>> {
    let parts = metadata_parts(metadata);
    if !supported_media_type(parts[0]) {
        Some(
            "image data URL media type `"@ + parts[0]
                + "` is not supported. Use image/png, image/jpeg, or image/webp."@,
        )
    } else if !(exists|i: int| 1 <= i < parts.len() && eq_ignore_case(#[trigger] parts[i], "base64"@)) {
        Some("image data URL must be base64 encoded"@)
    } else {
        None
    }
}

/// Checks the metadata part of an image data URL.
pub fn validate_image_data_url_metadata(metadata: &str) -> (r: Result<(), Error>)
    ensures
        match r {
            Ok(()) => metadata_problem(metadata@) is None,
            Err(e) => e@.0 == ErrorKind::Image && metadata_problem(metadata@) == Some(e@.1),
        },
{
    let raw = split_chars(&chars_of(metadata), ';');
    let ghost parts = metadata_parts(metadata@);
    assert(raw@.len() >= 1) by {
        crate::text::lemma_split_nonempty(metadata@, ';');
    }
    let media = string_of_chars(&trim_chars(&raw[0]));
    assert(media@ == parts[0]);
    if !is_supported_image_data_url_media_type(media.as_str()) {
        let mut m = owned("image data URL media type `");
        push_str(&mut m, media.as_str());
        push_str(&mut m, "` is not supported. Use image/png, image/jpeg, or image/webp.");
        return Err(Error::new(ErrorKind::Image, m));
    }
    let mut k: usize = 1;
    while k < raw.len()
        invariant
            1 <= k <= raw@.len(),
            parts == metadata_parts(metadata@),
            parts.len() == raw@.len(),
            supported_media_type(parts[0]),
            forall|i: int| 0 <= i < raw@.len() ==> trim((#[trigger] raw@[i])@) == parts[i],
            forall|i: int| 1 <= i < k ==> !eq_ignore_case(#[trigger] parts[i], "base64"@),
        decreases raw.len() - k,
    {
        let part = string_of_chars(&trim_chars(&raw[k]));
        assert(part@ == parts[k as int]);
        if eq_ignore_case_str(part.as_str(), "base64") {
            assert(eq_ignore_case(parts[k as int], "base64"@));
            return Ok(());
        }
        k += 1;
    }
    Err(Error::from_str(ErrorKind::Image, "image data URL must be base64 encoded"))
}

/// What `image_payload_base64_segment` gives for `payload`: the trimmed payload itself,
/// or for a `data:` URL the trimmed text after its first `,` once the metadata before it
/// passes; otherwise the error message.
pub open spec fn base64_segment(payload: Seq<char>) -> Result<Seq<char>, Seq<char>> {
    let t = trim(payload);
    if t.len() == 0 {
        Err("image payload cannot be empty"@)
    } else if !has_prefix(t, "data:"@) {
        Ok(t)
    } else {
        let rest = t.skip(5);
        let i = find_from(rest, ',', 0);
        if i >= rest.len() {
            Err("image data URL is missing base64 payload"@)
        } else {
            match metadata_problem(rest.take(i)) {
                Some(m) => Err(m),
                None => Ok(trim(rest.skip(i + 1))),
            }
        }
    }
}

/// The base64 text of an image payload, which is either bare base64 or a data URL.
pub fn image_payload_base64_segment(payload: &str) -> (r: Result<String, Error>)
    ensures
        match base64_segment(payload@) {
            Ok(b) => r matches Ok(s) && s@ == b,
            Err(m) => r matches Err(e) && e@ == (ErrorKind::Image, m),
        },
{
    let t = trim_chars(&chars_of(payload));
    if t.len() == 0 {
        return Err(Error::from_str(ErrorKind::Image, "image payload cannot be empty"));
    }
    if !starts_with_chars(&t, "data:") {
        return Ok(string_of_chars(&t));
    }
    proof {
        reveal_strlit("data:");
    }
    let ghost rest = t@.skip(5);
    let i = find_char(&t, ',', 5);
    proof {
        lemma_find_shift(t@, ',', 5);
        lemma_find_from(t@, ',', 5);
    }
    if i >= t.len() {
        return Err(Error::from_str(ErrorKind::Image, "image data URL is missing base64 payload"));
    }
    let metadata = string_from_chars(&t, 5, i);
    assert(metadata@ =~= rest.take(i - 5));
    match validate_image_data_url_metadata(metadata.as_str()) {
        Ok(()) => {},
        Err(e) => {
            return Err(e);
        },
    }
    let tail = trim_chars(&vec_slice(&t, i + 1, t.len()));
    assert(rest.skip(i - 5 + 1) =~= t@.subrange(i + 1, t@.len() as int));
    Ok(string_of_chars(&tail))
}

/// What `image::guess_format` gives for `bytes`: the `Debug` name of the detected
/// format (such as `Png`), or the text of its error.
pub uninterp spec fn guessed_image_format(bytes: Seq<u8>) -> Result<Seq<char>, Seq<char>>;

/// Detects an image format from its magic bytes; `image::guess_format`.
/// The contract names the result and the error's text, and claims nothing else of them.
#[verifier::external_body]
fn guess_image_format(bytes: &[u8]) -> (r: Result<String, String>)
    ensures
        match r {
            Ok(f) => guessed_image_format(bytes@) == Ok::<Seq<char>, Seq<char>>(f@),
            Err(m) => guessed_image_format(bytes@) == Err::<Seq<char>, Seq<char>>(m@),
        },
{
    image::guess_format(bytes).map(|f| format!("{f:?}")).map_err(|err| format!("{err}"))
}

/// The decoded image of `image::load_from_memory`.
#[verifier::external_type_specification]
#[verifier::external_body]
pub struct ExDynamicImage(image::DynamicImage);

/// What `image::load_from_memory` gives for `bytes`: `None` when it decodes, else the
/// text of its error.
pub uninterp spec fn image_load_error(bytes: Seq<u8>) -> Option<Seq<char>>;

/// The width and height of the image `image::load_from_memory` decodes from `bytes`.
pub uninterp spec fn decoded_image_size(bytes: Seq<u8>) -> (u32, u32);

/// Decodes an image in any format the `image` crate detects; `image::load_from_memory`,
/// with the decoded image's size (`GenericImageView::dimensions`) beside it. The contract
/// names whether it fails, the error's text and the size; nothing is claimed of the
/// pixels.
#[verifier::external_body]
fn load_image(bytes: &[u8]) -> (r: Result<(DynamicImage, u32, u32), String>)
    ensures
        match r {
            Ok(i) => image_load_error(bytes@) is None && (i.1, i.2) == decoded_image_size(bytes@),
            Err(m) => image_load_error(bytes@) == Some(m@),
        },
{
    match image::load_from_memory(bytes) {
        Ok(pixels) => {
            let (width, height) = pixels.dimensions();
            Ok((pixels, width, height))
        },
        Err(err) => Err(format!("{err}")),
    }
}

/// Width and height of an image; `GenericImageView::dimensions`. They depend on the
/// image alone, which the contract cannot name, so nothing is claimed of them.
#[verifier::external_body]
fn image_dimensions(image: &DynamicImage) -> (u32, u32) {
    image.dimensions()
}

/// The `width` × `height` part of `image` at (`x`, `y`); `DynamicImage::crop_imm`, which
/// cuts exactly that rectangle when it lies inside the image into an image of the same
/// color type, with its size read back. Nothing is claimed of the pixels.
#[verifier::external_body]
fn crop_pixels(image: &Image, x: u32, y: u32, width: u32, height: u32) -> (r: Image)
    requires
        x + width <= image.size().0,
        y + height <= image.size().1,
    ensures
        r.size() == (width, height),
        r.pixel_format() == image.pixel_format(),
{
    let pixels = image.pixels.crop_imm(x, y, width, height);
    let (width, height) = pixels.dimensions();
    Image { pixels, width, height, format: image.format }
}

/// Whether a detected format, by its `Debug` name, is one the application accepts.
pub open spec fn supported_format_name(name: Seq<char>) -> bool {
    name == "Png"@ || name == "Jpeg"@ || name == "WebP"@
}

/// Whether the detected format named `format_name` is PNG, JPEG or WebP.
pub fn is_supported_image_format(format_name: &str) -> (b: bool)
    ensures
        b == supported_format_name(format_name@),
{
    str_eq(format_name, "Png") || str_eq(format_name, "Jpeg") || str_eq(format_name, "WebP")
}

/// The message for a decoded payload over the byte limit.
pub open spec fn too_many_bytes_message(n: nat) -> Seq<char> {
    "image payload is too large: "@ + decimal(n) + " bytes. Use an image under "@ + decimal(
        MAX_IMAGE_PAYLOAD_BYTES as nat,
    ) + " bytes."@
}

/// The message for base64 text longer than any payload under the byte limit.
pub open spec fn too_long_message() -> Seq<char> {
    "image payload is too large. Use an image under "@ + decimal(MAX_IMAGE_PAYLOAD_BYTES as nat)
        + " bytes."@
}

/// The bytes an image payload decodes to, or the message it is refused with: the base64
/// segment must be non-empty and short enough, decode, and give between one byte and
/// `MAX_IMAGE_PAYLOAD_BYTES` bytes in a detected PNG, JPEG or WebP format.
pub open spec fn payload_bytes(payload: Seq<char>) -> Result<Seq<u8>, Seq<char>> {
    match base64_segment(payload) {
        Err(m) => Err(m),
        Ok(b) => if b.len() == 0 {
            Err("image payload cannot be empty"@)
        } else if (encode_utf8(b).len() as usize) > (MAX_IMAGE_PAYLOAD_BYTES + 2) / 3 * 4 {
            Err(too_long_message())
        } else {
            match base64_decoded(b) {
                Err(m) => Err("image payload is not valid base64: "@ + m),
                Ok(bytes) => if bytes.len() == 0 {
                    Err("image payload cannot be empty"@)
                } else if bytes.len() > MAX_IMAGE_PAYLOAD_BYTES {
                    Err(too_many_bytes_message(bytes.len()))
                } else {
                    match guessed_image_format(bytes) {
                        Err(m) => Err("image payload format could not be detected: "@ + m),
                        Ok(f) => if supported_format_name(f) {
                            Ok(bytes)
                        } else {
                            Err(
                                "unsupported image format: "@ + f
                                    + ". Use PNG, JPEG, or WebP."@,
                            )
                        },
                    }
                },
            }
        },
    }
}

/// The image bytes of a payload, checked for size and format before decoding.
pub fn decode_image_payload(payload: &str) -> (r: Result<Vec<u8>, Error>)
    ensures
        match payload_bytes(payload@) {
            Ok(b) => r matches Ok(v) && v@ == b,
            Err(m) => r matches Err(e) && e@ == (ErrorKind::Image, m),
        },
{
    let segment = match image_payload_base64_segment(payload) {
        Ok(s) => s,
        Err(e) => {
            return Err(e);
        },
    };
    if segment.as_str().is_empty() {
        return Err(Error::from_str(ErrorKind::Image, "image payload cannot be empty"));
    }
    if segment.as_str().len() > max_base64_payload_chars() {
        let mut m = owned("image payload is too large. Use an image under ");
        push_decimal(&mut m, MAX_IMAGE_PAYLOAD_BYTES as u64);
        push_str(&mut m, " bytes.");
        return Err(Error::new(ErrorKind::Image, m));
    }
    let bytes = match decode_base64(segment.as_str()) {
        Ok(b) => b,
        Err(text) => {
            let mut m = owned("image payload is not valid base64: ");
            push_str(&mut m, text.as_str());
            return Err(Error::new(ErrorKind::Image, m));
        },
    };
    if bytes.len() == 0 {
        return Err(Error::from_str(ErrorKind::Image, "image payload cannot be empty"));
    }
    if bytes.len() > MAX_IMAGE_PAYLOAD_BYTES {
        let mut m = owned("image payload is too large: ");
        push_decimal(&mut m, bytes.len() as u64);
        push_str(&mut m, " bytes. Use an image under ");
        push_decimal(&mut m, MAX_IMAGE_PAYLOAD_BYTES as u64);
        push_str(&mut m, " bytes.");
        return Err(Error::new(ErrorKind::Image, m));
    }
    match guess_image_format(bytes.as_slice()) {
        Err(text) => {
            let mut m = owned("image payload format could not be detected: ");
            push_str(&mut m, text.as_str());
            Err(Error::new(ErrorKind::Image, m))
        },
        Ok(name) => {
            if is_supported_image_format(name.as_str()) {
                Ok(bytes)
            } else {
                let mut m = owned("unsupported image format: ");
                push_str(&mut m, name.as_str());
                push_str(&mut m, ". Use PNG, JPEG, or WebP.");
                Err(Error::new(ErrorKind::Image, m))
            }
        },
    }
}

/// What is wrong with a decoded image of `width` × `height` pixels, or `None`.
pub open spec fn dimensions_problem(width: u32, height: u32) -> Option<Seq<char>> {
    if width == 0 || height == 0 {
        Some("image cannot be empty"@)
    } else if width * height > MAX_IMAGE_PIXELS {
        Some(
            "image is too large: "@ + decimal(width as nat) + "x"@ + decimal(height as nat)
                + " pixels. Crop or resize below "@ + decimal(MAX_IMAGE_PIXELS as nat) + " pixels."@,
        )
    } else {
        None
    }
}

/// Rejects an empty image or one over `MAX_IMAGE_PIXELS` pixels.
pub fn validate_decoded_image_dimensions(width: u32, height: u32) -> (r: Result<(), Error>)
    ensures
        match dimensions_problem(width, height) {
            None => r is Ok,
            Some(m) => r matches Err(e) && e@ == (ErrorKind::Image, m),
        },
{
    if width == 0 || height == 0 {
        return Err(Error::from_str(ErrorKind::Image, "image cannot be empty"));
    }
    assert((width as u64) * (height as u64) <= u32::MAX * u32::MAX) by (nonlinear_arith)
        requires
            width <= u32::MAX,
            height <= u32::MAX,
    ;
    let pixels = (width as u64) * (height as u64);
    if pixels > MAX_IMAGE_PIXELS {
        let mut m = owned("image is too large: ");
        push_decimal(&mut m, width as u64);
        push_str(&mut m, "x");
        push_decimal(&mut m, height as u64);
        push_str(&mut m, " pixels. Crop or resize below ");
        push_decimal(&mut m, MAX_IMAGE_PIXELS);
        push_str(&mut m, " pixels.");
        return Err(Error::new(ErrorKind::Image, m));
    }
    Ok(())
}

/// What decoding an image payload gives: the payload's bytes (`payload_bytes`), then the
/// decoder's verdict on them, then the size check of the decoded image; `None` when an
/// image comes out.
pub open spec fn image_payload_problem(payload: Seq<char>) -> Option<Seq<char>> {
    match payload_bytes(payload) {
        Err(m) => Some(m),
        Ok(b) => match image_load_error(b) {
            Some(m) => Some(m),
            None => dimensions_problem(decoded_image_size(b).0, decoded_image_size(b).1),
        },
    }
}

/// Decodes an image payload: its bytes must pass `payload_bytes`, decode, and give a
/// non-empty image of at most `MAX_IMAGE_PIXELS` pixels; the image decoded has the size
/// `decoded_image_size` of those bytes.
pub fn base64_image_to_dynamic_image(base64_image: &str) -> (r: Result<Image, Error>)
    ensures
        match image_payload_problem(base64_image@) {
            Some(m) => r matches Err(e) && e@ == (ErrorKind::Image, m),
            None => r is Ok,
        },
        r matches Ok(i) ==> (payload_bytes(base64_image@) matches Ok(b) && i.size()
            == decoded_image_size(b)),
        r matches Ok(i) ==> 0 < i.size().0 && 0 < i.size().1 && i.size().0 * i.size().1
            <= MAX_IMAGE_PIXELS,
{
    let bytes = match decode_image_payload(base64_image) {
        Ok(b) => b,
        Err(e) => {
            return Err(e);
        },
    };
    let image = match load_image(bytes.as_slice()) {
        Ok((pixels, width, height)) => {
            let format = pixel_format(&pixels);
            Image { pixels, width, height, format }
        },
        Err(text) => {
            return Err(Error::new(ErrorKind::Image, text));
        },
    };
    match validate_decoded_image_dimensions(image.width(), image.height()) {
        Ok(()) => Ok(image),
        Err(e) => Err(e),
    }
}

/// The same decoding for a PNG screenshot payload.
pub fn png_payload_to_image(base64_png: &str) -> (r: Result<Image, Error>)
    ensures
        match image_payload_problem(base64_png@) {
            Some(m) => r matches Err(e) && e@ == (ErrorKind::Image, m),
            None => r is Ok,
        },
        r matches Ok(i) ==> (payload_bytes(base64_png@) matches Ok(b) && i.size()
            == decoded_image_size(b)),
        r matches Ok(i) ==> 0 < i.size().0 && 0 < i.size().1 && i.size().0 * i.size().1
            <= MAX_IMAGE_PIXELS,
{
    base64_image_to_dynamic_image(base64_png)
}

/// The part of a `image_width` × `image_height` screenshot that a capture of `bbox`
/// takes, as a box: it must be non-empty and start inside the screenshot, and is cut at
/// the screenshot's edges.
pub open spec fn crop_region(bbox: BBox, image_width: u32, image_height: u32) -> Result<BBox, Seq<char>> {
    if bbox.width == 0 || bbox.height == 0 {
        Err("capture region cannot be empty"@)
    } else if bbox.x >= image_width || bbox.y >= image_height {
        Err("capture region is outside the screenshot"@)
    } else {
        let w = if bbox.width < image_width - bbox.x { bbox.width } else { (image_width - bbox.x) as u32 };
        let h = if bbox.height < image_height - bbox.y { bbox.height } else { (image_height - bbox.y) as u32 };
        Ok(BBox { x: bbox.x, y: bbox.y, width: w, height: h })
    }
}

/// The crop box of a capture region on a `image_width` × `image_height` screenshot.
pub fn crop_bounds(bbox: BBox, image_width: u32, image_height: u32) -> (r: Result<BBox, Error>)
    ensures
        match crop_region(bbox, image_width, image_height) {
            Ok(b) => r matches Ok(c) && c == b,
            Err(m) => r matches Err(e) && e@ == (ErrorKind::Image, m),
        },
        r matches Ok(c) ==> c.width > 0 && c.height > 0 && c.x + c.width <= image_width && c.y
            + c.height <= image_height,
{
    if bbox.width == 0 || bbox.height == 0 {
        return Err(Error::from_str(ErrorKind::Image, "capture region cannot be empty"));
    }
    if bbox.x >= image_width || bbox.y >= image_height {
        return Err(Error::from_str(ErrorKind::Image, "capture region is outside the screenshot"));
    }
    let room_x = image_width - bbox.x;
    let room_y = image_height - bbox.y;
    let width = if bbox.width < room_x { bbox.width } else { room_x };
    let height = if bbox.height < room_y { bbox.height } else { room_y };
    Ok(BBox { x: bbox.x, y: bbox.y, width, height })
}

/// Crops a capture region out of a screenshot: the crop is the `crop_region` box.
pub fn crop_image(image: &Image, bbox: BBox) -> (r: Result<Image, Error>)
    ensures
        match crop_region(bbox, image.size().0, image.size().1) {
            Ok(c) => r matches Ok(i) && i.size() == (c.width, c.height),
            Err(m) => r matches Err(e) && e@ == (ErrorKind::Image, m),
        },
        r matches Ok(i) ==> i.pixel_format() == image.pixel_format(),
{
    let c = match crop_bounds(bbox, image.width(), image.height()) {
        Ok(c) => c,
        Err(e) => {
            return Err(e);
        },
    };
    Ok(crop_pixels(image, c.x, c.y, c.width, c.height))
}

/// The image turned half a turn; `DynamicImage::rotate180`, which keeps the width, the
/// height and the color type. Nothing is claimed of the pixels.
#[verifier::external_body]
fn rotate_half_turn(image: &Image) -> (r: Image)
    ensures
        r.size() == image.size(),
        r.pixel_format() == image.pixel_format(),
{
    Image { pixels: image.pixels.rotate180(), width: image.width, height: image.height, format: image.format }
}

/// A text region as the classifier saw it: turned half a turn when labeled `180`, else
/// unchanged; its size stays.
pub fn rotate_text_region_for_classification(image: Image, label: &str) -> (r: Image)
    ensures
        r.size() == image.size(),
        r.pixel_format() == image.pixel_format(),
        label@ != "180"@ ==> r == image,
{
    if str_eq(label, "180") {
        rotate_half_turn(&image)
    } else {
        image
    }
}

/// What cutting `bbox` out of a `width` × `height` image gives: an empty image is an
/// error, a box that leaves nothing inside the image is an error, and any other box gives
/// the part of it inside the image.
pub open spec fn text_crop_outcome(bbox: BBox, width: u32, height: u32, r: Result<Image, Error>) -> bool {
    if width == 0 || height == 0 {
        r matches Err(e) && e@ == (ErrorKind::Ocr, "image cannot be empty"@)
    } else {
        match crate::ocr::clamped(bbox, width, height) {
            Some(c) => r matches Ok(i) && i.size() == (c.2, c.3),
            None => r matches Err(e) && e@ == (ErrorKind::Ocr, "text region is outside image bounds"@),
        }
    }
}

/// The part of an image a detected text box covers, cut at the image's edges.
pub fn crop_text_region(image: &Image, bbox: BBox) -> (r: Result<Image, Error>)
    ensures
        text_crop_outcome(bbox, image.size().0, image.size().1, r),
        r matches Ok(i) ==> i.pixel_format() == image.pixel_format(),
{
    let (x, y, w, h) = match crate::ocr::crop_text_region_bounds(bbox, image.width(), image.height()) {
        Ok(c) => c,
        Err(e) => {
            return Err(e);
        },
    };
    Ok(crop_pixels(image, x, y, w, h))
}

/// The text region recognition reads: the detected box grown by the recognition
/// padding, then cut at the image's edges.
pub fn crop_text_region_for_recognition(image: &Image, bbox: BBox) -> (r: Result<Image, Error>)
    ensures
        text_crop_outcome(crate::ocr::padded(bbox), image.size().0, image.size().1, r),
        r matches Ok(i) ==> i.pixel_format() == image.pixel_format(),
{
    crop_text_region(image, crate::ocr::padded_bbox_for_recognition(bbox))
}

} // verus!
