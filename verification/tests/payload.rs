use std::io::Cursor;

use base64::engine::general_purpose;
use base64::Engine;
use image::{DynamicImage, GenericImageView, ImageBuffer, ImageFormat, Rgba};
use snaptext::ocr::BBox;
use snaptext::payload::{
    base64_image_to_dynamic_image, crop_bounds, crop_image, decode_image_payload,
    image_payload_base64_segment, is_supported_image_data_url_media_type,
    is_supported_image_format, max_base64_payload_chars, payload_to_full_region,
    png_payload_to_image, validate_decoded_image_dimensions, validate_image_data_url_metadata,
    Image, PixelFormat, ScreenshotPayload, MAX_IMAGE_PAYLOAD_BYTES,
};

fn png_bytes(width: u32, height: u32) -> Vec<u8> {
    let image = DynamicImage::ImageRgba8(ImageBuffer::from_pixel(width, height, Rgba([1, 2, 3, 255])));
    let mut bytes = Vec::new();
    image
        .write_to(&mut Cursor::new(&mut bytes), ImageFormat::Png)
        .expect("png");
    bytes
}

fn png_base64(width: u32, height: u32) -> String {
    general_purpose::STANDARD.encode(png_bytes(width, height))
}

#[test]
fn data_url_metadata_needs_a_supported_type_and_base64() {
    validate_image_data_url_metadata("image/png;base64").expect("png");
    validate_image_data_url_metadata(" IMAGE/JPEG ; charset=x ; Base64 ").expect("jpeg");

    assert_eq!(
        validate_image_data_url_metadata("image/gif;base64")
            .expect_err("gif")
            .message(),
        "image failed: image data URL media type `image/gif` is not supported. Use image/png, image/jpeg, or image/webp."
    );
    assert_eq!(
        validate_image_data_url_metadata("image/webp")
            .expect_err("no base64")
            .message(),
        "image failed: image data URL must be base64 encoded"
    );
    assert!(is_supported_image_data_url_media_type("Image/WebP"));
    assert!(!is_supported_image_data_url_media_type("image/bmp"));
}

#[test]
fn payload_segment_is_bare_base64_or_the_data_url_tail() {
    assert_eq!(image_payload_base64_segment("  QUJD \n").expect("bare"), "QUJD");
    assert_eq!(
        image_payload_base64_segment("data:image/png;base64, QUJD ").expect("data url"),
        "QUJD"
    );
    assert!(image_payload_base64_segment("   ")
        .expect_err("empty")
        .message()
        .contains("image payload cannot be empty"));
    assert!(image_payload_base64_segment("data:image/png;base64")
        .expect_err("no comma")
        .message()
        .contains("image data URL is missing base64 payload"));
}

#[test]
fn decoding_a_png_payload_gives_its_bytes() {
    let bytes = png_bytes(4, 3);
    let payload = format!("data:image/png;base64,{}", general_purpose::STANDARD.encode(&bytes));

    assert_eq!(decode_image_payload(&payload).expect("bytes"), bytes);
}

#[test]
fn decoding_rejects_bad_base64_and_unknown_formats() {
    let bad = decode_image_payload("not base64!!").expect_err("bad base64");
    let text = decode_image_payload(&general_purpose::STANDARD.encode(b"plain text here"))
        .expect_err("not an image");

    assert!(bad.message().contains("image payload is not valid base64"));
    assert!(text
        .message()
        .contains("image payload format could not be detected"));
}

#[test]
fn payload_size_limits_follow_the_byte_limit() {
    assert_eq!(max_base64_payload_chars(), (MAX_IMAGE_PAYLOAD_BYTES + 2) / 3 * 4);
    let too_long = "A".repeat(max_base64_payload_chars() + 4);
    assert!(decode_image_payload(&too_long)
        .expect_err("too long")
        .message()
        .contains("image payload is too large. Use an image under 26214400 bytes."));
}

#[test]
fn supported_formats_are_png_jpeg_and_webp() {
    assert!(is_supported_image_format("Png"));
    assert!(is_supported_image_format("Jpeg"));
    assert!(is_supported_image_format("WebP"));
    assert!(!is_supported_image_format("Gif"));
}

#[test]
fn decoded_image_dimensions_are_bounded() {
    validate_decoded_image_dimensions(4000, 6000).expect("24 megapixels");
    assert_eq!(
        validate_decoded_image_dimensions(6000, 5000)
            .expect_err("too large")
            .message(),
        "image failed: image is too large: 6000x5000 pixels. Crop or resize below 24000000 pixels."
    );
    assert!(validate_decoded_image_dimensions(0, 5)
        .expect_err("empty")
        .message()
        .contains("image cannot be empty"));
}

#[test]
fn base64_payload_decodes_to_an_image() {
    let image = base64_image_to_dynamic_image(&png_base64(5, 7)).expect("image");

    assert_eq!((image.width(), image.height()), (5, 7));
    assert_eq!(image.pixels().dimensions(), (5, 7));
}

#[test]
fn screenshot_payload_round_trips_through_png() {
    let pixels = DynamicImage::ImageRgba8(ImageBuffer::from_pixel(6, 4, Rgba([9, 8, 7, 255])));
    let image = Image::from_pixels(pixels.clone());
    let payload = ScreenshotPayload::from_image(&image).expect("payload");
    let decoded = png_payload_to_image(&payload.base64_png).expect("decoded");

    assert_eq!(payload.meta.width, 6);
    assert_eq!(payload.meta.height, 4);
    assert!(payload.meta.path.is_none());
    assert_eq!((decoded.width(), decoded.height()), (6, 4));
    assert_eq!(decoded.into_pixels().to_rgba8(), pixels.to_rgba8());
    assert_eq!(
        payload_to_full_region(&payload),
        BBox {
            x: 0,
            y: 0,
            width: 6,
            height: 4
        }
    );
}

#[test]
fn capture_regions_are_cut_at_the_screenshot_edges() {
    let image = Image::from_pixels(DynamicImage::ImageRgba8(ImageBuffer::from_pixel(
        100,
        80,
        Rgba([0, 0, 0, 255]),
    )));
    let cropped = crop_image(
        &image,
        BBox {
            x: 90,
            y: 60,
            width: 50,
            height: 50,
        },
    )
    .expect("crop");

    assert_eq!((cropped.width(), cropped.height()), (10, 20));
    assert_eq!(cropped.pixels().dimensions(), (10, 20));
    assert_eq!(
        crop_bounds(
            BBox {
                x: 10,
                y: 10,
                width: 5,
                height: 5
            },
            100,
            80
        )
        .expect("bounds"),
        BBox {
            x: 10,
            y: 10,
            width: 5,
            height: 5
        }
    );
    assert!(crop_image(
        &image,
        BBox {
            x: 100,
            y: 0,
            width: 5,
            height: 5
        }
    )
    .expect_err("outside")
    .message()
    .contains("capture region is outside the screenshot"));
    assert!(crop_image(
        &image,
        BBox {
            x: 0,
            y: 0,
            width: 0,
            height: 5
        }
    )
    .expect_err("empty")
    .message()
    .contains("capture region cannot be empty"));
}

#[test]
fn only_non_empty_byte_channel_images_are_promised_a_payload() {
    let rgba = Image::from_pixels(DynamicImage::new_rgba8(3, 2));
    assert_eq!(rgba.format(), PixelFormat::Rgba8);
    assert!(ScreenshotPayload::from_image(&rgba).is_ok());

    let float = Image::from_pixels(DynamicImage::new_rgb32f(3, 2));
    assert_eq!(float.format(), PixelFormat::Rgb32F);
    assert!(ScreenshotPayload::from_image(&float).is_err());

    let empty = Image::from_pixels(DynamicImage::new_rgba8(0, 2));
    assert_eq!((empty.width(), empty.height()), (0, 2));
    assert!(ScreenshotPayload::from_image(&empty).is_err());
}
