use snaptext::detection::{detection_components, keep_text_sized, MapComponent};
use snaptext::ocr::{
    aggregate_text, crop_text_region_bounds, macos_ocr_backend_from_value,
    ocr_channel_order_from_value, padded_bbox_for_recognition, parse_recognition_dict,
    resized_dimensions, round_up_to_multiple, sort_text_lines_for_reading, BBox, MacosOcrBackend,
    ModelFilePresence, OcrChannelOrder, OcrEngine, OcrModelManifest, TextLine, CLS_MODEL_FILE,
    DET_MODEL_FILE, REC_DICT_FILE, REC_MODEL_FILE,
};
use image::{DynamicImage, GenericImageView, ImageBuffer, Rgba};
use snaptext::payload::{
    crop_text_region, crop_text_region_for_recognition, rotate_text_region_for_classification,
    Image,
};
use snaptext::recognition::{classification_label, decode_ctc, validate_recognition_shape};

fn line(text: &str, x: u32, y: u32) -> TextLine {
    TextLine {
        text: text.to_owned(),
        bbox: BBox {
            x,
            y,
            width: 10,
            height: 10,
        },
        confidence_bits: 1.0f32.to_bits(),
    }
}

fn bbox(x: u32, y: u32, width: u32, height: u32) -> BBox {
    BBox {
        x,
        y,
        width,
        height,
    }
}

fn mask_with_rects(width: usize, height: usize, rects: &[(usize, usize, usize, usize)]) -> Vec<bool> {
    let mut mask = vec![false; width * height];
    for &(x, y, w, h) in rects {
        for row in y..y + h {
            for col in x..x + w {
                mask[row * width + col] = true;
            }
        }
    }
    mask
}

fn map_box(component: &MapComponent) -> (u32, u32, u32, u32) {
    (component.min_x, component.min_y, component.max_x, component.max_y)
}

const ALL_PRESENT: ModelFilePresence = ModelFilePresence {
    det: true,
    cls: true,
    rec: true,
    rec_dict: true,
};

#[test]
fn sorts_text_lines_top_to_bottom_left_to_right() {
    let mut lines = vec![line("b", 50, 10), line("c", 0, 20), line("a", 0, 10)];

    sort_text_lines_for_reading(&mut lines);

    let texts = lines.into_iter().map(|line| line.text).collect::<Vec<_>>();
    assert_eq!(texts, ["a", "b", "c"]);
}

#[test]
fn aggregate_text_sorts_and_joins_lines() {
    let lines = vec![line("world", 0, 20), line("hello", 0, 10)];

    assert_eq!(aggregate_text(&lines), "hello\nworld");
}

#[test]
fn aggregate_text_skips_blank_lines() {
    let lines = vec![line("b", 0, 30), line(" \t", 0, 20), line("a", 0, 10)];

    assert_eq!(aggregate_text(&lines), "a\nb");
}

fn white_image(width: u32, height: u32) -> Image {
    Image::from_pixels(DynamicImage::ImageRgba8(ImageBuffer::from_pixel(
        width,
        height,
        Rgba([255, 255, 255, 255]),
    )))
}

#[test]
fn crop_text_region_uses_bbox_dimensions() {
    let image = white_image(100, 80);

    let crop = crop_text_region(&image, bbox(10, 12, 30, 20)).expect("crop");

    assert_eq!(crop.width(), 30);
    assert_eq!(crop.height(), 20);
    assert_eq!(crop.pixels().dimensions(), (30, 20));
}

#[test]
fn crop_text_region_clamps_to_image_bounds() {
    let image = white_image(100, 80);

    let crop = crop_text_region(&image, bbox(90, 70, 40, 30)).expect("crop");

    assert_eq!(crop.width(), 10);
    assert_eq!(crop.height(), 10);
}

#[test]
fn crop_text_region_rejects_out_of_bounds_boxes() {
    let image = white_image(100, 80);

    let err = crop_text_region(&image, bbox(120, 90, 5, 5)).expect_err("out of bounds");

    assert!(err.message().contains("text region is outside image bounds"));
}

#[test]
fn crop_text_region_bounds_cut_at_the_edges() {
    assert_eq!(crop_text_region_bounds(bbox(90, 70, 40, 30), 100, 80).expect("crop"), (90, 70, 10, 10));
    assert_eq!(crop_text_region_bounds(bbox(10, 20, 30, 40), 100, 80).expect("crop"), (10, 20, 30, 40));
    assert!(crop_text_region_bounds(bbox(1, 1, 1, 1), 0, 80).is_err());
}

#[test]
fn crop_for_recognition_grows_the_box_before_cutting() {
    let image = white_image(100, 80);

    let crop = crop_text_region_for_recognition(&image, bbox(2, 3, 20, 10)).expect("crop");

    assert_eq!(crop.width(), 24);
    assert_eq!(crop.height(), 17);
    assert_eq!(crop.pixels().dimensions(), (24, 17));
}

#[test]
fn classification_rotation_applies_for_180_label() {
    let image = Image::from_pixels(DynamicImage::ImageRgba8(ImageBuffer::from_pixel(
        3,
        2,
        Rgba([10, 20, 30, 255]),
    )));

    let rotated = rotate_text_region_for_classification(image, "180");

    assert_eq!(rotated.width(), 3);
    assert_eq!(rotated.height(), 2);
    assert_eq!(rotated.pixels().dimensions(), (3, 2));
}

#[test]
fn classification_rotation_turns_pixels_only_for_180_label() {
    let mut buffer = ImageBuffer::from_pixel(2, 1, Rgba([0, 0, 0, 255]));
    buffer.put_pixel(0, 0, Rgba([255, 0, 0, 255]));
    let image = DynamicImage::ImageRgba8(buffer);

    let kept = rotate_text_region_for_classification(Image::from_pixels(image.clone()), "0");
    let turned = rotate_text_region_for_classification(Image::from_pixels(image), "180");

    assert_eq!(kept.into_pixels().to_rgba8().get_pixel(0, 0), &Rgba([255, 0, 0, 255]));
    assert_eq!(turned.into_pixels().to_rgba8().get_pixel(1, 0), &Rgba([255, 0, 0, 255]));
}

#[test]
fn padded_bbox_for_recognition_adds_context_without_underflow() {
    let bbox = padded_bbox_for_recognition(BBox {
        x: 2,
        y: 3,
        width: 20,
        height: 10,
    });

    assert_eq!(
        bbox,
        BBox {
            x: 0,
            y: 0,
            width: 24,
            height: 17,
        }
    );
}

#[test]
fn padded_bbox_keeps_the_detected_box_inside() {
    let original = bbox(100, 200, 40, 20);
    let padded = padded_bbox_for_recognition(original);

    assert_eq!(padded, bbox(96, 193, 48, 34));
    assert!(padded.x <= original.x && padded.y <= original.y);
    assert!(padded.x + padded.width >= original.x + original.width);
    assert!(padded.y + padded.height >= original.y + original.height);
}

#[test]
fn channel_order_env_defaults_to_bgr_unless_rgb_is_explicit() {
    assert_eq!(ocr_channel_order_from_value(None), OcrChannelOrder::Bgr);
    assert_eq!(
        ocr_channel_order_from_value(Some("bgr")),
        OcrChannelOrder::Bgr
    );
    assert_eq!(
        ocr_channel_order_from_value(Some("rgb")),
        OcrChannelOrder::Rgb
    );
}

#[test]
fn macos_ocr_backend_defaults_to_vision_unless_paddle_is_explicit() {
    assert_eq!(macos_ocr_backend_from_value(None), MacosOcrBackend::Vision);
    assert_eq!(
        macos_ocr_backend_from_value(Some("")),
        MacosOcrBackend::Vision
    );
    assert_eq!(
        macos_ocr_backend_from_value(Some("vision")),
        MacosOcrBackend::Vision
    );
    assert_eq!(
        macos_ocr_backend_from_value(Some("paddle")),
        MacosOcrBackend::Paddle
    );
    assert_eq!(
        macos_ocr_backend_from_value(Some("ONNX")),
        MacosOcrBackend::Paddle
    );
    assert_eq!(
        macos_ocr_backend_from_value(Some(" ppocr ")),
        MacosOcrBackend::Paddle
    );
}

#[test]
fn manifest_reports_missing_files() {
    let manifest = OcrModelManifest::from_dir("/nonexistent/models");
    let none_present = ModelFilePresence {
        det: false,
        cls: false,
        rec: false,
        rec_dict: false,
    };

    let err = manifest.validate(&none_present).expect_err("missing files");

    assert!(err.message().contains(DET_MODEL_FILE));
    assert!(err.message().contains(REC_DICT_FILE));
    assert_eq!(
        err.message(),
        "OCR failed: missing OCR model files: det.onnx, cls.onnx, rec.onnx, rec_dict.txt"
    );
}

#[test]
fn manifest_loads_recognition_dictionary() {
    assert_eq!(
        parse_recognition_dict("a\n\n b \n\u{3000}\n").expect("dictionary"),
        ["a".to_owned(), " b ".to_owned(), "\u{3000}".to_owned()]
    );
}

#[test]
fn validate_assets_rejects_empty_recognition_dictionary() {
    let engine = OcrEngine::new("/opt/snaptext/models".to_owned()).expect("engine");

    let err = engine
        .validate_assets(&ALL_PRESENT, "\n\n")
        .expect_err("empty dict");

    assert!(err.message().contains("recognition dictionary is empty"));
}

#[test]
fn manifest_joins_model_files_to_the_directory() {
    let manifest = OcrModelManifest::from_dir("/opt/models");

    assert_eq!(manifest.det, "/opt/models/det.onnx");
    assert_eq!(manifest.cls, format!("/opt/models/{CLS_MODEL_FILE}"));
    assert_eq!(manifest.rec, format!("/opt/models/{REC_MODEL_FILE}"));
    assert_eq!(manifest.rec_dict, "/opt/models/rec_dict.txt");
}

#[test]
fn engine_rejects_empty_model_dir() {
    let err = OcrEngine::new(String::new()).expect_err("empty dir");

    assert_eq!(err.message(), "OCR failed: model directory cannot be empty");
}

#[test]
fn validate_assets_counts_dictionary_entries() {
    let engine = OcrEngine::new("/opt/models".to_owned()).expect("engine");

    let assets = engine
        .validate_assets(&ALL_PRESENT, "a\r\nb\n\nc")
        .expect("assets");

    assert_eq!(assets.recognition_dict_len, 3);
}

#[test]
fn detection_input_sides_round_up_to_multiple_of_32() {
    assert_eq!(round_up_to_multiple(100, 32), 128);
    assert_eq!(round_up_to_multiple(128, 32), 128);
    assert_eq!(resized_dimensions(3200, 1600), (1600, 800));
    assert_eq!(resized_dimensions(800, 600), (800, 600));
}

#[test]
fn postprocess_detection_map_rejects_size_mismatch() {
    let err = detection_components(&vec![false; 3], 10, 10).expect_err("size mismatch");

    assert!(err.message().contains("detection map size mismatch"));
    assert_eq!(
        err.message(),
        "OCR failed: detection map size mismatch: expected 100, got 3"
    );
}

#[test]
fn detection_components_are_found_in_scan_order() {
    let mask = mask_with_rects(20, 20, &[(10, 8, 4, 4), (2, 2, 3, 3)]);

    let components = detection_components(&mask, 20, 20).expect("components");

    assert_eq!(components.len(), 2);
    assert_eq!(map_box(&components[0]), (2, 2, 4, 4));
    assert_eq!(map_box(&components[1]), (10, 8, 13, 11));
    assert_eq!(components[0].cells.len(), 9);
    assert_eq!(components[1].cells.len(), 16);
    assert_eq!(components[0].cells[0], (2, 2));
}

#[test]
fn detection_components_drop_tiny_regions() {
    let mask = mask_with_rects(10, 10, &[(1, 1, 2, 2), (5, 5, 3, 3)]);

    let components = keep_text_sized(detection_components(&mask, 10, 10).expect("components"));

    assert_eq!(components.len(), 1);
    assert_eq!(map_box(&components[0]), (5, 5, 7, 7));
}

#[test]
fn detection_components_follow_edges_not_corners() {
    let mut mask = vec![false; 16];
    mask[0] = true;
    mask[5] = true;
    mask[6] = true;
    mask[10] = true;

    let components = detection_components(&mask, 4, 4).expect("components");

    assert_eq!(components.len(), 2);
    assert_eq!(components[0].cells, vec![(0, 0)]);
    assert_eq!(map_box(&components[1]), (1, 1, 2, 2));
    assert_eq!(components[1].cells.len(), 3);
}

#[test]
fn detection_map_cannot_be_empty() {
    let err = detection_components(&Vec::new(), 0, 5).expect_err("empty map");

    assert_eq!(err.message(), "OCR failed: detection map cannot be empty");
}

#[test]
fn ctc_decoding_collapses_blanks_and_duplicates() {
    let dictionary = vec!["a".to_owned(), "b".to_owned(), "c".to_owned()];
    let classes = vec![1, 1, 0, 2, 2, 3];

    let decoded = decode_ctc(&classes, &dictionary);

    assert_eq!(decoded.text, "abc");
    assert_eq!(decoded.steps, vec![0, 3, 5]);
}

#[test]
fn ctc_decoding_repeats_a_class_after_a_blank() {
    let dictionary = vec!["a".to_owned(), "b".to_owned()];

    let decoded = decode_ctc(&vec![1, 0, 1, 5, 2], &dictionary);

    assert_eq!(decoded.text, "aab");
    assert_eq!(decoded.steps, vec![0, 2, 4]);
}

#[test]
fn decode_recognition_ctc_rejects_dimension_mismatch() {
    let err = validate_recognition_shape(2, 2, 2, 1).expect_err("dimension mismatch");

    assert!(err.message().contains("recognition output size mismatch"));
}

#[test]
fn decode_recognition_ctc_rejects_dictionary_too_large_for_classes() {
    let err = validate_recognition_shape(2, 1, 2, 2).expect_err("dictionary too large");

    assert!(err.message().contains("recognition dictionary has"));
    assert_eq!(
        err.message(),
        "OCR failed: recognition dictionary has 2 entries but output only has 2 classes"
    );
}

#[test]
fn classification_labels_cover_two_orientations() {
    assert_eq!(classification_label(2, 0).expect("upright"), "0");
    assert_eq!(classification_label(2, 1).expect("upside down"), "180");
    assert_eq!(
        classification_label(3, 2).expect_err("unknown").message(),
        "OCR failed: unknown classification label index 2"
    );
    assert_eq!(
        classification_label(0, 0).expect_err("empty").message(),
        "OCR failed: classification output dimensions cannot be empty"
    );
}

#[test]
fn crop_text_region_rejects_boxes_without_area() {
    let image = white_image(100, 80);

    let err = crop_text_region(&image, bbox(10, 10, 0, 5)).expect_err("no area");

    assert!(err.message().contains("text region is outside image bounds"));
}
