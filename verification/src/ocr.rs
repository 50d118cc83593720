//! OCR bookkeeping: model files and their dictionary, text-box geometry, reading
//! order of recognized lines, and the text a set of lines reads as.
use vstd::prelude::*;

use crate::error::{Error, ErrorKind};
use crate::text::{
    chars_of, eq_ignore_case, eq_ignore_case_str, is_blank, is_blank_str, join, owned, push_str,
    split, split_chars, trim, trim_str,
};

verus! {

/// File name of the text detection model.
pub const DET_MODEL_FILE: &'static str = "det.onnx";

/// File name of the orientation classification model.
pub const CLS_MODEL_FILE: &'static str = "cls.onnx";

/// File name of the text recognition model.
pub const REC_MODEL_FILE: &'static str = "rec.onnx";

/// File name of the recognition dictionary.
pub const REC_DICT_FILE: &'static str = "rec_dict.txt";

/// Longest image side fed to detection; larger images are scaled down.
pub const MAX_PREPROCESS_SIDE: u32 = 1600;

/// Detection input sides are padded up to a multiple of this.
pub const DET_INPUT_SIDE_MULTIPLE: u32 = 32;

/// Detected boxes narrower or lower than this many map cells are dropped.
pub const DET_MIN_BOX_SIDE: u32 = 3;

/// The class index CTC decoding treats as blank.
pub const REC_BLANK_INDEX: usize = 0;

/// A rectangle in image pixels.
#[derive(Debug, Clone, Copy, PartialEq, Eq, Structural)]
pub struct BBox {
    pub x: u32,
    pub y: u32,
    pub width: u32,
    pub height: u32,
}

/// A recognized line of text, its box, and the IEEE-754 bits of its confidence score.
#[derive(Debug)]
pub struct TextLine {
    pub text: String,
    pub bbox: BBox,
    pub confidence_bits: u32,
}

impl TextLine {
    /// A copy of the line with every field equal.
    pub fn duplicate(&self) -> (r: TextLine)
        ensures
            r == *self,
    {
        TextLine { text: self.text.clone(), bbox: self.bbox, confidence_bits: self.confidence_bits }
    }
}

/// Rounds `value` up to a multiple of `multiple`; a zero multiple leaves it unchanged.
pub fn round_up_to_multiple(value: u32, multiple: u32) -> (r: u32)
    requires
        multiple == 0 || value + multiple <= u32::MAX,
    ensures
        multiple == 0 ==> r == value,
        multiple > 0 ==> r % multiple == 0 && value <= r && r < value + multiple,
{
    if multiple == 0 {
        return value;
    }
    let q = value / multiple;
    let rem = value % multiple;
    if rem == 0 {
        value
    } else {
        proof {
            assert(q * multiple + rem == value) by (nonlinear_arith)
                requires
                    q == value / multiple,
                    rem == value % multiple,
                    multiple > 0,
            ;
            assert((q + 1) * multiple == q * multiple + multiple) by (nonlinear_arith);
            assert(((q + 1) * multiple) % (multiple as int) == 0) by (nonlinear_arith)
                requires
                    multiple > 0,
            ;
        }
        (q + 1) * multiple
    }
}

/// `n / d` rounded to the nearest integer, halves away from zero.
pub open spec fn div_round(n: nat, d: nat) -> nat
    recommends
        d > 0,
{
    (2 * n + d) / (2 * d)
}

/// Detection input size: unchanged when the longest side is at most `MAX_PREPROCESS_SIDE`,
/// otherwise both sides scaled so the longest becomes `MAX_PREPROCESS_SIDE`, rounded to the
/// nearest pixel and at least 1.
pub open spec fn resized(width: nat, height: nat) -> (nat, nat) {
    let longest = if width >= height {
        width
    } else {
        height
    };
    if longest <= MAX_PREPROCESS_SIDE {
        (width, height)
    } else {
        let w = div_round(width * (MAX_PREPROCESS_SIDE as nat), longest);
        let h = div_round(height * (MAX_PREPROCESS_SIDE as nat), longest);
        (if w < 1 {
            1
        } else {
            w
        }, if h < 1 {
            1
        } else {
            h
        })
    }
}

/// The size an image is scaled to before detection.
pub fn resized_dimensions(width: u32, height: u32) -> (r: (u32, u32))
    ensures
        (r.0 as nat, r.1 as nat) == resized(width as nat, height as nat),
        r.0 <= MAX_PREPROCESS_SIDE || r.0 == width,
        r.1 <= MAX_PREPROCESS_SIDE || r.1 == height,
{
    let longest = if width >= height {
        width
    } else {
        height
    };
    if longest <= MAX_PREPROCESS_SIDE {
        return (width, height);
    }
    let w = scaled_side(width, longest);
    let h = scaled_side(height, longest);
    (if w < 1 {
        1
    } else {
        w
    }, if h < 1 {
        1
    } else {
        h
    })
}

/// `side * MAX_PREPROCESS_SIDE / longest`, rounded to nearest.
fn scaled_side(side: u32, longest: u32) -> (r: u32)
    requires
        side <= longest,
        longest > MAX_PREPROCESS_SIDE,
    ensures
        r as nat == div_round(side as nat * MAX_PREPROCESS_SIDE as nat, longest as nat),
        r <= MAX_PREPROCESS_SIDE,
{
    let s64 = side as u64;
    let l64 = longest as u64;
    proof {
        assert(s64 * 3200 <= 4294967295u64 * 3200) by (nonlinear_arith)
            requires
                s64 <= 4294967295u64,
        ;
        assert(s64 * 3200 <= l64 * 3200) by (nonlinear_arith)
            requires
                s64 <= l64,
        ;
    }
    let n: u64 = s64 * 3200 + l64;
    let d: u64 = 2 * l64;
    proof {
        assert(n as nat == 2 * (side as nat * 1600) + longest as nat);
        assert(n <= d * 1600 + l64);
        assert(n / d <= 1600) by (nonlinear_arith)
            requires
                n <= d * 1600 + l64,
                d == 2 * l64,
                l64 > 0,
        ;
    }
    (n / d) as u32
}

/// The part of `bbox` inside a `image_width` × `image_height` image, when it is not empty.
pub open spec fn clamped(bbox: BBox, image_width: u32, image_height: u32) -> Option<(u32, u32, u32, u32)> {
    let x = if bbox.x < image_width {
        bbox.x
    } else {
        image_width
    };
    let y = if bbox.y < image_height {
        bbox.y
    } else {
        image_height
    };
    let right_raw = bbox.x + bbox.width;
    let right = if right_raw < image_width {
        right_raw
    } else {
        image_width as int
    };
    let bottom_raw = bbox.y + bbox.height;
    let bottom = if bottom_raw < image_height {
        bottom_raw
    } else {
        image_height as int
    };
    let width = if right > x {
        right - x
    } else {
        0
    };
    let height = if bottom > y {
        bottom - y
    } else {
        0
    };
    if width > 0 && height > 0 {
        Some((x, y, width as u32, height as u32))
    } else {
        None
    }
}

/// The part of `bbox` inside the image, as `(x, y, width, height)`, or `None` when empty.
pub fn clamp_bbox_to_image(bbox: BBox, image_width: u32, image_height: u32) -> (r: Option<(u32, u32, u32, u32)>)
    ensures
        r == clamped(bbox, image_width, image_height),
        r matches Some(c) ==> c.0 + c.2 <= image_width && c.1 + c.3 <= image_height && c.2 > 0 && c.3 > 0,
{
    let x = if bbox.x < image_width {
        bbox.x
    } else {
        image_width
    };
    let y = if bbox.y < image_height {
        bbox.y
    } else {
        image_height
    };
    let right = bbox.x.saturating_add(bbox.width);
    let right = if right < image_width {
        right
    } else {
        image_width
    };
    let bottom = bbox.y.saturating_add(bbox.height);
    let bottom = if bottom < image_height {
        bottom
    } else {
        image_height
    };
    let width = right.saturating_sub(x);
    let height = bottom.saturating_sub(y);
    if width > 0 && height > 0 {
        Some((x, y, width, height))
    } else {
        None
    }
}

/// The crop an OCR text region takes from a `image_width` × `image_height` image.
pub fn crop_text_region_bounds(bbox: BBox, image_width: u32, image_height: u32) -> (r: Result<
    (u32, u32, u32, u32),
    Error,
>)
    ensures
        image_width == 0 || image_height == 0 ==> (r matches Err(e) && e@ == (
            ErrorKind::Ocr,
            "image cannot be empty"@,
        )),
        image_width > 0 && image_height > 0 ==> match clamped(bbox, image_width, image_height) {
            Some(c) => r == Ok::<(u32, u32, u32, u32), Error>(c),
            None => r matches Err(e) && e@ == (ErrorKind::Ocr, "text region is outside image bounds"@),
        },
{
    if image_width == 0 || image_height == 0 {
        return Err(Error::from_str(ErrorKind::Ocr, "image cannot be empty"));
    }
    match clamp_bbox_to_image(bbox, image_width, image_height) {
        Some(c) => Ok(c),
        None => Err(Error::from_str(ErrorKind::Ocr, "text region is outside image bounds")),
    }
}

/// The padding added on each side of a detected box: a tenth of its width horizontally
/// and 35% of its height vertically, rounded to nearest.
pub open spec fn pad_x(width: nat) -> nat {
    div_round(width, 10)
}

/// The vertical padding of a detected box.
pub open spec fn pad_y(height: nat) -> nat {
    div_round(height * 7, 20)
}

/// `a - b`, or 0 when `b > a`.
pub open spec fn sat_sub(a: int, b: int) -> int {
    if a > b {
        a - b
    } else {
        0
    }
}

/// `a + b`, capped at `u32::MAX`.
pub open spec fn sat_add(a: int, b: int) -> int {
    if a + b > u32::MAX {
        u32::MAX as int
    } else {
        a + b
    }
}

/// `bbox` grown by the recognition padding, clipped at zero and at `u32::MAX`.
pub open spec fn padded(bbox: BBox) -> BBox {
    let px = pad_x(bbox.width as nat) as int;
    let py = pad_y(bbox.height as nat) as int;
    let x = sat_sub(bbox.x as int, px);
    let y = sat_sub(bbox.y as int, py);
    let right = sat_add(sat_add(bbox.x as int, bbox.width as int), px);
    let bottom = sat_add(sat_add(bbox.y as int, bbox.height as int), py);
    BBox { x: x as u32, y: y as u32, width: sat_sub(right, x) as u32, height: sat_sub(bottom, y) as u32 }
}

/// A detected box with surrounding context, so recognition does not see clipped glyphs.
pub fn padded_bbox_for_recognition(bbox: BBox) -> (r: BBox)
    ensures
        r == padded(bbox),
        r.x <= bbox.x,
        r.y <= bbox.y,
{
    let pad_x: u32 = ((2 * (bbox.width as u64) + 10) / 20) as u32;
    let pad_y: u32 = ((14 * (bbox.height as u64) + 20) / 40) as u32;
    proof {
        assert(pad_x as nat == div_round(bbox.width as nat, 10));
        assert(pad_y as nat == div_round(bbox.height as nat * 7, 20));
    }
    let x = bbox.x.saturating_sub(pad_x);
    let y = bbox.y.saturating_sub(pad_y);
    let right = bbox.x.saturating_add(bbox.width).saturating_add(pad_x);
    let bottom = bbox.y.saturating_add(bbox.height).saturating_add(pad_y);
    BBox { x, y, width: right.saturating_sub(x), height: bottom.saturating_sub(y) }
}

/// The four-neighbours of cell `(x, y)` inside a `width` × `height` map: left, right, up, down.
pub open spec fn neighbors(x: u32, y: u32, width: u32, height: u32) -> Seq<(u32, u32)> {
    let left = if x > 0 {
        seq![((x - 1) as u32, y)]
    } else {
        seq![]
    };
    let right = if x + 1 < width {
        seq![((x + 1) as u32, y)]
    } else {
        seq![]
    };
    let up = if y > 0 {
        seq![(x, (y - 1) as u32)]
    } else {
        seq![]
    };
    let down = if y + 1 < height {
        seq![(x, (y + 1) as u32)]
    } else {
        seq![]
    };
    left + right + up + down
}

/// The four-neighbours of a map cell that lie inside the map.
pub fn detection_neighbors(x: u32, y: u32, width: u32, height: u32) -> (r: Vec<(u32, u32)>)
    ensures
        r@ == neighbors(x, y, width, height),
{
    let mut r: Vec<(u32, u32)> = Vec::new();
    if x > 0 {
        r.push((x - 1, y));
    }
    if (x as u64) + 1 < (width as u64) {
        r.push((x + 1, y));
    }
    if y > 0 {
        r.push((x, y - 1));
    }
    if (y as u64) + 1 < (height as u64) {
        r.push((x, y + 1));
    }
    assert(r@ =~= neighbors(x, y, width, height));
    r
}

/// Which OCR engine macOS uses.
#[derive(Debug, Clone, Copy, PartialEq, Eq, Structural)]
pub enum MacosOcrBackend {
    Vision,
    Paddle,
}

/// The engine an environment setting picks: Paddle for `paddle`, `onnx` or `ppocr`
/// (trimmed, any ASCII case), Apple Vision otherwise.
pub open spec fn backend_for(value: Option<Seq<char>>) -> MacosOcrBackend {
    match value {
        Some(v) => if trim(v).len() > 0 && (eq_ignore_case(trim(v), "paddle"@) || eq_ignore_case(
            trim(v),
            "onnx"@,
        ) || eq_ignore_case(trim(v), "ppocr"@)) {
            MacosOcrBackend::Paddle
        } else {
            MacosOcrBackend::Vision
        },
        None => MacosOcrBackend::Vision,
    }
}

/// The macOS OCR engine an environment setting picks.
pub fn macos_ocr_backend_from_value(value: Option<&str>) -> (r: MacosOcrBackend)
    ensures
        r == backend_for(
            match value {
                Some(v) => Some(v@),
                None => None,
            },
        ),
{
    match value {
        Some(v) => {
            let t = trim_str(v);
            if !t.as_str().is_empty() && (eq_ignore_case_str(t.as_str(), "paddle")
                || eq_ignore_case_str(t.as_str(), "onnx") || eq_ignore_case_str(t.as_str(), "ppocr")) {
                MacosOcrBackend::Paddle
            } else {
                MacosOcrBackend::Vision
            }
        },
        None => MacosOcrBackend::Vision,
    }
}

/// Channel order of OCR input tensors.
#[derive(Debug, Clone, Copy, PartialEq, Eq, Structural)]
pub enum OcrChannelOrder {
    Rgb,
    Bgr,
}

/// The order an environment setting picks: RGB for `rgb` (trimmed, any ASCII case), BGR otherwise.
pub open spec fn channel_order_for(value: Option<Seq<char>>) -> OcrChannelOrder {
    match value {
        Some(v) => if trim(v).len() > 0 && eq_ignore_case(trim(v), "rgb"@) {
            OcrChannelOrder::Rgb
        } else {
            OcrChannelOrder::Bgr
        },
        None => OcrChannelOrder::Bgr,
    }
}

/// The tensor channel order an environment setting picks.
pub fn ocr_channel_order_from_value(value: Option<&str>) -> (r: OcrChannelOrder)
    ensures
        r == channel_order_for(
            match value {
                Some(v) => Some(v@),
                None => None,
            },
        ),
{
    match value {
        Some(v) => {
            let t = trim_str(v);
            if !t.as_str().is_empty() && eq_ignore_case_str(t.as_str(), "rgb") {
                OcrChannelOrder::Rgb
            } else {
                OcrChannelOrder::Bgr
            }
        },
        None => OcrChannelOrder::Bgr,
    }
}

/// `a` reads no later than `b`: it starts higher, or on the same row no further right.
pub open spec fn reads_before(a: BBox, b: BBox) -> bool {
    a.y < b.y || (a.y == b.y && a.x <= b.x)
}

/// `line` placed into `sorted` after every line that reads no later than it.
pub open spec fn insert_line(sorted: Seq<TextLine>, line: TextLine) -> Seq<TextLine>
    decreases sorted.len(),
{
    if sorted.len() == 0 {
        seq![line]
    } else if reads_before(sorted.last().bbox, line.bbox) {
        sorted.push(line)
    } else {
        insert_line(sorted.drop_last(), line).push(sorted.last())
    }
}

/// `lines` in reading order, top to bottom then left to right; lines at the same
/// position keep their order.
pub open spec fn reading_order(lines: Seq<TextLine>) -> Seq<TextLine>
    decreases lines.len(),
{
    if lines.len() == 0 {
        lines
    } else {
        insert_line(reading_order(lines.drop_last()), lines.last())
    }
}

/// Each line reads no later than the next.
pub open spec fn in_reading_order(lines: Seq<TextLine>) -> bool {
    forall|i: int, j: int| 0 <= i < j < lines.len() ==> reads_before(#[trigger] lines[i].bbox, #[trigger] lines[j].bbox)
}

/// Inserting where the scan from the end stops gives `insert_line`.
proof fn lemma_insert_line_at(sorted: Seq<TextLine>, line: TextLine, p: int)
    requires
        0 <= p <= sorted.len(),
        forall|k: int| p <= k < sorted.len() ==> !reads_before(#[trigger] sorted[k].bbox, line.bbox),
        p > 0 ==> reads_before(sorted[p - 1].bbox, line.bbox),
    ensures
        insert_line(sorted, line) == sorted.insert(p, line),
    decreases sorted.len(),
{
    if p == sorted.len() {
        if sorted.len() == 0 {
            assert(sorted.insert(p, line) =~= seq![line]);
        } else {
            assert(sorted.insert(p, line) =~= sorted.push(line));
        }
    } else {
        let t = sorted.drop_last();
        assert forall|k: int| p <= k < t.len() implies !reads_before(#[trigger] t[k].bbox, line.bbox) by {
            assert(t[k] == sorted[k]);
        }
        if p > 0 {
            assert(t[p - 1] == sorted[p - 1]);
        }
        lemma_insert_line_at(t, line, p);
        assert(sorted.insert(p, line) =~= t.insert(p, line).push(sorted.last()));
    }
}

/// Sorts recognized lines into reading order, keeping lines at the same position in order.
pub fn sort_text_lines_for_reading(lines: &mut Vec<TextLine>)
    ensures
        final(lines)@ == reading_order(old(lines)@),
{
    let ghost input = lines@;
    let mut sorted: Vec<TextLine> = Vec::new();
    let mut rest: Vec<TextLine> = Vec::new();
    std::mem::swap(lines, &mut rest);
    let n = rest.len();
    let mut k: usize = 0;
    assert(input.take(0) == Seq::<TextLine>::empty());
    while k < n
        invariant
            k <= n == rest@.len(),
            rest@ == input,
            sorted@ == reading_order(input.take(k as int)),
        decreases n - k,
    {
        let line = rest[k].duplicate();
        let mut p = sorted.len();
        while p > 0 && !(sorted[p - 1].bbox.y < line.bbox.y || (sorted[p - 1].bbox.y == line.bbox.y
            && sorted[p - 1].bbox.x <= line.bbox.x))
            invariant
                p <= sorted@.len(),
                forall|j: int| p <= j < sorted@.len() ==> !reads_before(#[trigger] sorted@[j].bbox, line.bbox),
            decreases p,
        {
            p -= 1;
        }
        proof {
            lemma_insert_line_at(sorted@, line, p as int);
            assert(input.take(k + 1).drop_last() == input.take(k as int));
            assert(input.take(k + 1).last() == input[k as int]);
        }
        sorted.insert(p, line);
        k += 1;
    }
    assert(input.take(n as int) == input);
    *lines = sorted;
}

/// The texts of `lines` that are not blank, in order.
pub open spec fn nonblank_texts(lines: Seq<TextLine>) -> Seq<Seq<char>>
    decreases lines.len(),
{
    if lines.len() == 0 {
        Seq::empty()
    } else if is_blank(lines.last().text@) {
        nonblank_texts(lines.drop_last())
    } else {
        nonblank_texts(lines.drop_last()).push(lines.last().text@)
    }
}

/// The text a set of recognized lines reads as: the non-blank lines in reading order,
/// one per line.
pub open spec fn aggregated(lines: Seq<TextLine>) -> Seq<char> {
    join(nonblank_texts(reading_order(lines)), "\n"@)
}

/// Joins the non-blank line texts in reading order with newlines.
pub fn aggregate_text(lines: &Vec<TextLine>) -> (r: String)
    ensures
        r@ == aggregated(lines@),
{
    let mut sorted: Vec<TextLine> = Vec::new();
    let mut k: usize = 0;
    while k < lines.len()
        invariant
            k <= lines@.len(),
            sorted@ == lines@.take(k as int),
        decreases lines.len() - k,
    {
        sorted.push(lines[k].duplicate());
        assert(lines@.take(k + 1) == lines@.take(k as int).push(lines@[k as int]));
        k += 1;
    }
    assert(lines@.take(lines.len() as int) == lines@);
    sort_text_lines_for_reading(&mut sorted);
    let ghost texts = nonblank_texts(sorted@);
    let mut r = String::new();
    let mut any = false;
    let mut k: usize = 0;
    let ghost newline = "\n"@;
    while k < sorted.len()
        invariant
            k <= sorted@.len(),
            any == (nonblank_texts(sorted@.take(k as int)).len() > 0),
            r@ == join(nonblank_texts(sorted@.take(k as int)), newline),
            newline == "\n"@,
        decreases sorted.len() - k,
    {
        proof {
            assert(sorted@.take(k + 1).drop_last() == sorted@.take(k as int));
            assert(sorted@.take(k + 1).last() == sorted@[k as int]);
        }
        if !is_blank_str(sorted[k].text.as_str()) {
            let ghost before = nonblank_texts(sorted@.take(k as int));
            if any {
                push_str(&mut r, "\n");
            }
            push_str(&mut r, sorted[k].text.as_str());
            proof {
                let after = nonblank_texts(sorted@.take(k + 1));
                assert(after == before.push(sorted@[k as int].text@));
                assert(after.drop_last() == before);
                if before.len() == 0 {
                    assert(r@ == sorted@[k as int].text@);
                }
            }
            any = true;
        }
        k += 1;
    }
    assert(sorted@.take(sorted.len() as int) == sorted@);
    r
}

/// What `std::path::Path::new(dir).join(file)` gives, as text, with the path separator
/// of the platform the library is built for.
pub uninterp spec fn path_joined(dir: Seq<char>, file: Seq<char>) -> Seq<char>;

/// The path `file` inside `dir`; `std::path::Path::join`. The contract names the result.
#[verifier::external_body]
pub(crate) fn join_path(dir: &str, file: &str) -> (r: String)
    ensures
        r@ == path_joined(dir@, file@),
{
    std::path::Path::new(dir).join(file).to_string_lossy().into_owned()
}

/// Paths of the three models and the recognition dictionary.
#[derive(Debug)]
pub struct OcrModelManifest {
    pub det: String,
    pub cls: String,
    pub rec: String,
    pub rec_dict: String,
}

/// Which of the manifest's files exist as regular files.
#[derive(Debug, Clone, Copy, PartialEq, Eq, Structural)]
pub struct ModelFilePresence {
    pub det: bool,
    pub cls: bool,
    pub rec: bool,
    pub rec_dict: bool,
}

/// A validated manifest and the size of its dictionary.
#[derive(Debug)]
pub struct OcrModelAssets {
    pub manifest: OcrModelManifest,
    pub recognition_dict_len: usize,
}

/// The names of the files that are missing, in manifest order.
pub open spec fn missing_labels(p: ModelFilePresence) -> Seq<Seq<char>> {
    let a = if p.det {
        Seq::<Seq<char>>::empty()
    } else {
        seq![DET_MODEL_FILE@]
    };
    let b = if p.cls {
        a
    } else {
        a.push(CLS_MODEL_FILE@)
    };
    let c = if p.rec {
        b
    } else {
        b.push(REC_MODEL_FILE@)
    };
    if p.rec_dict {
        c
    } else {
        c.push(REC_DICT_FILE@)
    }
}

impl OcrModelManifest {
    /// The standard file names inside `model_dir`.
    pub fn from_dir(model_dir: &str) -> (m: OcrModelManifest)
        ensures
            m.det@ == path_joined(model_dir@, DET_MODEL_FILE@),
            m.cls@ == path_joined(model_dir@, CLS_MODEL_FILE@),
            m.rec@ == path_joined(model_dir@, REC_MODEL_FILE@),
            m.rec_dict@ == path_joined(model_dir@, REC_DICT_FILE@),
    {
        OcrModelManifest {
            det: join_path(model_dir, DET_MODEL_FILE),
            cls: join_path(model_dir, CLS_MODEL_FILE),
            rec: join_path(model_dir, REC_MODEL_FILE),
            rec_dict: join_path(model_dir, REC_DICT_FILE),
        }
    }

    /// A copy of the manifest.
    pub fn duplicate(&self) -> (m: OcrModelManifest)
        ensures
            m == *self,
    {
        OcrModelManifest {
            det: self.det.clone(),
            cls: self.cls.clone(),
            rec: self.rec.clone(),
            rec_dict: self.rec_dict.clone(),
        }
    }

    /// Fails when any file is missing, naming each missing one.
    pub fn validate(&self, present: &ModelFilePresence) -> (r: Result<(), Error>)
        ensures
            missing_labels(*present).len() == 0 ==> r is Ok,
            missing_labels(*present).len() > 0 ==> (r matches Err(e) && e@ == (
                ErrorKind::Ocr,
                "missing OCR model files: "@ + join(missing_labels(*present), ", "@),
            )),
    {
        let mut missing: Vec<&str> = Vec::new();
        if !present.det {
            missing.push(DET_MODEL_FILE);
        }
        if !present.cls {
            missing.push(CLS_MODEL_FILE);
        }
        if !present.rec {
            missing.push(REC_MODEL_FILE);
        }
        if !present.rec_dict {
            missing.push(REC_DICT_FILE);
        }
        let ghost labels = missing_labels(*present);
        assert(missing@.map_values(|x: &str| x@) =~= labels);
        if missing.len() == 0 {
            return Ok(());
        }
        let mut m = owned("missing OCR model files: ");
        let ghost prefix = m@;
        let ghost sep = ", "@;
        let mut k: usize = 0;
        while k < missing.len()
            invariant
                k <= missing@.len(),
                labels == missing@.map_values(|x: &str| x@),
                sep == ", "@,
                m@ == prefix + join(labels.take(k as int), sep),
            decreases missing.len() - k,
        {
            proof {
                assert(labels.take(k + 1).drop_last() == labels.take(k as int));
                assert(labels.take(k + 1).last() == missing@[k as int]@);
            }
            if k > 0 {
                push_str(&mut m, ", ");
            }
            push_str(&mut m, missing[k]);
            proof {
                if k == 0 {
                    assert(join(labels.take(1), sep) == labels.take(1)[0]);
                }
            }
            k += 1;
        }
        assert(labels.take(missing.len() as int) == labels);
        Err(Error::new(ErrorKind::Ocr, m))
    }
}

/// `p` without one trailing carriage return.
pub open spec fn strip_cr(p: Seq<char>) -> Seq<char> {
    if p.len() > 0 && p.last() == '\r' {
        p.drop_last()
    } else {
        p
    }
}

/// The lines of `s` as `str::lines` gives them: split at `\n`, a `\r` before a `\n` removed.
pub open spec fn line_parts(s: Seq<char>) -> Seq<Seq<char>> {
    let parts = split(s, '\n');
    Seq::new(
        parts.len(),
        |i: int|
            if i < parts.len() - 1 {
                strip_cr(parts[i])
            } else {
                parts[i]
            },
    )
}

/// The non-empty sequences of `s`, in order.
pub open spec fn nonempty(s: Seq<Seq<char>>) -> Seq<Seq<char>>
    decreases s.len(),
{
    if s.len() == 0 {
        s
    } else if s.last().len() == 0 {
        nonempty(s.drop_last())
    } else {
        nonempty(s.drop_last()).push(s.last())
    }
}

/// The dictionary entries a dictionary file holds: its non-empty lines, unchanged.
pub open spec fn dictionary_entries(content: Seq<char>) -> Seq<Seq<char>> {
    nonempty(line_parts(content))
}

/// The recognition dictionary: one entry per non-empty line; an empty dictionary is an error.
pub fn parse_recognition_dict(content: &str) -> (r: Result<Vec<String>, Error>)
    ensures
        dictionary_entries(content@).len() == 0 ==> (r matches Err(e) && e@ == (
            ErrorKind::Ocr,
            "recognition dictionary is empty"@,
        )),
        dictionary_entries(content@).len() > 0 ==> (r matches Ok(v) && v@.map_values(|x: String| x@)
            == dictionary_entries(content@)),
{
    let chars = chars_of(content);
    let parts = split_chars(&chars, '\n');
    let ghost lp = line_parts(content@);
    let mut entries: Vec<String> = Vec::new();
    let mut k: usize = 0;
    while k < parts.len()
        invariant
            k <= parts@.len(),
            chars@ == content@,
            parts@.len() == split(chars@, '\n').len(),
            forall|i: int| 0 <= i < parts@.len() ==> (#[trigger] parts@[i])@ == split(chars@, '\n')[i],
            lp == line_parts(content@),
            lp.len() == parts@.len(),
            entries@.map_values(|x: String| x@) == nonempty(lp.take(k as int)),
        decreases parts.len() - k,
    {
        let part = &parts[k];
        let mut end = part.len();
        if k + 1 < parts.len() && end > 0 && part[end - 1] == '\r' {
            end -= 1;
        }
        let line = crate::text::string_from_chars(part, 0, end);
        proof {
            assert(line@ == lp[k as int]) by {
                assert(part@.subrange(0, part@.len() as int) == part@);
            }
            assert(lp.take(k + 1).drop_last() == lp.take(k as int));
            assert(lp.take(k + 1).last() == lp[k as int]);
        }
        if end > 0 {
            let ghost before = entries@;
            entries.push(line);
            assert(entries@.map_values(|x: String| x@) =~= before.map_values(|x: String| x@).push(line@));
        }
        k += 1;
    }
    assert(lp.take(parts.len() as int) == lp);
    if entries.len() == 0 {
        return Err(Error::from_str(ErrorKind::Ocr, "recognition dictionary is empty"));
    }
    Ok(entries)
}

/// The OCR engine's model location.
#[derive(Debug)]
pub struct OcrEngine {
    model_dir: String,
}

impl OcrEngine {
    /// The model directory.
    pub closed spec fn dir(&self) -> Seq<char> {
        self.model_dir@
    }

    /// An engine for the models in `model_dir`, which must not be empty.
    pub fn new(model_dir: String) -> (r: Result<OcrEngine, Error>)
        ensures
            model_dir@.len() == 0 ==> (r matches Err(e) && e@ == (
                ErrorKind::Ocr,
                "model directory cannot be empty"@,
            )),
            model_dir@.len() > 0 ==> (r matches Ok(engine) && engine.dir() == model_dir@),
    {
        if model_dir.as_str().is_empty() {
            return Err(Error::from_str(ErrorKind::Ocr, "model directory cannot be empty"));
        }
        Ok(OcrEngine { model_dir })
    }

    /// The model directory.
    pub fn model_dir(&self) -> (s: &str)
        ensures
            s@ == self.dir(),
    {
        self.model_dir.as_str()
    }

    /// The standard model files inside the model directory.
    pub fn manifest(&self) -> (m: OcrModelManifest)
        ensures
            m.det@ == path_joined(self.dir(), DET_MODEL_FILE@),
            m.cls@ == path_joined(self.dir(), CLS_MODEL_FILE@),
            m.rec@ == path_joined(self.dir(), REC_MODEL_FILE@),
            m.rec_dict@ == path_joined(self.dir(), REC_DICT_FILE@),
    {
        OcrModelManifest::from_dir(self.model_dir.as_str())
    }

    /// The manifest, when every file is present.
    pub fn validate_models(&self, present: &ModelFilePresence) -> (r: Result<OcrModelManifest, Error>)
        ensures
            missing_labels(*present).len() == 0 ==> (r matches Ok(m) && m.det@ == path_joined(
                self.dir(),
                DET_MODEL_FILE@,
            ) && m.cls@ == path_joined(self.dir(), CLS_MODEL_FILE@) && m.rec@ == path_joined(
                self.dir(),
                REC_MODEL_FILE@,
            ) && m.rec_dict@ == path_joined(self.dir(), REC_DICT_FILE@)),
            missing_labels(*present).len() > 0 ==> (r matches Err(e) && e@ == (
                ErrorKind::Ocr,
                "missing OCR model files: "@ + join(missing_labels(*present), ", "@),
            )),
    {
        let manifest = self.manifest();
        manifest.validate(present)?;
        Ok(manifest)
    }

    /// The manifest and the dictionary size, when every file is present and the
    /// dictionary text `dict_content` holds an entry.
    pub fn validate_assets(&self, present: &ModelFilePresence, dict_content: &str) -> (r: Result<
        OcrModelAssets,
        Error,
    >)
        ensures
            missing_labels(*present).len() > 0 ==> (r matches Err(e) && e@ == (
                ErrorKind::Ocr,
                "missing OCR model files: "@ + join(missing_labels(*present), ", "@),
            )),
            missing_labels(*present).len() == 0 && dictionary_entries(dict_content@).len() == 0 ==> (
            r matches Err(e) && e@ == (ErrorKind::Ocr, "recognition dictionary is empty"@)),
            missing_labels(*present).len() == 0 && dictionary_entries(dict_content@).len() > 0 ==> (
            r matches Ok(a) && a.recognition_dict_len == dictionary_entries(dict_content@).len()
                && a.manifest.det@ == path_joined(self.dir(), DET_MODEL_FILE@) && a.manifest.cls@
                == path_joined(self.dir(), CLS_MODEL_FILE@) && a.manifest.rec@ == path_joined(
                self.dir(),
                REC_MODEL_FILE@,
            ) && a.manifest.rec_dict@ == path_joined(self.dir(), REC_DICT_FILE@)),
    {
        let manifest = self.validate_models(present)?;
        let entries = parse_recognition_dict(dict_content)?;
        assert(entries@.len() == entries@.map_values(|x: String| x@).len());
        Ok(OcrModelAssets { manifest, recognition_dict_len: entries.len() })
    }
}

} // verus!
