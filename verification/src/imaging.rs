//! Avatar and wallpaper images: format detection by magic bytes, the
//! centre crop to a target aspect ratio, and the pipeline that turns an
//! upload into an HD and a thumbnail WebP. Decoding, cropping, resizing and
//! encoding pixels is the `image` crate's work.

use vstd::prelude::*;
use image::GenericImageView;

verus! {

/// An image decoded by the `image` crate.
#[verifier::external_type_specification]
#[verifier::external_body]
pub struct ExDynamicImage(image::DynamicImage);

/// An error of the `image` crate.
#[verifier::external_type_specification]
#[verifier::external_body]
pub struct ExImageError(image::ImageError);

/// Largest accepted upload, in bytes (5 MiB).
pub const MAX_UPLOAD_BYTES: usize = 5_242_880;

/// What an uploaded image is for; decides crop ratio and output sizes.
#[derive(Debug, Clone, Copy, PartialEq, Eq, Structural)]
pub enum UploadType {
    Avatar,
    Wallpaper,
}

impl UploadType {
    /// Object-store directory of the processed files.
    pub fn storage_dir(self) -> (r: &'static str)
        ensures
            r@ == match self {
                UploadType::Avatar => "user_avatars"@,
                UploadType::Wallpaper => "user_wallpapers"@,
            },
    {
        match self {
            UploadType::Avatar => "user_avatars",
            UploadType::Wallpaper => "user_wallpapers",
        }
    }

    /// Target aspect ratio, width to height.
    pub open spec fn ratio(self) -> (u32, u32) {
        match self {
            UploadType::Avatar => (1u32, 1u32),
            UploadType::Wallpaper => (21u32, 9u32),
        }
    }

    /// Target aspect ratio, width to height.
    pub fn aspect(self) -> (r: (u32, u32))
        ensures
            r == self.ratio(),
    {
        match self {
            UploadType::Avatar => (1, 1),
            UploadType::Wallpaper => (21, 9),
        }
    }

    /// Size of the HD output, in pixels.
    pub open spec fn hd_pixels(self) -> (u32, u32) {
        match self {
            UploadType::Avatar => (480u32, 480u32),
            UploadType::Wallpaper => (1400u32, 600u32),
        }
    }

    /// Size of the thumbnail output, in pixels.
    pub open spec fn thumb_pixels(self) -> (u32, u32) {
        match self {
            UploadType::Avatar => (128u32, 128u32),
            UploadType::Wallpaper => (300u32, 128u32),
        }
    }

    /// Size of the HD output, in pixels.
    pub fn hd_size(self) -> (r: (u32, u32))
        ensures
            r == self.hd_pixels(),
    {
        match self {
            UploadType::Avatar => (480, 480),
            UploadType::Wallpaper => (1400, 600),
        }
    }

    /// Size of the thumbnail output, in pixels.
    pub fn thumb_size(self) -> (r: (u32, u32))
        ensures
            r == self.thumb_pixels(),
    {
        match self {
            UploadType::Avatar => (128, 128),
            UploadType::Wallpaper => (300, 128),
        }
    }
}

/// Recognised input formats.
#[derive(Debug, Clone, Copy, PartialEq, Eq, Structural)]
pub enum ImageInputFormat {
    Jpeg,
    Png,
    Webp,
}

impl ImageInputFormat {
    /// Lower-case file extension without the dot.
    pub fn extension(self) -> (r: &'static str)
        ensures
            r@ == match self {
                ImageInputFormat::Jpeg => "jpg"@,
                ImageInputFormat::Png => "png"@,
                ImageInputFormat::Webp => "webp"@,
            },
    {
        match self {
            ImageInputFormat::Jpeg => "jpg",
            ImageInputFormat::Png => "png",
            ImageInputFormat::Webp => "webp",
        }
    }
}

/// The format announced by the first bytes of `b`: JPEG (`FF D8 FF`), PNG
/// (its 8-byte signature) or WebP (`RIFF`, four bytes, `WEBP`); inputs
/// shorter than 12 bytes are never recognised.
pub open spec fn detected_format(b: Seq<u8>) -> Option<ImageInputFormat> {
    if b.len() < 12 {
        None
    } else if b[0] == 0xFFu8 && b[1] == 0xD8u8 && b[2] == 0xFFu8 {
        Some(ImageInputFormat::Jpeg)
    } else if b[0] == 0x89u8 && b[1] == 0x50u8 && b[2] == 0x4Eu8 && b[3] == 0x47u8
        && b[4] == 0x0Du8 && b[5] == 0x0Au8 && b[6] == 0x1Au8 && b[7] == 0x0Au8 {
        Some(ImageInputFormat::Png)
    } else if b[0] == 0x52u8 && b[1] == 0x49u8 && b[2] == 0x46u8 && b[3] == 0x46u8
        && b[8] == 0x57u8 && b[9] == 0x45u8 && b[10] == 0x42u8 && b[11] == 0x50u8 {
        Some(ImageInputFormat::Webp)
    } else {
        None
    }
}

/// Detects the image format from magic bytes.
pub fn detect_format(bytes: &[u8]) -> (r: Option<ImageInputFormat>)
    ensures
        r == detected_format(bytes@),
{
    if bytes.len() < 12 {
        return None;
    }
    if bytes[0] == 0xFF && bytes[1] == 0xD8 && bytes[2] == 0xFF {
        return Some(ImageInputFormat::Jpeg);
    }
    if bytes[0] == 0x89 && bytes[1] == 0x50 && bytes[2] == 0x4E && bytes[3] == 0x47
        && bytes[4] == 0x0D && bytes[5] == 0x0A && bytes[6] == 0x1A && bytes[7] == 0x0A {
        return Some(ImageInputFormat::Png);
    }
    if bytes[0] == 0x52 && bytes[1] == 0x49 && bytes[2] == 0x46 && bytes[3] == 0x46
        && bytes[8] == 0x57 && bytes[9] == 0x45 && bytes[10] == 0x42 && bytes[11] == 0x50 {
        return Some(ImageInputFormat::Webp);
    }
    None
}

/// Width and height of the centre crop of a `w`×`h` image to ratio
/// `rw`:`rh`: an image wider than the ratio keeps its height and is trimmed
/// to `h·rw/rh` columns (rounded down); otherwise it keeps its width and is
/// trimmed to `w·rh/rw` rows.
pub open spec fn crop_size(w: u32, h: u32, rw: u32, rh: u32) -> (int, int) {
    if w * rh > h * rw {
        let cw = (h * rw) / (rh as int);
        (if cw < w { cw } else { w as int }, h as int)
    } else {
        let ch = (w * rh) / (rw as int);
        (w as int, if ch < h { ch } else { h as int })
    }
}

/// The rectangle `(x, y, width, height)` of the centre crop.
pub open spec fn crop_rect_of(w: u32, h: u32, rw: u32, rh: u32) -> (int, int, int, int) {
    let (cw, ch) = crop_size(w, h, rw, rh);
    ((w - cw) / 2, (h - ch) / 2, cw, ch)
}

proof fn lemma_div_bounds(a: int, b: int)
    by (nonlinear_arith)
    requires
        a >= 0,
        b > 0,
    ensures
        (a / b) * b <= a,
        a / b >= 0,
{
}

proof fn lemma_u32_product_fits(x: u32, y: u32)
    by (nonlinear_arith)
    ensures
        x * y <= u64::MAX,
{
    assert(x <= 0xffff_ffffu32 && y <= 0xffff_ffffu32);
}

/// The centre-crop rectangle of a `width`×`height` image for ratio
/// `ratio_w`:`ratio_h`, compared by cross-multiplication so exact ratios are
/// kept exactly.
pub fn crop_rect(width: u32, height: u32, ratio_w: u32, ratio_h: u32) -> (r: (u32, u32, u32, u32))
    requires
        ratio_w > 0,
        ratio_h > 0,
    ensures
        (r.0 as int, r.1 as int, r.2 as int, r.3 as int) == crop_rect_of(width, height, ratio_w, ratio_h),
{
    proof {
        lemma_u32_product_fits(width, ratio_h);
        lemma_u32_product_fits(height, ratio_w);
    }
    let wide = (width as u64) * (ratio_h as u64) > (height as u64) * (ratio_w as u64);
    let (crop_w, crop_h) = if wide {
        let q = (height as u64) * (ratio_w as u64) / (ratio_h as u64);
        proof {
            lemma_div_bounds(height * ratio_w, ratio_h as int);
            assert(q * ratio_h < width * ratio_h);
            assert(q < width) by (nonlinear_arith)
                requires q * ratio_h < width * ratio_h, ratio_h > 0, q >= 0;
        }
        let cw = q as u32;
        (if cw < width { cw } else { width }, height)
    } else {
        let q = (width as u64) * (ratio_h as u64) / (ratio_w as u64);
        proof {
            lemma_div_bounds(width * ratio_h, ratio_w as int);
            assert(q * ratio_w <= height * ratio_w);
            assert(q <= height) by (nonlinear_arith)
                requires q * ratio_w <= height * ratio_w, ratio_w > 0, q >= 0;
        }
        let ch = q as u32;
        (width, if ch < height { ch } else { height })
    };
    let x = (width - crop_w) / 2;
    let y = (height - crop_h) / 2;
    (x, y, crop_w, crop_h)
}

/// The centre crop lies inside the image and keeps its full extent along
/// at least one axis.
pub proof fn law_crop_inside_image(w: u32, h: u32, rw: u32, rh: u32)
    requires
        rw > 0,
        rh > 0,
    ensures
        ({
            let (x, y, cw, ch) = crop_rect_of(w, h, rw, rh);
            &&& 0 <= x && 0 <= y && 0 <= cw && 0 <= ch
            &&& x + cw <= w && y + ch <= h
            &&& cw == w || ch == h
        }),
{
    lemma_div_bounds(h * rw, rh as int);
    lemma_div_bounds(w * rh, rw as int);
}

/// An image already at the target ratio is not cropped.
pub proof fn law_crop_keeps_exact_ratio(w: u32, h: u32, rw: u32, rh: u32)
    requires
        rw > 0,
        rh > 0,
        w * rh == h * rw,
    ensures
        crop_rect_of(w, h, rw, rh) == (0int, 0int, w as int, h as int),
{
    assert((w * rh) / (rw as int) == h as int) by {
        vstd::arithmetic::div_mod::lemma_div_by_multiple(h as int, rw as int);
        assert(h * rw == (h as int) * (rw as int));
    }
}

/// The crop never holds more columns than the ratio allows for its height
/// when it trims the sides, nor more rows than the ratio allows for its width
/// when it trims top and bottom.
pub proof fn law_crop_within_ratio(w: u32, h: u32, rw: u32, rh: u32)
    requires
        rw > 0,
        rh > 0,
    ensures
        ({
            let (x, y, cw, ch) = crop_rect_of(w, h, rw, rh);
            if w * rh > h * rw { cw * rh <= ch * rw } else { ch * rw <= cw * rh }
        }),
{
    lemma_div_bounds(h * rw, rh as int);
    lemma_div_bounds(w * rh, rw as int);
    let (x, y, cw, ch) = crop_rect_of(w, h, rw, rh);
    if w * rh > h * rw {
        let q = (h * rw) / (rh as int);
        assert(cw <= q);
        assert(cw * rh <= q * rh) by (nonlinear_arith)
            requires cw <= q, rh > 0;
    } else {
        let q = (w * rh) / (rw as int);
        assert(ch <= q);
        assert(ch * rw <= q * rw) by (nonlinear_arith)
            requires ch <= q, rw > 0;
    }
}

/// One operation that made a picture from the image it was derived from.
#[derive(Debug, Clone, Copy, PartialEq, Eq, Structural)]
pub enum PictureStep {
    /// `crop_imm(x, y, width, height)`.
    Crop(u32, u32, u32, u32),
    /// `resize_exact(width, height)` with the Lanczos3 filter.
    Resize(u32, u32),
}

/// A decoded image together with its size in pixels and the steps that made
/// it from the image it started as. Every value is made by `Picture::new`
/// (no steps) or `Picture::derived` (one more step), each of which reads the
/// size from the image itself, so `width` and `height` are the pixels'
/// dimensions.
pub struct Picture {
    pixels: image::DynamicImage,
    width: u32,
    height: u32,
    steps: Vec<PictureStep>,
}

impl Picture {
    /// The decoded pixels.
    pub closed spec fn image(&self) -> image::DynamicImage {
        self.pixels
    }

    /// Width and height, in pixels.
    pub closed spec fn size(&self) -> (u32, u32) {
        (self.width, self.height)
    }

    /// The operations, oldest first, that made this picture from the image
    /// it started as.
    pub closed spec fn steps(&self) -> Seq<PictureStep> {
        self.steps@
    }

    /// Wraps a decoded image, reading its size; it has no steps.
    pub fn new(img: image::DynamicImage) -> (r: Picture)
        ensures
            r.image() == img,
            r.steps() == Seq::<PictureStep>::empty(),
    {
        let (width, height) = image_dimensions(&img);
        Picture { pixels: img, width, height, steps: Vec::new() }
    }

    /// Wraps `img`, made from `parent` by `step`, reading its size.
    fn derived(parent: &Picture, img: image::DynamicImage, step: PictureStep) -> (r: Picture)
        ensures
            r.image() == img,
            r.steps() == parent.steps().push(step),
    {
        let (width, height) = image_dimensions(&img);
        let mut steps: Vec<PictureStep> = Vec::new();
        let mut i: usize = 0;
        while i < parent.steps.len()
            invariant
                i <= parent.steps@.len(),
                steps@ == parent.steps@.subrange(0, i as int),
            decreases parent.steps@.len() - i,
        {
            steps.push(parent.steps[i]);
            assert(steps@ =~= parent.steps@.subrange(0, i + 1));
            i = i + 1;
        }
        assert(steps@ =~= parent.steps@);
        steps.push(step);
        Picture { pixels: img, width, height, steps }
    }

    /// Width in pixels.
    pub fn width(&self) -> (r: u32)
        ensures
            r == self.size().0,
    {
        self.width
    }

    /// Height in pixels.
    pub fn height(&self) -> (r: u32)
        ensures
            r == self.size().1,
    {
        self.height
    }

    /// The operations that made this picture, oldest first.
    pub fn steps_taken(&self) -> (r: Vec<PictureStep>)
        ensures
            r@ == self.steps(),
    {
        let mut out: Vec<PictureStep> = Vec::new();
        let mut i: usize = 0;
        while i < self.steps.len()
            invariant
                i <= self.steps@.len(),
                out@ == self.steps@.subrange(0, i as int),
            decreases self.steps@.len() - i,
        {
            out.push(self.steps[i]);
            assert(out@ =~= self.steps@.subrange(0, i + 1));
            i = i + 1;
        }
        assert(out@ =~= self.steps@);
        out
    }

    /// The decoded pixels.
    pub fn into_image(self) -> (r: image::DynamicImage)
        ensures
            r == self.image(),
    {
        self.pixels
    }
}

/// The size of the image that `image::load_from_memory` decodes from `raw`
/// (its format guessed from the bytes, default limits), or `None` where it
/// fails.
pub uninterp spec fn decoded_size(raw: Seq<u8>) -> Option<(u32, u32)>;

/// Decodes an image with `image::load_from_memory`; the format is guessed
/// from the bytes. Whether it succeeds, and the decoded image's size, depend
/// on the bytes alone and are named `decoded_size`; nothing is stated of the
/// decoded pixels.
#[verifier::external_body]
fn decode_image(raw: &[u8]) -> (r: Result<Picture, image::ImageError>)
    ensures
        r is Ok <==> decoded_size(raw@) is Some,
        r matches Ok(p) ==> decoded_size(raw@) == Some(p.size()) && p.steps() == Seq::<PictureStep>::empty(),
{
    image::load_from_memory(raw).map(Picture::new)
}

/// The width and height of a decoded image (`GenericImageView::dimensions`).
/// No clause ties them to the image, which is opaque to the library:
/// `Picture` keeps what this returns as the image's size.
#[verifier::external_body]
fn image_dimensions(img: &image::DynamicImage) -> (r: (u32, u32)) {
    img.dimensions()
}

/// `len` clamped to what remains of `total` after `start` (itself clamped
/// to `total`): the extent `crop_imm` keeps along one axis.
pub open spec fn clamped_extent(start: u32, len: u32, total: u32) -> u32 {
    let s = if start < total { start } else { total };
    let rest = (total - s) as u32;
    if len < rest { len } else { rest }
}

/// `DynamicImage::crop_imm`: the part of `img` in the rectangle at `(x, y)`
/// of `w`×`h`, recorded as the step `Crop(x, y, w, h)`. The part is clamped
/// to the image (`imageops::crop_dimms`), so its size is the clamped extent
/// along each axis. The pixels are not described.
#[verifier::external_body]
fn crop_image(img: &Picture, x: u32, y: u32, w: u32, h: u32) -> (r: Picture)
    ensures
        r.size() == (clamped_extent(x, w, img.size().0), clamped_extent(y, h, img.size().1)),
        r.steps() == img.steps().push(PictureStep::Crop(x, y, w, h)),
{
    Picture::derived(img, img.pixels.crop_imm(x, y, w, h), PictureStep::Crop(x, y, w, h))
}

/// `DynamicImage::resize_exact` with the Lanczos3 filter: `img` scaled to
/// exactly `w`×`h`, ignoring its aspect ratio (`imageops::resize` returns a
/// `w`×`h` buffer, an empty source included), recorded as the step
/// `Resize(w, h)`. The pixels are not described.
#[verifier::external_body]
fn resize_image(img: &Picture, w: u32, h: u32) -> (r: Picture)
    ensures
        r.size() == (w, h),
        r.steps() == img.steps().push(PictureStep::Resize(w, h)),
{
    Picture::derived(img, img.pixels.resize_exact(w, h, image::imageops::FilterType::Lanczos3), PictureStep::Resize(w, h))
}

/// Whether `b` opens with a WebP file's RIFF header: `RIFF`, a four-byte
/// size, then `WEBP`.
pub open spec fn riff_webp_header(b: Seq<u8>) -> bool {
    &&& b.len() >= 12
    &&& b[0] == 0x52u8 && b[1] == 0x49u8 && b[2] == 0x46u8 && b[3] == 0x46u8
    &&& b[8] == 0x57u8 && b[9] == 0x45u8 && b[10] == 0x42u8 && b[11] == 0x50u8
}

/// The canvas size in a lossless WebP file of the simple layout: after the
/// RIFF header, a `VP8L` chunk whose data starts with the signature byte
/// `0x2F` and then, least significant bit first, 14 bits of width − 1 and
/// 14 bits of height − 1.
pub open spec fn vp8l_canvas(b: Seq<u8>) -> (int, int) {
    (b[21] as int + (b[22] as int % 64) * 256 + 1,
     b[22] as int / 64 + b[23] as int * 4 + (b[24] as int % 16) * 1024 + 1)
}

/// Whether `b` is a lossless WebP file of the simple layout whose canvas is
/// `w`×`h`.
pub open spec fn lossless_webp_of(b: Seq<u8>, w: u32, h: u32) -> bool {
    &&& riff_webp_header(b)
    &&& b.len() >= 25
    &&& b[12] == 0x56u8 && b[13] == 0x50u8 && b[14] == 0x38u8 && b[15] == 0x4Cu8
    &&& b[20] == 0x2Fu8
    &&& vp8l_canvas(b) == (w as int, h as int)
}

/// Largest width or height that a lossless WebP canvas holds.
pub const WEBP_MAX_SIDE: u32 = 16384;

/// Whether the WebP encoder takes an image of this size: each side between
/// 1 and `WEBP_MAX_SIDE`.
pub open spec fn webp_encodable(size: (u32, u32)) -> bool {
    1 <= size.0 <= WEBP_MAX_SIDE && 1 <= size.1 <= WEBP_MAX_SIDE
}

/// `DynamicImage::write_to` in WebP format, into an in-memory buffer that
/// starts empty. The encoder (`image::codecs::webp::WebPEncoder`, lossless,
/// after converting the colour type to 8 bits) refuses only an empty side
/// or one over 16384 pixels; writing to a `Vec` does not fail. It writes the
/// RIFF header, then one `VP8L` chunk whose header records the size. The
/// compressed pixels after it are not described.
#[verifier::external_body]
fn write_webp(img: &Picture) -> (r: Result<Vec<u8>, image::ImageError>)
    ensures
        r is Ok <==> webp_encodable(img.size()),
        r matches Ok(b) ==> lossless_webp_of(b@, img.size().0, img.size().1),
{
    let mut buf = std::io::Cursor::new(Vec::new());
    img.pixels.write_to(&mut buf, image::ImageFormat::WebP).map(|_| buf.into_inner())
}

/// The message of an `image` error (its `Display` text).
#[verifier::external_body]
fn image_error_text(e: &image::ImageError) -> (r: String) {
    e.to_string()
}

/// The step that crops an image of `size` to the centre rectangle of ratio
/// `rw`:`rh` (`crop_rect_of`).
pub open spec fn centre_crop(size: (u32, u32), rw: u32, rh: u32) -> PictureStep {
    let c = crop_rect_of(size.0, size.1, rw, rh);
    PictureStep::Crop(c.0 as u32, c.1 as u32, c.2 as u32, c.3 as u32)
}

/// Crops `img` to the centre rectangle `crop_rect` computes from its
/// dimensions and the ratio `ratio_w`:`ratio_h`: the result is the part of
/// `img` at that rectangle's origin, of its size.
pub fn crop_to_aspect(img: Picture, ratio_w: u32, ratio_h: u32) -> (r: Picture)
    requires
        ratio_w > 0,
        ratio_h > 0,
    ensures
        r.size().0 == crop_rect_of(img.size().0, img.size().1, ratio_w, ratio_h).2,
        r.size().1 == crop_rect_of(img.size().0, img.size().1, ratio_w, ratio_h).3,
        r.steps() == img.steps().push(centre_crop(img.size(), ratio_w, ratio_h)),
{
    let width = img.width();
    let height = img.height();
    let (x, y, crop_w, crop_h) = crop_rect(width, height, ratio_w, ratio_h);
    proof {
        law_crop_inside_image(width, height, ratio_w, ratio_h);
    }
    crop_image(&img, x, y, crop_w, crop_h)
}

/// Why an image could not be processed.
#[derive(Debug)]
pub enum ProcessingError {
    /// The bytes are not JPEG, PNG or WebP.
    UnsupportedFormat,
    /// The bytes could not be decoded.
    Decode(image::ImageError),
    /// The WebP encoder failed, with its message.
    Encode(String),
}

impl ProcessingError {
    /// The error's message.
    pub fn message(&self) -> (r: String)
        ensures
            self is UnsupportedFormat ==> r@ == "unsupported or unrecognized image format (accepted: jpeg, png, webp)"@,
            self matches ProcessingError::Encode(m) ==> r@ == "WebP encode error: "@ + m@,
    {
        match self {
            ProcessingError::UnsupportedFormat =>
                String::from_str("unsupported or unrecognized image format (accepted: jpeg, png, webp)"),
            ProcessingError::Decode(e) => {
                let t = image_error_text(e);
                crate::text::concat_str("image decode error: ", t.as_str())
            },
            ProcessingError::Encode(m) => crate::text::concat_str("WebP encode error: ", m.as_str()),
        }
    }
}

/// The two WebP outputs of a processed upload, with their sizes and the
/// steps that made the pictures they encode.
#[derive(Debug)]
pub struct ProcessedImages {
    pub hd: Vec<u8>,
    pub thumb: Vec<u8>,
    pub hd_size_bytes: u64,
    pub thumb_size_bytes: u64,
    /// The steps that made the HD picture from the decoded upload.
    pub hd_steps: Vec<PictureStep>,
    /// The steps that made the thumbnail picture from the decoded upload.
    pub thumb_steps: Vec<PictureStep>,
}

/// Encodes `img` as lossless WebP. It succeeds exactly when both sides are
/// between 1 and `WEBP_MAX_SIDE`; the bytes then are a WebP file, recognised
/// by `detected_format`, whose canvas has `img`'s size. An encoder error
/// becomes `Encode`.
pub fn encode_webp(img: &Picture) -> (r: Result<Vec<u8>, ProcessingError>)
    ensures
        r is Ok <==> webp_encodable(img.size()),
        r matches Ok(b) ==> detected_format(b@) == Some(ImageInputFormat::Webp)
            && lossless_webp_of(b@, img.size().0, img.size().1),
        r matches Err(e) ==> e is Encode,
{
    match write_webp(img) {
        Ok(bytes) => Ok(bytes),
        Err(e) => Err(ProcessingError::Encode(image_error_text(&e))),
    }
}

/// Checks the magic bytes, decodes, centre-crops to the upload type's
/// ratio and encodes an HD and a thumbnail WebP at the type's sizes. It
/// succeeds exactly on recognised bytes that decode; the outputs are WebP
/// files of the type's HD and thumbnail sizes, each encoding the centre crop
/// of the decoded image resized to that size.
pub fn process_image(raw: &[u8], upload_type: UploadType) -> (r: Result<ProcessedImages, ProcessingError>)
    ensures
        detected_format(raw@) is None <==> r matches Err(ProcessingError::UnsupportedFormat),
        r matches Err(ProcessingError::Decode(_)) <==> (detected_format(raw@) is Some && decoded_size(raw@) is None),
        r is Ok <==> (detected_format(raw@) is Some && decoded_size(raw@) is Some),
        r matches Ok(p) ==> {
            let crop = centre_crop(decoded_size(raw@)->0, upload_type.ratio().0, upload_type.ratio().1);
            let (hw, hh) = upload_type.hd_pixels();
            let (tw, th) = upload_type.thumb_pixels();
            &&& p.hd_size_bytes == p.hd@.len() && p.thumb_size_bytes == p.thumb@.len()
            &&& detected_format(p.hd@) == Some(ImageInputFormat::Webp)
            &&& detected_format(p.thumb@) == Some(ImageInputFormat::Webp)
            &&& lossless_webp_of(p.hd@, hw, hh)
            &&& lossless_webp_of(p.thumb@, tw, th)
            &&& p.hd_steps@ == seq![crop, PictureStep::Resize(hw, hh)]
            &&& p.thumb_steps@ == seq![crop, PictureStep::Resize(tw, th)]
        },
{
    if detect_format(raw).is_none() {
        return Err(ProcessingError::UnsupportedFormat);
    }
    let img = match decode_image(raw) {
        Ok(img) => img,
        Err(e) => return Err(ProcessingError::Decode(e)),
    };
    let (ratio_w, ratio_h) = upload_type.aspect();
    let cropped = crop_to_aspect(img, ratio_w, ratio_h);
    let (hd_w, hd_h) = upload_type.hd_size();
    let (th_w, th_h) = upload_type.thumb_size();
    let hd_img = resize_image(&cropped, hd_w, hd_h);
    let thumb_img = resize_image(&cropped, th_w, th_h);
    let hd = encode_webp(&hd_img)?;
    let thumb = encode_webp(&thumb_img)?;
    let hd_size_bytes = hd.len() as u64;
    let thumb_size_bytes = thumb.len() as u64;
    let hd_steps = hd_img.steps_taken();
    let thumb_steps = thumb_img.steps_taken();
    proof {
        assert(hd_steps@ =~= seq![centre_crop(decoded_size(raw@)->0, ratio_w, ratio_h), PictureStep::Resize(hd_w, hd_h)]);
        assert(thumb_steps@ =~= seq![centre_crop(decoded_size(raw@)->0, ratio_w, ratio_h), PictureStep::Resize(th_w, th_h)]);
    }
    Ok(ProcessedImages { hd, thumb, hd_size_bytes, thumb_size_bytes, hd_steps, thumb_steps })
}

} // verus!
