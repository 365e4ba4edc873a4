use axum_api::imaging::{crop_rect, crop_to_aspect, detect_format, encode_webp, process_image, Picture, PictureStep, ImageInputFormat, ProcessingError,
    UploadType};
use image::{DynamicImage, GenericImageView};
use std::io::Cursor;

fn make_image_bytes(w: u32, h: u32, fmt: image::ImageFormat) -> Vec<u8> {
    let img = DynamicImage::new_rgb8(w, h);
    let mut buf = Cursor::new(Vec::new());
    img.write_to(&mut buf, fmt).unwrap();
    buf.into_inner()
}

#[test]
fn detect_png_synthesized() {
    let data = make_image_bytes(100, 100, image::ImageFormat::Png);
    assert_eq!(detect_format(&data), Some(ImageInputFormat::Png));
}

#[test]
fn detect_jpeg_synthesized() {
    let data = make_image_bytes(100, 100, image::ImageFormat::Jpeg);
    assert_eq!(detect_format(&data), Some(ImageInputFormat::Jpeg));
}

#[test]
fn detect_unknown_returns_none() {
    assert_eq!(detect_format(b"not an image"), None);
    assert_eq!(detect_format(b""), None);
    assert_eq!(detect_format(&[0u8; 4]), None);
}

#[test]
fn crop_square_from_landscape() {
    let img = DynamicImage::new_rgb8(200, 100);
    let cropped = crop_to_aspect(Picture::new(img), 1, 1);
    assert_eq!(cropped.into_image().dimensions(), (100, 100));
}

#[test]
fn crop_square_from_portrait() {
    let img = DynamicImage::new_rgb8(100, 200);
    let cropped = crop_to_aspect(Picture::new(img), 1, 1);
    assert_eq!(cropped.into_image().dimensions(), (100, 100));
}

#[test]
fn crop_wide_from_tall() {
    let img = DynamicImage::new_rgb8(630, 400);
    let cropped = crop_to_aspect(Picture::new(img), 21, 9);
    assert_eq!(cropped.into_image().dimensions(), (630, 270));
}

#[test]
fn crop_wide_from_exact_ratio() {
    let img = DynamicImage::new_rgb8(2100, 900);
    let cropped = crop_to_aspect(Picture::new(img), 21, 9);
    assert_eq!(cropped.into_image().dimensions(), (2100, 900));
}

#[test]
fn crop_wide_from_very_wide() {
    let img = DynamicImage::new_rgb8(4000, 900);
    let cropped = crop_to_aspect(Picture::new(img), 21, 9);
    assert_eq!(cropped.into_image().dimensions(), (2100, 900));
}

#[test]
fn process_png_avatar() {
    let data = make_image_bytes(400, 600, image::ImageFormat::Png);
    let result = process_image(&data, UploadType::Avatar).expect("processing failed");

    let hd_img = image::load_from_memory(&result.hd).expect("hd not decodable");
    assert_eq!(hd_img.dimensions(), (480, 480));

    let thumb_img = image::load_from_memory(&result.thumb).expect("thumb not decodable");
    assert_eq!(thumb_img.dimensions(), (128, 128));
}

#[test]
fn process_rejects_garbage() {
    let err = process_image(b"not an image at all", UploadType::Avatar)
        .expect_err("should fail on garbage input");
    assert!(matches!(err, ProcessingError::UnsupportedFormat));
}

#[test]
fn process_png_wallpaper_sizes() {
    let data = make_image_bytes(800, 300, image::ImageFormat::Png);
    let result = process_image(&data, UploadType::Wallpaper).expect("processing failed");
    assert_eq!(result.hd_size_bytes, result.hd.len() as u64);
    assert_eq!(result.thumb_size_bytes, result.thumb.len() as u64);
    let hd_img = image::load_from_memory(&result.hd).expect("hd not decodable");
    assert_eq!(hd_img.dimensions(), (1400, 600));
    let thumb_img = image::load_from_memory(&result.thumb).expect("thumb not decodable");
    assert_eq!(thumb_img.dimensions(), (300, 128));
}

#[test]
fn crop_rect_is_centred() {
    assert_eq!(crop_rect(200, 100, 1, 1), (50, 0, 100, 100));
    assert_eq!(crop_rect(630, 400, 21, 9), (0, 65, 630, 270));
    assert_eq!(crop_rect(2100, 900, 21, 9), (0, 0, 2100, 900));
}

#[test]
fn detect_webp_and_png_magic() {
    let mut webp = b"RIFF\0\0\0\0WEBPVP8 ".to_vec();
    webp.extend_from_slice(&[0u8; 4]);
    assert_eq!(detect_format(&webp), Some(ImageInputFormat::Webp));
    let png = [0x89u8, 0x50, 0x4E, 0x47, 0x0D, 0x0A, 0x1A, 0x0A, 0, 0, 0, 0];
    assert_eq!(detect_format(&png), Some(ImageInputFormat::Png));
    assert_eq!(detect_format(&png[..11]), None);
}

#[test]
fn upload_type_settings() {
    assert_eq!(UploadType::Avatar.storage_dir(), "user_avatars");
    assert_eq!(UploadType::Wallpaper.storage_dir(), "user_wallpapers");
    assert_eq!(UploadType::Wallpaper.aspect(), (21, 9));
    assert_eq!(UploadType::Avatar.hd_size(), (480, 480));
    assert_eq!(UploadType::Wallpaper.thumb_size(), (300, 128));
    assert_eq!(ImageInputFormat::Jpeg.extension(), "jpg");
}

#[test]
fn garbage_message() {
    assert_eq!(ProcessingError::UnsupportedFormat.message(),
        "unsupported or unrecognized image format (accepted: jpeg, png, webp)");
}

#[test]
fn encode_webp_output_is_recognised_as_webp() {
    let img = DynamicImage::new_rgba8(7, 5);
    let bytes = encode_webp(&Picture::new(img)).expect("encoding failed");
    assert_eq!(&bytes[0..4], b"RIFF");
    assert_eq!(&bytes[8..12], b"WEBP");
    assert_eq!(detect_format(&bytes), Some(ImageInputFormat::Webp));
    let back = image::load_from_memory(&bytes).expect("not decodable");
    assert_eq!(back.dimensions(), (7, 5));
}

#[test]
fn crop_reports_the_size_of_the_cropped_pixels() {
    let cropped = crop_to_aspect(Picture::new(DynamicImage::new_rgb8(630, 400)), 21, 9);
    let (w, h) = (cropped.width(), cropped.height());
    assert_eq!(cropped.into_image().dimensions(), (w, h));
    assert_eq!((w, h), (630, 270));
}

#[test]
fn encode_webp_records_canvas_size() {
    let bytes = encode_webp(&Picture::new(DynamicImage::new_rgb8(1400, 600))).expect("encoding failed");
    assert_eq!(&bytes[12..16], b"VP8L");
    assert_eq!(bytes[20], 0x2f);
    let w = bytes[21] as u32 + ((bytes[22] as u32) % 64) * 256 + 1;
    let h = (bytes[22] as u32) / 64 + (bytes[23] as u32) * 4 + ((bytes[24] as u32) % 16) * 1024 + 1;
    assert_eq!((w, h), (1400, 600));
}

#[test]
fn encode_webp_refuses_empty_image() {
    let r = encode_webp(&Picture::new(DynamicImage::new_rgb8(0, 3)));
    assert!(matches!(r, Err(ProcessingError::Encode(_))));
}

#[test]
fn process_synthesized_jpeg_avatar() {
    let data = make_image_bytes(300, 200, image::ImageFormat::Jpeg);
    let result = process_image(&data, UploadType::Avatar).expect("processing failed");
    assert_eq!(result.hd_size_bytes, result.hd.len() as u64);
    assert_eq!(result.thumb_size_bytes, result.thumb.len() as u64);
    let hd_img = image::load_from_memory(&result.hd).expect("hd not decodable");
    assert_eq!(hd_img.dimensions(), (480, 480));
    let thumb_img = image::load_from_memory(&result.thumb).expect("thumb not decodable");
    assert_eq!(thumb_img.dimensions(), (128, 128));
}

#[test]
fn process_synthesized_webp_wallpaper() {
    let data = make_image_bytes(800, 800, image::ImageFormat::WebP);
    assert_eq!(detect_format(&data), Some(ImageInputFormat::Webp));
    let result = process_image(&data, UploadType::Wallpaper).expect("processing failed");
    let hd_img = image::load_from_memory(&result.hd).expect("hd not decodable");
    assert_eq!(hd_img.dimensions(), (1400, 600));
    let thumb_img = image::load_from_memory(&result.thumb).expect("thumb not decodable");
    assert_eq!(thumb_img.dimensions(), (300, 128));
}

#[test]
fn process_recognised_but_undecodable_is_decode_error() {
    let mut data = vec![0xFFu8, 0xD8, 0xFF];
    data.extend_from_slice(&[0u8; 20]);
    assert!(matches!(process_image(&data, UploadType::Avatar), Err(ProcessingError::Decode(_))));
}

#[test]
fn crop_is_taken_from_the_centre() {
    let img = image::RgbImage::from_fn(200, 100, |x, y| image::Rgb([x as u8, y as u8, 0]));
    let cropped = crop_to_aspect(Picture::new(DynamicImage::ImageRgb8(img)), 1, 1);
    assert_eq!(cropped.steps_taken(), vec![PictureStep::Crop(50, 0, 100, 100)]);
    let out = cropped.into_image().to_rgb8();
    assert_eq!(out.dimensions(), (100, 100));
    assert_eq!(out.get_pixel(0, 0), &image::Rgb([50, 0, 0]));
    assert_eq!(out.get_pixel(99, 99), &image::Rgb([149, 99, 0]));
}

#[test]
fn processed_outputs_are_resized_centre_crops() {
    let data = make_image_bytes(300, 200, image::ImageFormat::Png);
    let result = process_image(&data, UploadType::Avatar).expect("processing failed");
    assert_eq!(result.hd_steps, vec![PictureStep::Crop(50, 0, 200, 200), PictureStep::Resize(480, 480)]);
    assert_eq!(result.thumb_steps, vec![PictureStep::Crop(50, 0, 200, 200), PictureStep::Resize(128, 128)]);
}
