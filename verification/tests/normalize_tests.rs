use comic_archiver::formats::{format_to_string, nominal_format, resolve_format};
use comic_archiver::normalize::{
    normalize, settle, DownloadResult, FailureReason, NormalizeError, Normalized,
};
use image::{DynamicImage, ImageFormat, Rgb, RgbImage, Rgba, RgbaImage};
use std::io::Cursor;

fn encoded(picture: &DynamicImage, format: ImageFormat) -> Vec<u8> {
    let mut out = Cursor::new(Vec::new());
    picture.write_to(&mut out, format).unwrap();
    out.into_inner()
}

fn small_picture() -> DynamicImage {
    let mut picture = RgbImage::from_pixel(5, 3, Rgb([200, 30, 30]));
    picture.put_pixel(0, 0, Rgb([0, 0, 255]));
    DynamicImage::ImageRgb8(picture)
}

fn saved_path(normalized: &Normalized) -> Option<&str> {
    match &normalized.result {
        DownloadResult::Saved(path) => Some(path.as_str()),
        _ => None,
    }
}

fn placeholder_path(normalized: &Normalized) -> Option<&str> {
    match &normalized.result {
        DownloadResult::SavedAsPlaceholder(path) => Some(path.as_str()),
        _ => None,
    }
}

#[test]
fn format_names() {
    assert_eq!(format_to_string(&ImageFormat::Jpeg), "JPEG");
    assert_eq!(format_to_string(&ImageFormat::Png), "PNG");
    assert_eq!(format_to_string(&ImageFormat::Gif), "GIF");
    assert_eq!(format_to_string(&ImageFormat::Bmp), "BMP");
    assert_eq!(format_to_string(&ImageFormat::Tiff), "TIFF");
    assert_eq!(format_to_string(&ImageFormat::WebP), "WEBP");
    assert_eq!(format_to_string(&ImageFormat::Pnm), "PNM");
    assert_eq!(format_to_string(&ImageFormat::Tga), "TGA");
    assert_eq!(format_to_string(&ImageFormat::Dds), "DDS");
    assert_eq!(format_to_string(&ImageFormat::Ico), "ICO");
    assert_eq!(format_to_string(&ImageFormat::Hdr), "HDR");
    assert_eq!(format_to_string(&ImageFormat::OpenExr), "OPENEXR");
    assert_eq!(format_to_string(&ImageFormat::Farbfeld), "FARBFELD");
    assert_eq!(format_to_string(&ImageFormat::Avif), "AVIF");
    assert_eq!(format_to_string(&ImageFormat::Qoi), "QOI");
}

#[test]
fn three_extensions_stand_for_a_format() {
    assert_eq!(nominal_format("jpg"), Some(ImageFormat::Jpeg));
    assert_eq!(nominal_format("png"), Some(ImageFormat::Png));
    assert_eq!(nominal_format("webp"), Some(ImageFormat::WebP));
}

#[test]
fn other_extensions_stand_for_none() {
    for extension in ["", "jpeg", "JPG", "Png", "gif", "bmp", "jpg ", ".jpg", "webp?x=1"] {
        assert_eq!(nominal_format(extension), None, "extension {:?}", extension);
    }
}

#[test]
fn content_is_trusted_over_the_extension() {
    assert_eq!(resolve_format(ImageFormat::Jpeg, Some(ImageFormat::Png)), ImageFormat::Png);
    assert_eq!(resolve_format(ImageFormat::Png, Some(ImageFormat::Gif)), ImageFormat::Gif);
    assert_eq!(resolve_format(ImageFormat::Png, Some(ImageFormat::Png)), ImageFormat::Png);
    assert_eq!(resolve_format(ImageFormat::WebP, None), ImageFormat::WebP);
}

#[test]
fn png_that_arrives_as_jpg_is_decoded_as_png_and_saved_as_jpeg() {
    let picture = small_picture();
    let png = encoded(&picture, ImageFormat::Png);
    assert_eq!(image::guess_format(&png).unwrap(), ImageFormat::Png);
    let normalized = normalize(&png, "jpg", "chapter/4").unwrap();
    assert_eq!(saved_path(&normalized), Some("chapter/4.jpg"));
    assert!(!normalized.format_unknown);
    assert!(!normalized.counts_as_failure());
    assert_ne!(normalized.contents, png);
    assert_eq!(image::guess_format(&normalized.contents).unwrap(), ImageFormat::Jpeg);
    let again = image::load_from_memory_with_format(&normalized.contents, ImageFormat::Jpeg).unwrap();
    assert_eq!((again.width(), again.height()), (5, 3));
    assert!(matches!(again, DynamicImage::ImageRgb8(_)));
}

#[test]
fn jpeg_with_the_right_extension_is_written_again_as_jpeg() {
    let jpeg = encoded(&small_picture(), ImageFormat::Jpeg);
    let normalized = normalize(&jpeg, "jpg", "./a/0").unwrap();
    assert_eq!(saved_path(&normalized), Some("./a/0.jpg"));
    assert_eq!(image::guess_format(&normalized.contents).unwrap(), ImageFormat::Jpeg);
    let expected = encoded(
        &DynamicImage::ImageRgb8(
            image::load_from_memory_with_format(&jpeg, ImageFormat::Jpeg).unwrap().to_rgb8(),
        ),
        ImageFormat::Jpeg,
    );
    assert_eq!(normalized.contents, expected);
}

#[test]
fn gif_that_arrives_as_png_is_saved_as_jpeg() {
    let picture = DynamicImage::ImageRgba8(RgbaImage::from_pixel(4, 4, Rgba([1, 2, 3, 255])));
    let gif = encoded(&picture, ImageFormat::Gif);
    let normalized = normalize(&gif, "png", "x/12").unwrap();
    assert_eq!(saved_path(&normalized), Some("x/12.jpg"));
    assert_eq!(image::guess_format(&normalized.contents).unwrap(), ImageFormat::Jpeg);
}

#[test]
fn picture_with_alpha_is_saved_without_it() {
    let picture = DynamicImage::ImageRgba8(RgbaImage::from_pixel(2, 2, Rgba([9, 9, 9, 10])));
    let png = encoded(&picture, ImageFormat::Png);
    let normalized = normalize(&png, "png", "x/0").unwrap();
    assert_eq!(saved_path(&normalized), Some("x/0.jpg"));
    let again = image::load_from_memory(&normalized.contents).unwrap();
    assert!(matches!(again, DynamicImage::ImageRgb8(_)));
}

#[test]
fn garbage_is_kept_as_a_placeholder() {
    let garbage: Vec<u8> = vec![1, 2, 3, 4, 5, 6, 7, 8, 9, 10];
    let normalized = normalize(&garbage, "png", "chapter/7").unwrap();
    assert_eq!(placeholder_path(&normalized), Some("chapter/7.png"));
    assert_eq!(normalized.contents, garbage);
    assert!(normalized.format_unknown);
    assert!(normalized.counts_as_failure());
}

#[test]
fn page_of_text_in_place_of_an_image_is_kept_as_a_placeholder() {
    let body = b"<html><body>403 Forbidden</body></html>".to_vec();
    let normalized = normalize(&body, "webp", "c/0").unwrap();
    assert_eq!(placeholder_path(&normalized), Some("c/0.webp"));
    assert_eq!(normalized.contents, body);
    assert!(normalized.counts_as_failure());
}

#[test]
fn cut_off_image_is_recognised_and_kept_as_a_placeholder() {
    let png = encoded(&small_picture(), ImageFormat::Png);
    let cut = png[..20].to_vec();
    let normalized = normalize(&cut, "jpg", "c/3").unwrap();
    assert_eq!(placeholder_path(&normalized), Some("c/3.jpg"));
    assert_eq!(normalized.contents, cut);
    assert!(!normalized.format_unknown);
    assert!(normalized.counts_as_failure());
}

#[test]
fn unknown_extension_is_an_error() {
    let png = encoded(&small_picture(), ImageFormat::Png);
    for extension in ["gif", "", "jpeg", "PNG"] {
        let outcome = normalize(&png, extension, "c/0");
        assert_eq!(outcome.unwrap_err(), NormalizeError::UnknownExtension);
    }
}

#[test]
fn settle_writes_the_rendering_under_jpg() {
    let normalized = settle("dir/5", "png", &[1, 2, 3], Some(vec![9, 8]), false);
    assert_eq!(saved_path(&normalized), Some("dir/5.jpg"));
    assert_eq!(normalized.contents, vec![9, 8]);
    assert!(!normalized.format_unknown);
    assert!(!normalized.counts_as_failure());
}

#[test]
fn settle_counts_an_unknown_format_as_failure_even_when_saved() {
    let normalized = settle("dir/5", "png", &[1, 2, 3], Some(vec![9, 8]), true);
    assert_eq!(saved_path(&normalized), Some("dir/5.jpg"));
    assert!(normalized.format_unknown);
    assert!(normalized.counts_as_failure());
}

#[test]
fn settle_keeps_the_bytes_where_there_is_no_rendering() {
    let normalized = settle("dir/5", "webp", &[1, 2, 3], None, false);
    assert_eq!(placeholder_path(&normalized), Some("dir/5.webp"));
    assert_eq!(normalized.contents, vec![1, 2, 3]);
    assert!(normalized.counts_as_failure());
    let empty = settle("", "", &[], None, true);
    assert_eq!(placeholder_path(&empty), Some("."));
    assert!(empty.contents.is_empty());
}

#[test]
fn only_a_saved_image_is_no_failure() {
    assert!(!DownloadResult::Saved("c/0.jpg".to_string()).counts_as_failure());
    assert!(DownloadResult::SavedAsPlaceholder("c/0.png".to_string()).counts_as_failure());
    assert!(DownloadResult::Failed(FailureReason::RetriesExhausted).counts_as_failure());
    assert!(DownloadResult::Failed(FailureReason::EmptyBody).counts_as_failure());
}
