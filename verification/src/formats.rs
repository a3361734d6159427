//! Image container formats: their names, the format that a file extension
//! stands for, and the format that the content itself shows.
use vstd::prelude::*;
use image::ImageFormat;
use crate::text::{chars_of, text_is};

verus! {

/// The image crate's list of container formats. It is declared with its
/// variants as the crate has them, so that they can be named and told apart
/// here; nothing is claimed of it.
#[verifier::external_type_specification]
pub struct ExImageFormat(ImageFormat);

/// The format that `image::guess_format` recognises at the start of the
/// bytes, by their magic number; `None` where it recognises none.
pub uninterp spec fn sniffed_format(bytes: Seq<u8>) -> Option<ImageFormat>;

/// Calls `image::guess_format`, which compares the first bytes with the
/// magic numbers of the formats it knows. The contract claims no more than
/// that the answer depends on the bytes alone: it is `sniffed_format` of the
/// bytes.
#[verifier::external_body]
pub(crate) fn sniff_format(bytes: &[u8]) -> (format: Option<ImageFormat>)
    ensures
        format == sniffed_format(bytes@),
{
    match image::guess_format(bytes) {
        Ok(format) => Some(format),
        Err(_) => None,
    }
}

/// The format that the extension of an image URL stands for. Only three
/// extensions are understood.
pub open spec fn nominal_format_of(extension: Seq<char>) -> Option<ImageFormat> {
    if extension == "jpg"@ {
        Some(ImageFormat::Jpeg)
    } else if extension == "png"@ {
        Some(ImageFormat::Png)
    } else if extension == "webp"@ {
        Some(ImageFormat::WebP)
    } else {
        None
    }
}

/// The format that the extension of an image URL stands for: `jpg`, `png` or
/// `webp`, in lower case. Any other extension stands for none.
pub fn nominal_format(extension: &str) -> (format: Option<ImageFormat>)
    ensures
        format == nominal_format_of(extension@),
{
    let chars = chars_of(extension);
    if text_is(&chars, "jpg") {
        Some(ImageFormat::Jpeg)
    } else if text_is(&chars, "png") {
        Some(ImageFormat::Png)
    } else if text_is(&chars, "webp") {
        Some(ImageFormat::WebP)
    } else {
        None
    }
}

/// The format by which an image is decoded: the one that its content shows,
/// and the nominal one only where the content shows none.
pub open spec fn format_to_decode(nominal: ImageFormat, sniffed: Option<ImageFormat>) -> ImageFormat {
    match sniffed {
        Some(format) => format,
        None => nominal,
    }
}

/// Where the content of an image shows a format, the image is decoded by
/// that format whatever its extension stands for.
pub proof fn lemma_content_overrides_extension(
    nominal: ImageFormat,
    other_nominal: ImageFormat,
    shown: ImageFormat,
)
    ensures
        format_to_decode(nominal, Some(shown)) == shown,
        format_to_decode(nominal, Some(shown)) == format_to_decode(other_nominal, Some(shown)),
{
}

/// Settles the format by which an image is decoded. The extension in the URL
/// is not authoritative: where the content shows a format, that format is
/// taken, whatever the extension says.
pub fn resolve_format(nominal: ImageFormat, sniffed: Option<ImageFormat>) -> (format: ImageFormat)
    ensures
        format == format_to_decode(nominal, sniffed),
{
    match sniffed {
        Some(format) => format,
        None => nominal,
    }
}

/// The display name of an image format.
pub open spec fn format_name(format: ImageFormat) -> Seq<char> {
    match format {
        ImageFormat::Jpeg => "JPEG"@,
        ImageFormat::Png => "PNG"@,
        ImageFormat::Gif => "GIF"@,
        ImageFormat::Bmp => "BMP"@,
        ImageFormat::Tiff => "TIFF"@,
        ImageFormat::WebP => "WEBP"@,
        ImageFormat::Pnm => "PNM"@,
        ImageFormat::Tga => "TGA"@,
        ImageFormat::Dds => "DDS"@,
        ImageFormat::Ico => "ICO"@,
        ImageFormat::Hdr => "HDR"@,
        ImageFormat::OpenExr => "OPENEXR"@,
        ImageFormat::Farbfeld => "FARBFELD"@,
        ImageFormat::Avif => "AVIF"@,
        ImageFormat::Qoi => "QOI"@,
        ImageFormat::Pcx => "PCX"@,
        _ => "other unknown format"@,
    }
}

/// The display name of an image format.
pub fn format_to_string(format: &ImageFormat) -> (name: &'static str)
    ensures
        name@ == format_name(*format),
{
    match format {
        ImageFormat::Jpeg => "JPEG",
        ImageFormat::Png => "PNG",
        ImageFormat::Gif => "GIF",
        ImageFormat::Bmp => "BMP",
        ImageFormat::Tiff => "TIFF",
        ImageFormat::WebP => "WEBP",
        ImageFormat::Pnm => "PNM",
        ImageFormat::Tga => "TGA",
        ImageFormat::Dds => "DDS",
        ImageFormat::Ico => "ICO",
        ImageFormat::Hdr => "HDR",
        ImageFormat::OpenExr => "OPENEXR",
        ImageFormat::Farbfeld => "FARBFELD",
        ImageFormat::Avif => "AVIF",
        ImageFormat::Qoi => "QOI",
        ImageFormat::Pcx => "PCX",
        _ => "other unknown format",
    }
}

} // verus!
