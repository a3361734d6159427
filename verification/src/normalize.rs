//! The format normalizer: from the bytes of a downloaded image to the file
//! that takes its place in the chapter directory.
//!
//! A picture that decodes is written again as JPEG, whatever it came as. One
//! that does not is kept as it came, under its nominal extension, so that the
//! position in the sequence stays occupied and the file can be looked at and
//! replaced by hand.
use vstd::prelude::*;
use vstd::slice::slice_to_vec;
use vstd::string::StringExecFns;
use image::ImageFormat;
use crate::formats::{
    format_to_decode, nominal_format, nominal_format_of, resolve_format, sniff_format,
    sniffed_format,
};

verus! {

/// The picture that the bytes hold in the given format, written again as a
/// JPEG of 8-bit RGB by the image crate; `None` where the bytes do not decode
/// in that format or the picture cannot be written as JPEG.
pub uninterp spec fn jpeg_rendering(bytes: Seq<u8>, format: ImageFormat) -> Option<Seq<u8>>;

/// Decodes the bytes with `image::load`, converts the picture with
/// `DynamicImage::to_rgb8` and encodes it with `ImageBuffer::write_to` as
/// JPEG into memory. An error of the decoder or of the encoder gives `None`.
/// The contract claims no more than that the answer depends on bytes and
/// format alone: it is `jpeg_rendering` of the two.
#[verifier::external_body]
pub(crate) fn render_jpeg(bytes: &[u8], format: ImageFormat) -> (jpeg: Option<Vec<u8>>)
    ensures
        match jpeg {
            Some(data) => jpeg_rendering(bytes@, format) == Some(data@),
            None => jpeg_rendering(bytes@, format) is None,
        },
{
    let picture = match image::load(std::io::Cursor::new(bytes), format) {
        Ok(picture) => picture,
        Err(_) => return None,
    };
    let mut out = std::io::Cursor::new(Vec::new());
    match picture.to_rgb8().write_to(&mut out, ImageFormat::Jpeg) {
        Ok(()) => Some(out.into_inner()),
        Err(_) => None,
    }
}

/// How the download of one image ended.
#[derive(Debug)]
pub enum DownloadResult {
    /// The picture was written as JPEG to this path.
    Saved(String),
    /// The bytes did not decode; they were kept as they came at this path.
    SavedAsPlaceholder(String),
    /// No bytes were obtained.
    Failed(FailureReason),
}

impl DownloadResult {
    /// Whether the download ended without a picture written as JPEG.
    pub open spec fn is_failure(self) -> bool {
        !(self is Saved)
    }

    /// Whether the image goes into the chapter's list of failures for the way
    /// its download ended: it does unless its picture was written as JPEG.
    pub fn counts_as_failure(&self) -> (failure: bool)
        ensures
            failure == self.is_failure(),
    {
        match self {
            DownloadResult::Saved(_) => false,
            _ => true,
        }
    }
}

/// Why no bytes were obtained for an image.
#[derive(Debug, Clone, Copy, PartialEq, Eq, Structural)]
pub enum FailureReason {
    /// Every attempt that was allowed ended in an error.
    RetriesExhausted,
    /// The server answered with success and an empty body.
    EmptyBody,
}

/// Why an image could not be normalized at all.
#[derive(Debug, Clone, Copy, PartialEq, Eq, Structural)]
pub enum NormalizeError {
    /// The nominal extension is none of those that are understood.
    UnknownExtension,
}

/// What is to be written for one image, and how the image counts.
#[derive(Debug)]
pub struct Normalized {
    /// `Saved` or `SavedAsPlaceholder`, with the path of the file.
    pub result: DownloadResult,
    /// The bytes of the file.
    pub contents: Vec<u8>,
    /// The content showed no known format, so the nominal one was tried.
    pub format_unknown: bool,
}

impl Normalized {
    /// Whether the image goes into the chapter's list of failures: its format
    /// was not recognised, or it was kept as a placeholder.
    pub open spec fn is_failure(self) -> bool {
        self.format_unknown || self.result.is_failure()
    }

    /// Whether the image goes into the chapter's list of failures.
    pub fn counts_as_failure(&self) -> (failure: bool)
        ensures
            failure == self.is_failure(),
    {
        self.format_unknown || self.result.counts_as_failure()
    }
}

/// What is written for an image, given what became of its bytes.
/// `output_path` is the path of the file without an extension.
pub open spec fn settled(
    output_path: Seq<char>,
    nominal_extension: Seq<char>,
    raw_bytes: Seq<u8>,
    rendering: Option<Seq<u8>>,
    format_unknown: bool,
    normalized: Normalized,
) -> bool {
    &&& normalized.format_unknown == format_unknown
    &&& match rendering {
        Some(jpeg) => {
            &&& normalized.result matches DownloadResult::Saved(path)
            &&& path@ == output_path + ".jpg"@
            &&& normalized.contents@ == jpeg
        },
        None => {
            &&& normalized.result matches DownloadResult::SavedAsPlaceholder(path)
            &&& path@ == output_path + "."@ + nominal_extension
            &&& normalized.contents@ == raw_bytes
        },
    }
}

/// Decides what is written for an image once it is known whether its bytes
/// could be rendered as JPEG: the rendering under `<output_path>.jpg`, or
/// else the bytes as they came under `<output_path>.<nominal_extension>`.
pub fn settle(
    output_path: &str,
    nominal_extension: &str,
    raw_bytes: &[u8],
    rendering: Option<Vec<u8>>,
    format_unknown: bool,
) -> (normalized: Normalized)
    ensures
        settled(
            output_path@,
            nominal_extension@,
            raw_bytes@,
            match rendering {
                Some(jpeg) => Some(jpeg@),
                None => None,
            },
            format_unknown,
            normalized,
        ),
{
    let mut path = String::new();
    path.append(output_path);
    match rendering {
        Some(jpeg) => {
            path.append(".jpg");
            Normalized { result: DownloadResult::Saved(path), contents: jpeg, format_unknown }
        },
        None => {
            path.append(".");
            path.append(nominal_extension);
            Normalized {
                result: DownloadResult::SavedAsPlaceholder(path),
                contents: slice_to_vec(raw_bytes),
                format_unknown,
            }
        },
    }
}

/// Normalizes the bytes of a downloaded image. `nominal_extension` is the
/// extension that the image's URL ends in and `output_path` the path of the
/// file to write, without an extension.
///
/// An extension other than `jpg`, `png` and `webp` is an error. Otherwise the
/// bytes are decoded by the format that their content shows, or by the
/// nominal format where it shows none, which is noted as `format_unknown`.
pub fn normalize(raw_bytes: &[u8], nominal_extension: &str, output_path: &str) -> (outcome: Result<
    Normalized,
    NormalizeError,
>)
    ensures
        match outcome {
            Ok(normalized) => {
                &&& nominal_format_of(nominal_extension@) matches Some(nominal)
                &&& settled(
                    output_path@,
                    nominal_extension@,
                    raw_bytes@,
                    jpeg_rendering(
                        raw_bytes@,
                        format_to_decode(nominal, sniffed_format(raw_bytes@)),
                    ),
                    sniffed_format(raw_bytes@) is None,
                    normalized,
                )
            },
            Err(error) => error == NormalizeError::UnknownExtension && nominal_format_of(
                nominal_extension@,
            ) is None,
        },
{
    let nominal = match nominal_format(nominal_extension) {
        Some(format) => format,
        None => {
            return Err(NormalizeError::UnknownExtension);
        },
    };
    let sniffed = sniff_format(raw_bytes);
    let format_unknown = sniffed.is_none();
    let format = resolve_format(nominal, sniffed);
    let rendering = render_jpeg(raw_bytes, format);
    Ok(settle(output_path, nominal_extension, raw_bytes, rendering, format_unknown))
}

} // verus!
