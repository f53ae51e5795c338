//! Decoding of the images that conversion strategies read, by the `image`
//! crate.

use crate::location::{extension_of, SourceLocation};
use vstd::prelude::*;
use vstd::string::*;

verus! {

/// `image::DynamicImage`, a decoded image. It is handed on as it came.
#[verifier::external_type_specification]
#[verifier::external_body]
pub struct ExDynamicImage(image::DynamicImage);

/// `image::ImageFormat`, the name of an encoding. It is handed on as it
/// came.
#[verifier::external_type_specification]
#[verifier::external_body]
pub struct ExImageFormat(image::ImageFormat);

/// `image::ImageError`, the decoder's account of a failure. It is handed on
/// as it came.
#[verifier::external_type_specification]
#[verifier::external_body]
pub struct ExImageError(image::ImageError);

/// Whether `image::ImageFormat::from_extension` knows a format for
/// `extension`.
pub uninterp spec fn image_format_known(extension: Seq<char>) -> bool;

/// Calls `image::ImageFormat::from_extension`.
///
/// Trusted: a format comes back exactly for the extensions that
/// `image_format_known` names. Which format it is, is not said.
#[verifier::external_body]
fn format_from_extension(extension: &str) -> (format: Option<image::ImageFormat>)
    ensures
        format is Some <==> image_format_known(extension@),
{
    image::ImageFormat::from_extension(extension)
}

/// Whether `image::load_from_memory` decodes `data`.
pub uninterp spec fn image_decodes(data: Seq<u8>) -> bool;

/// Calls `image::load_from_memory`, which guesses the format from the first
/// bytes.
///
/// Trusted: it gives an image exactly where `image_decodes` says so. What
/// the image or the error holds is not said.
#[verifier::external_body]
fn load_guessing_format(data: &[u8]) -> (loaded: Result<image::DynamicImage, image::ImageError>)
    ensures
        loaded is Ok <==> image_decodes(data@),
{
    image::load_from_memory(data)
}

/// The path's extension says which format the image has.
pub open spec fn has_format_hint(path: Seq<char>) -> bool {
    extension_of(path) matches Some(extension) && image_format_known(extension)
}

/// An image that could not be decoded.
#[derive(Debug)]
pub struct ImageLoadError {
    /// Where the bytes came from.
    pub location: SourceLocation,
    /// Whether the format was taken from the extension, not guessed.
    pub hinted: bool,
    pub cause: image::ImageError,
}

impl ImageLoadError {
    /// The failure in words, for the user.
    pub fn message(&self) -> (text: String)
        ensures
            text@ == "Failed to load image "@ + self.location@.path,
    {
        String::from_str("Failed to load image ").concat(self.location.path())
    }
}

/// The format that the extension of `url` stands for, if it has an
/// extension and that extension is known.
pub fn format_hint(url: &SourceLocation) -> (format: Option<image::ImageFormat>)
    ensures
        format is Some <==> has_format_hint(url@.path),
{
    match url.extension() {
        Some(extension) => format_from_extension(extension.as_str()),
        None => None,
    }
}

/// What a decoding attempt comes to: the image as it was decoded, or the
/// failure together with where the bytes came from and how they were read.
pub fn decode_outcome(
    url: &SourceLocation,
    hinted: bool,
    loaded: Result<image::DynamicImage, image::ImageError>,
) -> (outcome: Result<image::DynamicImage, ImageLoadError>)
    ensures
        match loaded {
            Ok(image) => outcome == Ok::<image::DynamicImage, ImageLoadError>(image),
            Err(cause) => outcome matches Err(error) && error.location@ == url@ && error.hinted
                == hinted && error.cause == cause,
        },
{
    match loaded {
        Ok(image) => Ok(image),
        Err(cause) => Err(ImageLoadError { location: url.clone(), hinted, cause }),
    }
}

/// Decodes the bytes `data` that were read from `url`. The format is taken
/// from the extension of `url` where that is known, and guessed from the
/// bytes otherwise. An image comes back exactly where the decoder that was
/// asked accepts the bytes; a failure names `url` and says which of the two
/// ways was taken.
pub fn decode_image(url: &SourceLocation, data: &[u8]) -> (decoded: Result<
    image::DynamicImage,
    ImageLoadError,
>)
    ensures
        decoded is Ok <==> decodes(url@.path, data@),
        decoded matches Err(error) ==> error.location@ == url@ && error.hinted == has_format_hint(
            url@.path,
        ),
{
    let hinted = match url.extension() {
        Some(extension) => load_by_extension(data, extension.as_str()),
        None => None,
    };
    match hinted {
        Some(loaded) => decode_outcome(url, true, loaded),
        None => decode_outcome(url, false, load_guessing_format(data)),
    }
}

/// The bytes `data`, read from `path`, decode: in the format of the path's
/// extension where that is known, else in the format that the bytes
/// themselves show.
pub open spec fn decodes(path: Seq<char>, data: Seq<u8>) -> bool {
    match extension_of(path) {
        Some(extension) => if image_format_known(extension) {
            image_decodes_as(data, extension)
        } else {
            image_decodes(data)
        },
        None => image_decodes(data),
    }
}

/// Whether `image::load_from_memory_with_format` decodes `data`, asked for
/// the format that `image::ImageFormat::from_extension` gives for
/// `extension`.
pub uninterp spec fn image_decodes_as(data: Seq<u8>, extension: Seq<char>) -> bool;

/// Asks `image::ImageFormat::from_extension` for the format of `extension`
/// and, where it knows one, calls `image::load_from_memory_with_format` with
/// it.
///
/// Trusted: the call is made exactly for the extensions that
/// `image_format_known` names, and it gives an image exactly where
/// `image_decodes_as` says so. What the image or the error holds is not
/// said.
#[verifier::external_body]
fn load_by_extension(data: &[u8], extension: &str) -> (loaded: Option<
    Result<image::DynamicImage, image::ImageError>,
>)
    ensures
        loaded is Some <==> image_format_known(extension@),
        loaded matches Some(outcome) ==> (outcome is Ok <==> image_decodes_as(
            data@,
            extension@,
        )),
{
    let format = image::ImageFormat::from_extension(extension)?;
    Some(image::load_from_memory_with_format(data, format))
}

} // verus!
