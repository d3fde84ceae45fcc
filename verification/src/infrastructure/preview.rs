//! Small pictures of the images that are offered.

use super::filesystem::{file_kind, MAX_PREVIEW_BYTES};
use super::preparation::{image_path, preview_parts};
use crate::domain::FileKind;
use crate::error::{ErrorModel, TransferError};
use crate::text::joined;
use vstd::prelude::*;
use vstd::string::*;

verus! {

/// The longest side of a preview, in pixels.
pub const PREVIEW_SIDE: u32 = 256;

/// The quality of a preview, out of a hundred.
pub const PREVIEW_QUALITY: u8 = 78;

/// The most memory that reading an image may take, in bytes.
pub const MAX_IMAGE_MEMORY: u64 = 32 * 1024 * 1024;

/// The longest side of an image that is read, in pixels.
pub const MAX_IMAGE_SIDE: u32 = 16_384;

/// An image in rows of three bytes a pixel: red, green and blue.
#[derive(Debug, PartialEq, Eq)]
pub struct Picture {
    pub width: u32,
    pub height: u32,
    pub pixels: Vec<u8>,
}

impl Picture {
    /// There are as many bytes as the sides call for.
    pub open spec fn wf(self) -> bool {
        self.pixels@.len() == 3 * (self.width * self.height)
    }
}

/// The JPEG file of an image in rows of three bytes a pixel, or why there is
/// none.
pub uninterp spec fn jpeg_file(width: u32, height: u32, pixels: Seq<u8>, quality: u8) -> Result<
    Seq<u8>,
    Seq<char>,
>;

/// Whether the contents of a file at a path may read as that picture, scaled to
/// fit a square of a side, under limits on the memory and on the sides of the
/// image; or may fail to read with that text.
pub uninterp spec fn may_read(
    path: Seq<char>,
    contents: Seq<u8>,
    max_alloc: u64,
    max_side: u32,
    side: u32,
    read: Result<(u32, u32, Seq<u8>), Seq<char>>,
) -> bool;

/// A picture that was read as plain values, or the text of the failure.
pub open spec fn read_parts(read: Result<Picture, String>) -> Result<
    (u32, u32, Seq<u8>),
    Seq<char>,
> {
    match read {
        Ok(picture) => Ok((picture.width, picture.height, picture.pixels@)),
        Err(text) => Err(text@),
    }
}

/// `ImageReader::decode` and `DynamicImage::thumbnail`: the image that the
/// contents of a file hold, whose format is told by its first bytes, or else by
/// the extension of its path as `ImageReader::open` tells it, scaled to fit a
/// square, at least one pixel wide and high, in rows of three bytes a pixel; or
/// the text of the failure, where it is none that can be read within the limits.
///
/// Which of the possible outcomes comes out depends on the instructions that the
/// machine has, so no more is said than that it is one of them for this file and
/// these limits. Scaling adds up the pixels that become one, and an image more
/// than sixty-four times as large as the square could have too many of them.
#[verifier::external_body]
fn read_picture(path: &str, contents: Vec<u8>, max_alloc: u64, max_side: u32, side: u32) -> (result:
    Result<Picture, String>)
    requires
        1 <= side <= 4_096,
        max_side <= 64 * side,
    ensures
        may_read(path@, contents@, max_alloc, max_side, side, read_parts(result)),
        result matches Ok(picture) ==> picture.wf() && 1 <= picture.width <= side && 1
            <= picture.height <= side,
{
    let mut limits = image::Limits::default();
    limits.max_alloc = Some(max_alloc);
    limits.max_image_width = Some(max_side);
    limits.max_image_height = Some(max_side);
    let mut reader = image::ImageReader::new(std::io::Cursor::new(contents));
    if let Ok(format) = image::ImageFormat::from_path(path) {
        reader.set_format(format);
    }
    let mut reader = reader.with_guessed_format().map_err(|error| error.to_string())?;
    reader.limits(limits);
    let image = reader.decode().map_err(|error| error.to_string())?;
    let small = image.thumbnail(side, side).to_rgb8();
    Ok(Picture { width: small.width(), height: small.height(), pixels: small.into_raw() })
}

/// `JpegEncoder::encode` of an image in rows of three bytes a pixel: its JPEG
/// file of a quality, or the text of the failure. There is a file whenever both
/// sides have between one and 65535 pixels.
#[verifier::external_body]
fn encode_jpeg(picture: &Picture, quality: u8) -> (result: Result<Vec<u8>, String>)
    requires
        picture.wf(),
    ensures
        match result {
            Ok(file) => jpeg_file(picture.width, picture.height, picture.pixels@, quality) == Ok::<
                _,
                Seq<char>,
            >(file@),
            Err(text) => jpeg_file(picture.width, picture.height, picture.pixels@, quality) == Err::<
                Seq<u8>,
                _,
            >(text@),
        },
        1 <= picture.width <= 65_535 && 1 <= picture.height <= 65_535 ==> result is Ok,
{
    let mut file: Vec<u8> = Vec::new();
    image::codecs::jpeg::JpegEncoder::new_with_quality(&mut file, quality)
        .encode(&picture.pixels, picture.width, picture.height, image::ExtendedColorType::Rgb8)
        .map_err(|error| error.to_string())?;
    Ok(file)
}

/// The preview that a JPEG file makes: none where it is too large.
pub open spec fn bounded(file: Seq<u8>) -> Option<(Seq<char>, Seq<u8>)> {
    if file.len() > MAX_PREVIEW_BYTES {
        None
    } else {
        Some(("image/jpeg"@, file))
    }
}

/// The preview that a JPEG file makes: none where it is too large, and an error
/// where there is no file.
pub fn bounded_preview(encoded: Result<Vec<u8>, String>) -> (result: Result<
    Option<(String, Vec<u8>)>,
    TransferError,
>)
    ensures
        match encoded {
            Ok(file) => result matches Ok(preview) && preview_parts(preview) == bounded(file@),
            Err(text) => crate::error::outcome(result) == Err::<(), _>(
                ErrorModel::Invalid("encode image preview: "@ + text@),
            ),
        },
{
    match encoded {
        Ok(file) => {
            if file.len() > MAX_PREVIEW_BYTES {
                return Ok(None);
            }
            Ok(Some(("image/jpeg".to_owned(), file)))
        },
        Err(text) => Err(TransferError::Invalid(joined("encode image preview: ", text.as_str()))),
    }
}

/// What comes of a picture that was read, or of the text of the failure.
pub open spec fn picture_outcome(read: Result<Picture, String>) -> Result<
    Option<(Seq<char>, Seq<u8>)>,
    ErrorModel,
> {
    match read {
        Ok(picture) => match jpeg_file(
            picture.width,
            picture.height,
            picture.pixels@,
            PREVIEW_QUALITY,
        ) {
            Ok(file) => Ok(bounded(file)),
            Err(text) => Err(ErrorModel::Invalid("encode image preview: "@ + text)),
        },
        Err(text) => Err(ErrorModel::Invalid("decode image preview: "@ + text@)),
    }
}

/// A preview as plain values, or why there is none.
pub open spec fn preview_result(result: Result<Option<(String, Vec<u8>)>, TransferError>) -> Result<
    Option<(Seq<char>, Seq<u8>)>,
    ErrorModel,
> {
    match result {
        Ok(preview) => Ok(preview_parts(preview)),
        Err(error) => Err(error@),
    }
}

/// The preview that a picture makes: its JPEG file with the media type, or none
/// where that is too large; and an error where no picture was read.
pub fn picture_preview(read: Result<Picture, String>) -> (result: Result<
    Option<(String, Vec<u8>)>,
    TransferError,
>)
    requires
        read matches Ok(picture) ==> picture.wf(),
    ensures
        preview_result(result) == picture_outcome(read),
{
    match read {
        Ok(picture) => bounded_preview(encode_jpeg(&picture, PREVIEW_QUALITY)),
        Err(text) => Err(TransferError::Invalid(joined("decode image preview: ", text.as_str()))),
    }
}

/// Whether a picture that was read fits a preview.
pub open spec fn fits_preview(read: Result<Picture, String>) -> bool {
    read matches Ok(picture) ==> {
        &&& picture.wf()
        &&& 1 <= picture.width <= PREVIEW_SIDE
        &&& 1 <= picture.height <= PREVIEW_SIDE
    }
}

/// What may come of making a preview of the contents of the file at a path:
/// what comes of a picture as which these contents may read, within the limits
/// for images and scaled to the side of a preview; or of the text with which
/// they may fail to.
pub open spec fn preview_outcome(
    path: Seq<char>,
    contents: Result<Vec<u8>, TransferError>,
    result: Result<Option<(String, Vec<u8>)>, TransferError>,
) -> bool {
    match contents {
        Err(error) => preview_result(result) == Err::<Option<(Seq<char>, Seq<u8>)>, _>(error@),
        Ok(bytes) => exists|read: Result<Picture, String>|
            {
                &&& may_read(
                    path,
                    bytes@,
                    MAX_IMAGE_MEMORY,
                    MAX_IMAGE_SIDE,
                    PREVIEW_SIDE,
                    read_parts(read),
                )
                &&& fits_preview(read)
                &&& preview_result(result) == #[trigger] picture_outcome(read)
            },
    }
}

/// A small JPEG picture of the image at a path, with its media type; none where
/// the path is not that of an image, or the picture is too large. `read` gives
/// the contents of the file; a file that is no image is not read.
pub fn image_thumbnail<F: Fn() -> Result<Vec<u8>, TransferError>>(path: &str, read: F) -> (result:
    Result<Option<(String, Vec<u8>)>, TransferError>)
    requires
        image_path(path@) ==> read.requires(()),
    ensures
        !image_path(path@) ==> result matches Ok(None),
        image_path(path@) ==> exists|contents: Result<Vec<u8>, TransferError>| #[trigger]
            read.ensures((), contents) && preview_outcome(path@, contents, result),
        result matches Ok(Some((media_type, data))) ==> media_type@ == "image/jpeg"@ && data@.len()
            <= MAX_PREVIEW_BYTES,
{
    match file_kind(path) {
        FileKind::Image => {},
        _ => {
            return Ok(None);
        },
    }
    let contents = match read() {
        Ok(contents) => contents,
        Err(error) => {
            return Err(error);
        },
    };
    let picture = read_picture(path, contents, MAX_IMAGE_MEMORY, MAX_IMAGE_SIDE, PREVIEW_SIDE);
    assert(fits_preview(picture));
    picture_preview(picture)
}

/// A JPEG file of at most 64 KiB is the preview, whole and as JPEG; a larger one
/// makes none.
pub proof fn a_small_file_is_the_preview(file: Seq<u8>)
    ensures
        bounded(file) is Some <==> file.len() <= 65536,
        bounded(file) matches Some((media_type, data)) ==> data == file && media_type
            == "image/jpeg"@,
{
}

/// What comes of a picture: the file that it is encoded as at quality 78, and
/// why there is none where it could not be read or encoded.
pub proof fn a_picture_becomes_its_file(picture: Picture, file: Seq<u8>, text: Seq<char>)
    ensures
        jpeg_file(picture.width, picture.height, picture.pixels@, 78) == Ok::<_, Seq<char>>(file)
            && file.len() <= 65536 ==> picture_outcome(Ok(picture)) == Ok::<_, ErrorModel>(
            Some(("image/jpeg"@, file)),
        ),
        jpeg_file(picture.width, picture.height, picture.pixels@, 78) == Ok::<_, Seq<char>>(file)
            && file.len() > 65536 ==> picture_outcome(Ok(picture)) == Ok::<
            Option<(Seq<char>, Seq<u8>)>,
            ErrorModel,
        >(None),
        jpeg_file(picture.width, picture.height, picture.pixels@, 78) == Err::<Seq<u8>, _>(text)
            ==> (picture_outcome(Ok(picture)) matches Err(error) && error is Invalid),
{
}

/// A preview is made of nothing but what the file's own contents may read as,
/// within 32 MiB of memory and 16384 pixels a side, scaled to at most 256 pixels
/// a side; where the file cannot be read, that is the failure.
pub proof fn a_preview_is_of_the_file_itself(
    path: Seq<char>,
    contents: Vec<u8>,
    failure: TransferError,
    result: Result<Option<(String, Vec<u8>)>, TransferError>,
)
    ensures
        preview_outcome(path, Err(failure), result) ==> (result matches Err(error) && error@
            == failure@),
        preview_outcome(path, Ok(contents), result) ==> exists|read: Result<Picture, String>|
            {
                &&& may_read(path, contents@, 33_554_432, 16_384, 256, read_parts(read))
                &&& read matches Ok(picture) ==> picture.width <= 256 && picture.height <= 256
                &&& preview_result(result) == #[trigger] picture_outcome(read)
            },
{
}

} // verus!
