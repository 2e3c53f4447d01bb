//! Turning the bytes of a source image into the bytes of a WebP file.
//!
//! Decoding and encoding are the work of the `image` crate and are not verified
//! here. Each gives, for the same input, the same result; these results have names,
//! [`decoded`] and [`encoded`], and what this module proves is stated over them:
//! when a conversion succeeds, with which bytes, and which failure it ends in
//! otherwise.

use crate::error::{ConversionError, ConversionErrorKind, Fault};
use crate::format::SourceFormat;
use crate::path::{path_format_of, FilePath, PathText};
use crate::plan::refusal_detail;
use vstd::prelude::*;

verus! {

/// Declares `image::DynamicImage`, a picture in memory. Nothing is known of what it
/// holds; it is only carried from the decoder to the encoder.
#[verifier::external_type_specification]
#[verifier::external_body]
pub struct ExDynamicImage(image::DynamicImage);

/// Declares `image::ImageError`, the error of the decoder and the encoder. Nothing is
/// known of what it holds; it is only turned into text.
#[verifier::external_type_specification]
#[verifier::external_body]
pub struct ExImageError(image::ImageError);

/// Whether bytes begin as a WebP file does: the tag `RIFF`, four bytes of length, and
/// the tag `WEBP`.
pub open spec fn has_webp_signature(bytes: Seq<u8>) -> bool {
    &&& bytes.len() >= 12
    &&& bytes[0] == 0x52
    &&& bytes[1] == 0x49
    &&& bytes[2] == 0x46
    &&& bytes[3] == 0x46
    &&& bytes[8] == 0x57
    &&& bytes[9] == 0x45
    &&& bytes[10] == 0x42
    &&& bytes[11] == 0x50
}

/// Why bytes could not be turned into WebP.
#[derive(Debug, PartialEq, Eq)]
pub enum CodecFailure {
    /// The source bytes are no image of the stated format.
    Decode { detail: String },
    /// The decoded image could not be written as WebP.
    Encode { detail: String },
}

/// A codec failure as a value of specifications.
pub enum CodecFailureText {
    Decode { detail: Seq<char> },
    Encode { detail: Seq<char> },
}

impl View for CodecFailure {
    type V = CodecFailureText;

    open spec fn view(&self) -> CodecFailureText {
        match self {
            CodecFailure::Decode { detail } => CodecFailureText::Decode { detail: detail@ },
            CodecFailure::Encode { detail } => CodecFailureText::Encode { detail: detail@ },
        }
    }
}

/// What `image::load_from_memory_with_format` gives for the given bytes read as the
/// given format: the picture, or the error of the decoder.
pub uninterp spec fn decoded(bytes: Seq<u8>, format: SourceFormat) -> Result<
    image::DynamicImage,
    image::ImageError,
>;

/// What `image::DynamicImage::write_to` with the WebP format writes for the given
/// picture: the bytes of the file, or the error of the encoder.
pub uninterp spec fn encoded(picture: image::DynamicImage) -> Result<Seq<u8>, image::ImageError>;

/// Calls `image::load_from_memory_with_format`: decodes `bytes` as an image of the
/// given format. Claimed: the result depends on the bytes and the format alone. The
/// decoder reads nothing else, and returns an error for bytes it cannot read.
#[verifier::external_body]
fn decode(bytes: &[u8], format: SourceFormat) -> (res: Result<image::DynamicImage, image::ImageError>)
    ensures
        res == decoded(bytes@, format),
{
    let format = match format {
        SourceFormat::Png => image::ImageFormat::Png,
        SourceFormat::Jpeg => image::ImageFormat::Jpeg,
        SourceFormat::Bmp => image::ImageFormat::Bmp,
    };
    image::load_from_memory_with_format(bytes, format)
}

/// Calls `image::DynamicImage::write_to` with the WebP format on a buffer in memory.
/// Asked of the picture: that the decoder has made it. The encoder stops the program
/// on a picture whose samples are not exactly as many as its width and height need;
/// the decoder makes none such. Claimed: the result depends on the picture alone;
/// and a successful result begins with the RIFF tag and, after four bytes of length,
/// the WEBP tag, as the encoder writes them before any chunk.
#[verifier::external_body]
fn encode_webp(picture: &image::DynamicImage) -> (res: Result<Vec<u8>, image::ImageError>)
    requires
        from_decoder(*picture),
    ensures
        res matches Ok(bytes) ==> has_webp_signature(bytes@),
        match res {
            Ok(bytes) => encoded(*picture) == Ok::<Seq<u8>, image::ImageError>(bytes@),
            Err(error) => encoded(*picture) == Err::<Seq<u8>, image::ImageError>(error),
        },
{
    let mut out = std::io::Cursor::new(Vec::new());
    picture.write_to(&mut out, image::ImageFormat::WebP)?;
    Ok(out.into_inner())
}

/// Calls `to_string` on an `image::ImageError`: the error as the `image` crate words
/// it. Nothing is claimed of the text.
#[verifier::external_body]
fn error_text(error: &image::ImageError) -> (res: String) {
    error.to_string()
}

/// Whether a picture is one that the decoder has made of some bytes.
pub open spec fn from_decoder(picture: image::DynamicImage) -> bool {
    exists|bytes: Seq<u8>, format: SourceFormat| #[trigger]
        decoded(bytes, format) == Ok::<image::DynamicImage, image::ImageError>(picture)
}

/// A decoded picture. Only [`Picture::decode`] makes one, so every picture is one
/// that the decoder has made, and the encoder can take it.
pub struct Picture {
    inner: image::DynamicImage,
}

impl View for Picture {
    type V = image::DynamicImage;

    closed spec fn view(&self) -> image::DynamicImage {
        self.inner
    }
}

/// The result of decoding as a value of specifications.
pub open spec fn picture_text(res: Result<Picture, image::ImageError>) -> Result<
    image::DynamicImage,
    image::ImageError,
> {
    match res {
        Ok(picture) => Ok(picture@),
        Err(error) => Err(error),
    }
}

impl Picture {
    #[verifier::type_invariant]
    spec fn sound(self) -> bool {
        from_decoder(self.inner)
    }

    /// Decodes `bytes` as an image of the given format.
    pub fn decode(bytes: &[u8], format: SourceFormat) -> (res: Result<Picture, image::ImageError>)
        ensures
            picture_text(res) == decoded(bytes@, format),
    {
        match decode(bytes, format) {
            Ok(inner) => Ok(Picture { inner }),
            Err(error) => Err(error),
        }
    }
}

/// Decodes `bytes` as an image of the given format and encodes the image as WebP.
/// Bytes that the decoder refuses give a decode failure; a picture that the encoder
/// refuses gives an encode failure; otherwise the bytes that the encoder wrote come
/// back, and they begin as a WebP file does.
pub fn recode(bytes: &[u8], format: SourceFormat) -> (res: Result<Vec<u8>, CodecFailure>)
    ensures
        recoded_as(decoded(bytes@, format), coded_text(res)),
        res matches Ok(out) ==> has_webp_signature(out@),
{
    after_decoding(Picture::decode(bytes, format))
}

/// What becomes of the decoder's result: its error is a decode failure, and its
/// picture is handed to the encoder, whose result is settled by [`after_encoding`].
pub fn after_decoding(decoded: Result<Picture, image::ImageError>) -> (res: Result<
    Vec<u8>,
    CodecFailure,
>)
    ensures
        recoded_as(picture_text(decoded), coded_text(res)),
        res matches Ok(out) ==> has_webp_signature(out@),
{
    match decoded {
        Err(error) => Err(CodecFailure::Decode { detail: error_text(&error) }),
        Ok(picture) => {
            proof {
                use_type_invariant(&picture);
            }
            after_encoding(encode_webp(&picture.inner))
        },
    }
}

/// What becomes of the encoder's result: its bytes are handed on as they are, and
/// its error is an encode failure.
pub fn after_encoding(encoded: Result<Vec<u8>, image::ImageError>) -> (res: Result<
    Vec<u8>,
    CodecFailure,
>)
    ensures
        match encoded {
            Ok(out) => res matches Ok(bytes) && bytes == out,
            Err(_) => res matches Err(failure) && failure is Encode,
        },
{
    match encoded {
        Ok(out) => Ok(out),
        Err(error) => Err(CodecFailure::Encode { detail: error_text(&error) }),
    }
}

/// The result of the codec as a value of specifications.
pub open spec fn coded_text(res: Result<Vec<u8>, CodecFailure>) -> Result<Seq<u8>, CodecFailureText> {
    match res {
        Ok(out) => Ok(out@),
        Err(failure) => Err(failure@),
    }
}

/// Whether `res` is what a conversion gives where the decoder gave `decoded`: a
/// decode failure for the decoder's error; for its picture the bytes that the
/// encoder writes, or an encode failure where the encoder gives an error. The
/// wording of a failure is left open.
pub open spec fn recoded_as(
    decoded: Result<image::DynamicImage, image::ImageError>,
    res: Result<Seq<u8>, CodecFailureText>,
) -> bool {
    match decoded {
        Err(_) => res matches Err(failure) && failure is Decode,
        Ok(picture) => match encoded(picture) {
            Ok(out) => res == Ok::<Seq<u8>, CodecFailureText>(out),
            Err(_) => res matches Err(failure) && failure is Encode,
        },
    }
}

/// Whether `res` is what converting a file gives where the decoder gave `decoded`:
/// the bytes that the encoder writes, a decode failure that names `source`, or an
/// encode failure that names `target`.
pub open spec fn converted_as(
    decoded: Result<image::DynamicImage, image::ImageError>,
    source: PathText,
    target: PathText,
    res: Result<Seq<u8>, Fault<ConversionErrorKind>>,
) -> bool {
    match decoded {
        Err(_) => res matches Err(fault) && fault.kind == ConversionErrorKind::DecodeFailure
            && fault.path == source,
        Ok(picture) => match encoded(picture) {
            Ok(out) => res == Ok::<Seq<u8>, Fault<ConversionErrorKind>>(out),
            Err(_) => res matches Err(fault) && fault.kind == ConversionErrorKind::EncodeFailure
                && fault.path == target,
        },
    }
}

/// The same source converts alike every time: two results for one result of the
/// decoder both succeed or both fail, with the same bytes where they succeed and at
/// the same step where they fail.
pub proof fn lemma_same_source_converts_alike(
    decoded: Result<image::DynamicImage, image::ImageError>,
    first: Result<Seq<u8>, CodecFailureText>,
    second: Result<Seq<u8>, CodecFailureText>,
)
    requires
        recoded_as(decoded, first),
        recoded_as(decoded, second),
    ensures
        first is Ok <==> second is Ok,
        first is Ok ==> first == second,
        first matches Err(failure) ==> (second matches Err(other) && (failure is Decode <==> other
            is Decode)),
{
}

/// A source that the decoder reads and the encoder writes is converted: the result
/// is the encoder's bytes, and no failure.
pub proof fn lemma_readable_source_is_converted(
    decoded: Result<image::DynamicImage, image::ImageError>,
    res: Result<Seq<u8>, CodecFailureText>,
)
    requires
        recoded_as(decoded, res),
        decoded matches Ok(picture) && encoded(picture) is Ok,
    ensures
        res == Ok::<Seq<u8>, CodecFailureText>(encoded(decoded->Ok_0)->Ok_0),
{
}

/// The result of converting a file as a value of specifications.
pub open spec fn converted_text(res: Result<Vec<u8>, ConversionError>) -> Result<
    Seq<u8>,
    Fault<ConversionErrorKind>,
> {
    match res {
        Ok(out) => Ok(out@),
        Err(error) => Err(error@),
    }
}

/// The error that a codec failure is for a conversion from `source` to `target`: a
/// decode failure names the source, an encode failure the target.
pub open spec fn fault_of(
    failure: CodecFailureText,
    source: PathText,
    target: PathText,
) -> Fault<ConversionErrorKind> {
    match failure {
        CodecFailureText::Decode { detail } => Fault {
            kind: ConversionErrorKind::DecodeFailure,
            path: source,
            detail,
        },
        CodecFailureText::Encode { detail } => Fault {
            kind: ConversionErrorKind::EncodeFailure,
            path: target,
            detail,
        },
    }
}

/// States a codec failure as the error of a conversion from `source` to `target`.
pub fn conversion_error(failure: &CodecFailure, source: &FilePath, target: &FilePath) -> (res:
    ConversionError)
    ensures
        res@ == fault_of(failure@, source@, target@),
{
    match failure {
        CodecFailure::Decode { detail } => ConversionError::new(
            ConversionErrorKind::DecodeFailure,
            source,
            detail.as_str(),
        ),
        CodecFailure::Encode { detail } => ConversionError::new(
            ConversionErrorKind::EncodeFailure,
            target,
            detail.as_str(),
        ),
    }
}

/// Converts the bytes of one file: checks the extension of `input_path`, decodes
/// `bytes` as the format it stands for, and encodes the image as WebP. What comes
/// back is to be written to `output_path`.
///
/// A path without a supported extension is refused before the bytes are looked at.
/// Otherwise bytes that the decoder refuses give a decode failure that names
/// `input_path`, a picture that the encoder refuses gives an encode failure that
/// names `output_path`, and any other input gives the bytes that the encoder wrote.
pub fn convert_one(input_path: &FilePath, output_path: &FilePath, bytes: &[u8]) -> (res: Result<
    Vec<u8>,
    ConversionError,
>)
    ensures
        path_format_of(input_path@) is None ==> (res matches Err(error) && error@ == (Fault {
            kind: ConversionErrorKind::UnsupportedExtension,
            path: input_path@,
            detail: refusal_detail(ConversionErrorKind::UnsupportedExtension),
        })),
        path_format_of(input_path@) matches Some(format) ==> converted_as(
            decoded(bytes@, format),
            input_path@,
            output_path@,
            converted_text(res),
        ),
        res matches Ok(out) ==> has_webp_signature(out@),
{
    match input_path.format() {
        None => Err(
            ConversionError::new(
                ConversionErrorKind::UnsupportedExtension,
                input_path,
                "seuls les fichiers png, jpg, jpeg et bmp peuvent être convertis",
            ),
        ),
        Some(format) => match recode(bytes, format) {
            Ok(out) => Ok(out),
            Err(failure) => Err(conversion_error(&failure, input_path, output_path)),
        },
    }
}

} // verus!
