use vstd::prelude::*;

verus! {

/// The 8-byte signature that opens every PNG stream.
pub open spec fn png_signature() -> Seq<u8> {
    seq![137u8, 80u8, 78u8, 71u8, 13u8, 10u8, 26u8, 10u8]
}

/// Whether a byte sequence opens with the PNG signature.
pub open spec fn starts_with_png(b: Seq<u8>) -> bool {
    b.len() >= 8 && b.subrange(0, 8) == png_signature()
}

/// Declared so decoded images can pass through verified code; the value is
/// opaque here.
#[verifier::external_type_specification]
#[verifier::external_body]
pub struct ExDynamicImage(image::DynamicImage);

/// Why a local `.image` send was refused; reported to the user, nothing is
/// sent, and the writer loop goes on.
#[derive(Debug, Clone, Copy, PartialEq)]
pub enum ImageConvertError {
    /// The bytes decode as no supported image format.
    Undecodable,
    /// Re-encoding the decoded image to PNG failed.
    EncodeFailed,
    /// The converted image does not fit one frame.
    Oversize,
}

/// Whether image::load_from_memory decodes these bytes; a property of the
/// bytes alone.
pub uninterp spec fn image_decodable(b: Seq<u8>) -> bool;

/// Relies on image::load_from_memory: decodes the bytes as an image exactly
/// when they hold a decodable image of a supported format. Nothing is
/// assumed of the decoded value.
#[verifier::external_body]
fn decode_image(data: &[u8]) -> (r: Option<image::DynamicImage>)
    ensures
        r is Some <==> image_decodable(data@),
{
    image::load_from_memory(data).ok()
}

/// Relies on image::guess_format, whose magic-byte table is headed by the
/// PNG entry, matched with starts_with: it answers Png exactly when the
/// buffer opens with the 8-byte PNG signature.
#[verifier::external_body]
fn looks_like_png(data: &[u8]) -> (r: bool)
    ensures
        r == starts_with_png(data@),
{
    matches!(image::guess_format(data), Ok(image::ImageFormat::Png))
}

/// Relies on DynamicImage::write_to with ImageFormat::Png: on success the
/// bytes written form one PNG stream, which opens with the PNG signature.
#[verifier::external_body]
fn encode_png(img: &image::DynamicImage) -> (r: Option<Vec<u8>>)
    ensures
        r matches Some(b) ==> starts_with_png(b@),
{
    let mut out = std::io::Cursor::new(Vec::new());
    match img.write_to(&mut out, image::ImageFormat::Png) {
        Ok(()) => Some(out.into_inner()),
        Err(_) => None,
    }
}

/// Normalizes loaded image bytes to PNG, as the writer loop's `.image`
/// command asks: decodable bytes already in PNG form pass through unchanged,
/// any other decodable image is re-encoded to PNG, and undecodable data is
/// refused. Whatever succeeds opens with the PNG signature.
pub fn convert_to_png(data: Vec<u8>) -> (r: Result<Vec<u8>, ImageConvertError>)
    ensures
        r matches Ok(b) ==> image_decodable(data@) && starts_with_png(b@) && (starts_with_png(
            data@,
        ) ==> b@ == data@),
        image_decodable(data@) && starts_with_png(data@) ==> (r matches Ok(b) && b@ == data@),
        r matches Err(e) ==> (e == ImageConvertError::Undecodable <==> !image_decodable(data@)),
        r matches Err(e) ==> (e == ImageConvertError::EncodeFailed ==> image_decodable(data@)
            && !starts_with_png(data@)),
        r matches Err(e) ==> e != ImageConvertError::Oversize,
{
    match decode_image(data.as_slice()) {
        None => Err(ImageConvertError::Undecodable),
        Some(im) => {
            if looks_like_png(data.as_slice()) {
                Ok(data)
            } else {
                match encode_png(&im) {
                    Some(b) => Ok(b),
                    None => Err(ImageConvertError::EncodeFailed),
                }
            }
        },
    }
}

} // verus!
