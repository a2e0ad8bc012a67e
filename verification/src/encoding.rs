//! JPEG data URLs of RGBA images, used to hand screenshots to web views.
use vstd::prelude::*;
use vstd::string::StringExecFns;

verus! {

/// Character of the standard base64 alphabet for a 6-bit value.
pub open spec fn base64_char(v: int) -> char {
    if v < 26 {
        (65 + v) as char
    } else if v < 52 {
        (97 + v - 26) as char
    } else if v < 62 {
        (48 + v - 52) as char
    } else if v == 62 {
        '+'
    } else {
        '/'
    }
}

/// Standard base64 (RFC 4648 alphabet, `=` padding) of a byte sequence.
pub open spec fn base64_standard(s: Seq<u8>) -> Seq<char>
    decreases s.len(),
{
    if s.len() == 0 {
        Seq::empty()
    } else {
        let b0 = s[0] as int;
        let b1 = if s.len() > 1 { s[1] as int } else { 0 };
        let b2 = if s.len() > 2 { s[2] as int } else { 0 };
        let c0 = base64_char(b0 / 4);
        let c1 = base64_char((b0 % 4) * 16 + b1 / 16);
        let c2 = base64_char((b1 % 16) * 4 + b2 / 64);
        let c3 = base64_char(b2 % 64);
        if s.len() == 1 {
            seq![c0, c1, '=', '=']
        } else if s.len() == 2 {
            seq![c0, c1, c2, '=']
        } else {
            seq![c0, c1, c2, c3] + base64_standard(s.subrange(3, s.len() as int))
        }
    }
}

/// `base64::engine::general_purpose::STANDARD.encode(bytes)`: the crate's
/// standard engine encodes with the standard alphabet and `=` padding, as
/// `base64_standard` states.  It panics when the output length overflows
/// `usize`, which the precondition excludes.
#[verifier::external_body]
fn base64_encode(bytes: &[u8]) -> (res: String)
    requires
        bytes@.len() / 3 * 4 + 4 <= usize::MAX,
    ensures
        res@ == base64_standard(bytes@),
{
    base64::Engine::encode(&base64::engine::general_purpose::STANDARD, bytes)
}

/// The JPEG file the image crate writes for an RGBA pixel buffer, when it
/// can (a name: the encoder's output is not stated here).
pub uninterp spec fn jpeg_encoding(pixels: Seq<u8>, width: u32, height: u32) -> Option<Seq<u8>>;

/// `image::RgbaImage::from_raw(width, height, pixels)` followed by
/// `DynamicImage::write_to(.., ImageFormat::Jpeg)` into memory.  `from_raw`
/// refuses a buffer shorter than `4 * width * height` bytes, so no file comes
/// out then; otherwise the result is the encoder's output, named
/// `jpeg_encoding` (including whether the encoder accepted the image).
#[verifier::external_body]
fn encode_rgba_jpeg(pixels: &[u8], width: u32, height: u32) -> (res: Option<Vec<u8>>)
    ensures
        res is Some <==> jpeg_encoding(pixels@, width, height) is Some,
        res matches Some(b) ==> jpeg_encoding(pixels@, width, height) == Some(b@),
        pixels@.len() < 4 * width * height ==> res is None,
{
    let img = image::RgbaImage::from_raw(width, height, pixels.to_vec())?;
    let mut buf: Vec<u8> = Vec::new();
    image::DynamicImage::ImageRgba8(img)
        .write_to(&mut std::io::Cursor::new(&mut buf), image::ImageFormat::Jpeg)
        .ok()?;
    Some(buf)
}

/// Why an image could not be turned into a data URL.
#[derive(Debug, Clone, Copy, PartialEq, Eq, Structural)]
pub enum EncodeError {
    /// The JPEG encoder refused the image (or the buffer was too short).
    Jpeg,
}

/// The prefix of a JPEG data URL.
pub open spec fn jpeg_url_prefix() -> Seq<char> {
    "data:image/jpeg;base64,"@
}

/// A `data:` URL carrying JPEG bytes in base64.
pub fn jpeg_data_url(jpeg: &[u8]) -> (res: String)
    requires
        jpeg@.len() / 3 * 4 + 4 <= usize::MAX,
    ensures
        res@ == jpeg_url_prefix() + base64_standard(jpeg@),
{
    let encoded = base64_encode(jpeg);
    let prefix = String::from_str("data:image/jpeg;base64,");
    prefix.concat(encoded.as_str())
}

/// Encodes an RGBA image (`width` x `height`) as JPEG and wraps it in a data
/// URL for direct display.
pub fn encode_jpeg_data_url(pixels: &[u8], width: u32, height: u32) -> (res: Result<String, EncodeError>)
    ensures
        match jpeg_encoding(pixels@, width, height) {
            Some(bytes) => if bytes.len() / 3 * 4 + 4 <= usize::MAX {
                res matches Ok(url) && url@ == jpeg_url_prefix() + base64_standard(bytes)
            } else {
                res == Err::<String, EncodeError>(EncodeError::Jpeg)
            },
            None => res == Err::<String, EncodeError>(EncodeError::Jpeg),
        },
        pixels@.len() < 4 * width * height ==> res == Err::<String, EncodeError>(EncodeError::Jpeg),
{
    match encode_rgba_jpeg(pixels, width, height) {
        Some(jpeg) => {
            if jpeg.len() / 3 > (usize::MAX - 4) / 4 {
                return Err(EncodeError::Jpeg);
            }
            Ok(jpeg_data_url(jpeg.as_slice()))
        },
        None => Err(EncodeError::Jpeg),
    }
}

} // verus!
