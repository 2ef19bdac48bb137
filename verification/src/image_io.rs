//! Image codec: decoding raw bytes into a normalized image record, encoding
//! a record into a transport-safe textual payload, and re-encoding a raw RGBA
//! framebuffer (a clipboard snapshot) into PNG.
//!
//! The MIME type of an image is derived by content sniffing over the leading
//! bytes, never from a file name. Pixel dimensions are authoritative: they
//! are re-derived by an actual decode of the bytes, not taken from a hint.

use vstd::prelude::*;
use crate::common::Size;

verus! {

/// Why a byte sequence could not be turned into a normalized image, or a
/// transport payload could not be decoded back into bytes.
#[derive(Clone, Copy, Debug, PartialEq, Eq)]
pub enum DecodeError {
    /// No known image signature matches the leading bytes.
    UnrecognizedFormat,
    /// A signature matches but the body cannot be parsed.
    Corrupt,
    /// The bytes could not be obtained from the file system at all.
    IO,
    /// A transport payload is not a valid base64 encoding.
    InvalidEncoding,
}

/// The image formats whose signatures content sniffing recognizes.
#[derive(Clone, Copy, Debug, PartialEq, Eq)]
pub enum ImageFormatKind {
    Png,
    Jpeg,
    Gif,
    WebP,
    Tiff,
    Dds,
    Bmp,
    Ico,
    Hdr,
    Avif,
    OpenExr,
    Qoi,
    Pnm,
    Farbfeld,
}

pub open spec fn is_png_sig(d: Seq<u8>) -> bool {
    d.len() >= 8 && d[0] == 0x89u8 && d[1] == 0x50u8 && d[2] == 0x4eu8 && d[3] == 0x47u8
        && d[4] == 0x0du8 && d[5] == 0x0au8 && d[6] == 0x1au8 && d[7] == 0x0au8
}

pub open spec fn is_jpeg_sig(d: Seq<u8>) -> bool {
    d.len() >= 3 && d[0] == 0xffu8 && d[1] == 0xd8u8 && d[2] == 0xffu8
}

pub open spec fn is_gif_sig(d: Seq<u8>) -> bool {
    d.len() >= 6 && d[0] == 0x47u8 && d[1] == 0x49u8 && d[2] == 0x46u8 && d[3] == 0x38u8
        && (d[4] == 0x39u8 || d[4] == 0x37u8) && d[5] == 0x61u8
}

pub open spec fn is_webp_sig(d: Seq<u8>) -> bool {
    d.len() >= 12 && d[0] == 0x52u8 && d[1] == 0x49u8 && d[2] == 0x46u8 && d[3] == 0x46u8
        && d[8] == 0x57u8 && d[9] == 0x45u8 && d[10] == 0x42u8 && d[11] == 0x50u8
}

pub open spec fn is_tiff_sig(d: Seq<u8>) -> bool {
    d.len() >= 4 && ((d[0] == 0x4du8 && d[1] == 0x4du8 && d[2] == 0x00u8 && d[3] == 0x2au8)
        || (d[0] == 0x49u8 && d[1] == 0x49u8 && d[2] == 0x2au8 && d[3] == 0x00u8))
}

pub open spec fn is_dds_sig(d: Seq<u8>) -> bool {
    d.len() >= 4 && d[0] == 0x44u8 && d[1] == 0x44u8 && d[2] == 0x53u8 && d[3] == 0x20u8
}

pub open spec fn is_bmp_sig(d: Seq<u8>) -> bool {
    d.len() >= 2 && d[0] == 0x42u8 && d[1] == 0x4du8
}

pub open spec fn is_ico_sig(d: Seq<u8>) -> bool {
    d.len() >= 4 && d[0] == 0x00u8 && d[1] == 0x00u8 && d[2] == 0x01u8 && d[3] == 0x00u8
}

pub open spec fn is_hdr_sig(d: Seq<u8>) -> bool {
    d.len() >= 10 && d[0] == 0x23u8 && d[1] == 0x3fu8 && d[2] == 0x52u8 && d[3] == 0x41u8
        && d[4] == 0x44u8 && d[5] == 0x49u8 && d[6] == 0x41u8 && d[7] == 0x4eu8
        && d[8] == 0x43u8 && d[9] == 0x45u8
}

pub open spec fn is_avif_sig(d: Seq<u8>) -> bool {
    d.len() >= 12 && d[0] == 0x00u8 && d[1] == 0x00u8 && d[4] == 0x66u8 && d[5] == 0x74u8
        && d[6] == 0x79u8 && d[7] == 0x70u8 && d[8] == 0x61u8 && d[9] == 0x76u8
        && d[10] == 0x69u8 && d[11] == 0x66u8
}

pub open spec fn is_openexr_sig(d: Seq<u8>) -> bool {
    d.len() >= 4 && d[0] == 0x76u8 && d[1] == 0x2fu8 && d[2] == 0x31u8 && d[3] == 0x01u8
}

pub open spec fn is_qoi_sig(d: Seq<u8>) -> bool {
    d.len() >= 4 && d[0] == 0x71u8 && d[1] == 0x6fu8 && d[2] == 0x69u8 && d[3] == 0x66u8
}

pub open spec fn is_pnm_sig(d: Seq<u8>) -> bool {
    d.len() >= 2 && d[0] == 0x50u8 && 0x31u8 <= d[1] && d[1] <= 0x37u8
}

pub open spec fn is_farbfeld_sig(d: Seq<u8>) -> bool {
    d.len() >= 8 && d[0] == 0x66u8 && d[1] == 0x61u8 && d[2] == 0x72u8 && d[3] == 0x62u8
        && d[4] == 0x66u8 && d[5] == 0x65u8 && d[6] == 0x6cu8 && d[7] == 0x64u8
}

/// The format a byte sequence sniffs as: the magic-byte signature table that
/// content-based format detection goes by, first match wins.
pub open spec fn spec_sniff(d: Seq<u8>) -> Option<ImageFormatKind> {
    if is_png_sig(d) {
        Some(ImageFormatKind::Png)
    } else if is_jpeg_sig(d) {
        Some(ImageFormatKind::Jpeg)
    } else if is_gif_sig(d) {
        Some(ImageFormatKind::Gif)
    } else if is_webp_sig(d) {
        Some(ImageFormatKind::WebP)
    } else if is_tiff_sig(d) {
        Some(ImageFormatKind::Tiff)
    } else if is_dds_sig(d) {
        Some(ImageFormatKind::Dds)
    } else if is_bmp_sig(d) {
        Some(ImageFormatKind::Bmp)
    } else if is_ico_sig(d) {
        Some(ImageFormatKind::Ico)
    } else if is_hdr_sig(d) {
        Some(ImageFormatKind::Hdr)
    } else if is_avif_sig(d) {
        Some(ImageFormatKind::Avif)
    } else if is_openexr_sig(d) {
        Some(ImageFormatKind::OpenExr)
    } else if is_qoi_sig(d) {
        Some(ImageFormatKind::Qoi)
    } else if is_pnm_sig(d) {
        Some(ImageFormatKind::Pnm)
    } else if is_farbfeld_sig(d) {
        Some(ImageFormatKind::Farbfeld)
    } else {
        None
    }
}

/// The MIME type reported for each sniffed format.
pub open spec fn mime_of(k: ImageFormatKind) -> Seq<char> {
    match k {
        ImageFormatKind::Png => "image/png"@,
        ImageFormatKind::Jpeg => "image/jpeg"@,
        ImageFormatKind::Gif => "image/gif"@,
        ImageFormatKind::WebP => "image/webp"@,
        ImageFormatKind::Tiff => "image/tiff"@,
        ImageFormatKind::Dds => "image/vnd-ms.dds"@,
        ImageFormatKind::Bmp => "image/bmp"@,
        ImageFormatKind::Ico => "image/x-icon"@,
        ImageFormatKind::Hdr => "image/vnd.radiance"@,
        ImageFormatKind::Avif => "image/avif"@,
        ImageFormatKind::OpenExr => "image/x-exr"@,
        ImageFormatKind::Qoi => "image/x-qoi"@,
        ImageFormatKind::Pnm => "image/x-portable-anymap"@,
        ImageFormatKind::Farbfeld => "application/octet-stream"@,
    }
}

/// Sniff the image format from the leading bytes, never from a file name.
pub fn sniff_format(data: &Vec<u8>) -> (r: Option<ImageFormatKind>)
    ensures
        r == spec_sniff(data@),
{
    let n = data.len();
    if n >= 8 && data[0] == 0x89 && data[1] == 0x50 && data[2] == 0x4e && data[3] == 0x47
        && data[4] == 0x0d && data[5] == 0x0a && data[6] == 0x1a && data[7] == 0x0a {
        Some(ImageFormatKind::Png)
    } else if n >= 3 && data[0] == 0xff && data[1] == 0xd8 && data[2] == 0xff {
        Some(ImageFormatKind::Jpeg)
    } else if n >= 6 && data[0] == 0x47 && data[1] == 0x49 && data[2] == 0x46 && data[3] == 0x38
        && (data[4] == 0x39 || data[4] == 0x37) && data[5] == 0x61 {
        Some(ImageFormatKind::Gif)
    } else if n >= 12 && data[0] == 0x52 && data[1] == 0x49 && data[2] == 0x46 && data[3] == 0x46
        && data[8] == 0x57 && data[9] == 0x45 && data[10] == 0x42 && data[11] == 0x50 {
        Some(ImageFormatKind::WebP)
    } else if n >= 4 && ((data[0] == 0x4d && data[1] == 0x4d && data[2] == 0x00 && data[3] == 0x2a)
        || (data[0] == 0x49 && data[1] == 0x49 && data[2] == 0x2a && data[3] == 0x00)) {
        Some(ImageFormatKind::Tiff)
    } else if n >= 4 && data[0] == 0x44 && data[1] == 0x44 && data[2] == 0x53 && data[3] == 0x20 {
        Some(ImageFormatKind::Dds)
    } else if n >= 2 && data[0] == 0x42 && data[1] == 0x4d {
        Some(ImageFormatKind::Bmp)
    } else if n >= 4 && data[0] == 0x00 && data[1] == 0x00 && data[2] == 0x01 && data[3] == 0x00 {
        Some(ImageFormatKind::Ico)
    } else if n >= 10 && data[0] == 0x23 && data[1] == 0x3f && data[2] == 0x52 && data[3] == 0x41
        && data[4] == 0x44 && data[5] == 0x49 && data[6] == 0x41 && data[7] == 0x4e
        && data[8] == 0x43 && data[9] == 0x45 {
        Some(ImageFormatKind::Hdr)
    } else if n >= 12 && data[0] == 0x00 && data[1] == 0x00 && data[4] == 0x66 && data[5] == 0x74
        && data[6] == 0x79 && data[7] == 0x70 && data[8] == 0x61 && data[9] == 0x76
        && data[10] == 0x69 && data[11] == 0x66 {
        Some(ImageFormatKind::Avif)
    } else if n >= 4 && data[0] == 0x76 && data[1] == 0x2f && data[2] == 0x31 && data[3] == 0x01 {
        Some(ImageFormatKind::OpenExr)
    } else if n >= 4 && data[0] == 0x71 && data[1] == 0x6f && data[2] == 0x69 && data[3] == 0x66 {
        Some(ImageFormatKind::Qoi)
    } else if n >= 2 && data[0] == 0x50 && 0x31 <= data[1] && data[1] <= 0x37 {
        Some(ImageFormatKind::Pnm)
    } else if n >= 8 && data[0] == 0x66 && data[1] == 0x61 && data[2] == 0x72 && data[3] == 0x62
        && data[4] == 0x66 && data[5] == 0x65 && data[6] == 0x6c && data[7] == 0x64 {
        Some(ImageFormatKind::Farbfeld)
    } else {
        None
    }
}

/// The MIME type string of a sniffed format.
pub fn mime_string(k: ImageFormatKind) -> (r: String)
    ensures
        r@ == mime_of(k),
{
    match k {
        ImageFormatKind::Png => String::from_str("image/png"),
        ImageFormatKind::Jpeg => String::from_str("image/jpeg"),
        ImageFormatKind::Gif => String::from_str("image/gif"),
        ImageFormatKind::WebP => String::from_str("image/webp"),
        ImageFormatKind::Tiff => String::from_str("image/tiff"),
        ImageFormatKind::Dds => String::from_str("image/vnd-ms.dds"),
        ImageFormatKind::Bmp => String::from_str("image/bmp"),
        ImageFormatKind::Ico => String::from_str("image/x-icon"),
        ImageFormatKind::Hdr => String::from_str("image/vnd.radiance"),
        ImageFormatKind::Avif => String::from_str("image/avif"),
        ImageFormatKind::OpenExr => String::from_str("image/x-exr"),
        ImageFormatKind::Qoi => String::from_str("image/x-qoi"),
        ImageFormatKind::Pnm => String::from_str("image/x-portable-anymap"),
        ImageFormatKind::Farbfeld => String::from_str("application/octet-stream"),
    }
}

/// The pixel dimensions that a full decode of the bytes reports, or nothing
/// where the bytes cannot be decoded as an image. A function of the bytes
/// alone.
pub uninterp spec fn spec_load_dims(data: Seq<u8>) -> Option<(u32, u32)>;

/// Relies on image::load_from_memory and the dimensions of the decoded
/// image: decoding is deterministic in the bytes, so the outcome is named
/// by `spec_load_dims` rather than spelled out.
#[verifier::external_body]
fn decode_dimensions(data: &Vec<u8>) -> (r: Option<(u32, u32)>)
    ensures
        r == spec_load_dims(data@),
{
    match image::load_from_memory(data) {
        Ok(img) => Some(image::GenericImageView::dimensions(&img)),
        Err(_) => None,
    }
}

/// The standard (padded) base64 encoding of a byte sequence, as a character
/// sequence. A function of the bytes alone.
pub uninterp spec fn b64_of(data: Seq<u8>) -> Seq<char>;

/// Relies on base64's BASE64_STANDARD engine for encoding: deterministic in
/// the bytes, named by `b64_of`.
#[verifier::external_body]
fn b64_encode(data: &Vec<u8>) -> (r: String)
    ensures
        r@ == b64_of(data@),
{
    base64::Engine::encode(&base64::prelude::BASE64_STANDARD, data)
}

/// Relies on base64's BASE64_STANDARD engine for decoding: it accepts only
/// canonical padded encodings, so a successful decode yields the one byte
/// sequence whose encoding is the input, and a failure means the input is
/// no encoding at all.
#[verifier::external_body]
fn b64_decode(text: &str) -> (r: Option<Vec<u8>>)
    ensures
        r matches Some(v) ==> text@ == b64_of(v@) && (forall|y: Seq<u8>|
            text@ == b64_of(y) ==> y == v@),
        r is None ==> (forall|x: Seq<u8>| text@ != b64_of(x)),
{
    match base64::Engine::decode(&base64::prelude::BASE64_STANDARD, text) {
        Ok(v) => Some(v),
        Err(_) => None,
    }
}

/// The PNG encoding of a width x height RGBA framebuffer. A function of the
/// pixels and dimensions alone.
pub uninterp spec fn png_of(pixels: Seq<u8>, width: u32, height: u32) -> Seq<u8>;

/// Relies on image's PNG encoder over an RGBA buffer: deterministic in the
/// pixels and dimensions (named by `png_of`), and the encoder writes the
/// very width and height into the image header, so a decode of the output
/// reports them back. Dimensions are kept small enough that a decode stays
/// under the decoder's default allocation limit.
#[verifier::external_body]
fn encode_png_rgba(pixels: Vec<u8>, width: u32, height: u32) -> (r: Vec<u8>)
    requires
        pixels@.len() == width as nat * height as nat * 4,
        1 <= width,
        1 <= height,
        width as nat * height as nat <= 0x4000000,
    ensures
        r@ == png_of(pixels@, width, height),
        spec_load_dims(r@) == Some((width, height)),
{
    let img: image::RgbaImage = image::ImageBuffer::from_raw(width, height, pixels).unwrap();
    let mut out: Vec<u8> = Vec::new();
    img.write_to(&mut std::io::Cursor::new(&mut out), image::ImageFormat::Png).unwrap();
    out
}

/// A transport-safe textual representation of an image: its MIME type and
/// the base64 encoding of its bytes. Decoding the text reproduces the bytes
/// exactly.
#[derive(Clone, Debug)]
pub struct DataURL {
    pub mime_type: String,
    pub base64_encoded_data: String,
}

impl DataURL {
    /// The payload's textual wire form, `data:<mime>;base64,<data>`.
    pub fn to_text(&self) -> (r: String)
        ensures
            r@ == "data:"@ + self.mime_type@ + ";base64,"@ + self.base64_encoded_data@,
    {
        let mut s = String::from_str("data:");
        s.append(self.mime_type.as_str());
        s.append(";base64,");
        s.append(self.base64_encoded_data.as_str());
        s
    }
}

/// A normalized in-memory image record: sniffed MIME type, encoded bytes,
/// and authoritative pixel dimensions.
#[derive(Debug)]
pub struct ImageContent {
    pub mime_type: String,
    pub data: Vec<u8>,
    pub size: Size<u32>,
}

impl ImageContent {
    /// The record's dimensions match what an independent decode of its bytes
    /// reports.
    pub open spec fn wf(self) -> bool {
        spec_load_dims(self.data@) == Some((self.size.width, self.size.height))
    }

    /// Derive the transport payload of this record: its MIME type together
    /// with the base64 encoding of its bytes.
    pub fn to_data_url(self) -> (r: DataURL)
        ensures
            r.mime_type == self.mime_type,
            r.base64_encoded_data@ == b64_of(self.data@),
    {
        let encoded = b64_encode(&self.data);
        DataURL { mime_type: self.mime_type, base64_encoded_data: encoded }
    }
}

/// Decode raw bytes into a normalized image record. The format is sniffed
/// from the byte content; the dimensions are those a decode of the body
/// reports. An unknown signature is `UnrecognizedFormat`; a known signature
/// over an unparseable body is `Corrupt`.
pub fn decode(data: Vec<u8>) -> (r: Result<ImageContent, DecodeError>)
    ensures
        spec_sniff(data@) is None ==> r == Err::<ImageContent, DecodeError>(
            DecodeError::UnrecognizedFormat,
        ),
        spec_sniff(data@) is Some && spec_load_dims(data@) is None ==> r == Err::<
            ImageContent,
            DecodeError,
        >(DecodeError::Corrupt),
        spec_sniff(data@) matches Some(k) ==> spec_load_dims(data@) matches Some(d)
            ==> r matches Ok(img) && img.mime_type@ == mime_of(k) && img.data@ == data@
            && img.size.width == d.0 && img.size.height == d.1,
        r matches Ok(img) ==> img.wf(),
{
    let kind = match sniff_format(&data) {
        Some(k) => k,
        None => {
            return Err(DecodeError::UnrecognizedFormat);
        },
    };
    let dims = match decode_dimensions(&data) {
        Some(d) => d,
        None => {
            return Err(DecodeError::Corrupt);
        },
    };
    let mime_type = mime_string(kind);
    Ok(ImageContent { mime_type, data, size: Size { width: dims.0, height: dims.1 } })
}

/// Decode a transport payload's base64 text back into the exact bytes it
/// was derived from. Text that is not a canonical base64 encoding is
/// `InvalidEncoding`.
pub fn decode_transport(text: &str) -> (r: Result<Vec<u8>, DecodeError>)
    ensures
        r matches Ok(v) ==> text@ == b64_of(v@) && (forall|y: Seq<u8>|
            text@ == b64_of(y) ==> y == v@),
        r is Err ==> r == Err::<Vec<u8>, DecodeError>(DecodeError::InvalidEncoding)
            && (forall|x: Seq<u8>| text@ != b64_of(x)),
{
    match b64_decode(text) {
        Some(v) => Ok(v),
        None => Err(DecodeError::InvalidEncoding),
    }
}

/// Law: transport decoding inverts transport encoding, byte for byte. The
/// returned bytes equal the record's own bytes after a round trip through
/// `to_data_url` and `decode_transport`.
pub fn transport_round_trip(image: ImageContent) -> (r: Vec<u8>)
    ensures
        r@ == image.data@,
{
    let ghost input_bytes: Seq<u8> = image.data@;
    let url = image.to_data_url();
    match decode_transport(url.base64_encoded_data.as_str()) {
        Ok(v) => v,
        Err(_) => {
            proof {
                assert(url.base64_encoded_data@ == b64_of(input_bytes));
            }
            vstd::pervasive::unreached()
        },
    }
}

/// Re-encode an uncompressed RGBA framebuffer (a clipboard snapshot) into a
/// normalized PNG record. The caller owes a buffer of exactly
/// `width * height * 4` bytes: anything else is an upstream contract breach,
/// not user input to be tolerated.
pub fn from_raw_framebuffer(pixels: Vec<u8>, width: u32, height: u32) -> (r: ImageContent)
    requires
        pixels@.len() == width as nat * height as nat * 4,
        1 <= width,
        1 <= height,
        width as nat * height as nat <= 0x4000000,
    ensures
        r.size.width == width,
        r.size.height == height,
        r.mime_type@ == "image/png"@,
        r.data@ == png_of(pixels@, width, height),
        r.wf(),
{
    let data = encode_png_rgba(pixels, width, height);
    ImageContent {
        mime_type: String::from_str("image/png"),
        data,
        size: Size { width, height },
    }
}

} // verus!
