//! Codec behavior against the real image and base64 crates, with the image
//! crate doubling as the independent reference decoder.

use sticky_rs::image_io::{decode, decode_transport, from_raw_framebuffer, transport_round_trip,
    DataURL, DecodeError, ImageContent};
use sticky_rs::common::Size;

fn sample_rgba(width: u32, height: u32) -> image::RgbaImage {
    image::RgbaImage::from_fn(width, height, |x, y| {
        image::Rgba([(x * 40 + 10) as u8, (y * 60 + 20) as u8, (x + y) as u8, 255])
    })
}

fn encode_as(img: &image::RgbaImage, format: image::ImageFormat) -> Vec<u8> {
    let mut out = Vec::new();
    let dynimg = image::DynamicImage::ImageRgba8(img.clone());
    let dynimg = match format {
        image::ImageFormat::Jpeg | image::ImageFormat::Bmp => {
            image::DynamicImage::ImageRgb8(dynimg.to_rgb8())
        }
        _ => dynimg,
    };
    dynimg
        .write_to(&mut std::io::Cursor::new(&mut out), format)
        .expect("reference encode failed");
    out
}

#[test]
fn decode_png_reports_reference_dimensions() {
    let bytes = encode_as(&sample_rgba(3, 2), image::ImageFormat::Png);
    let reference = image::load_from_memory(&bytes).expect("reference decode failed");
    let img = decode(bytes.clone()).expect("decode failed");
    assert_eq!(img.size.width, 3);
    assert_eq!(img.size.height, 2);
    assert_eq!(
        (img.size.width, img.size.height),
        image::GenericImageView::dimensions(&reference)
    );
    assert_eq!(img.mime_type, "image/png");
    assert_eq!(img.data, bytes);
}

#[test]
fn decode_jpeg_reports_reference_dimensions() {
    let bytes = encode_as(&sample_rgba(5, 4), image::ImageFormat::Jpeg);
    let reference = image::load_from_memory(&bytes).expect("reference decode failed");
    let img = decode(bytes).expect("decode failed");
    assert_eq!(img.size.width, 5);
    assert_eq!(img.size.height, 4);
    assert_eq!(
        (img.size.width, img.size.height),
        image::GenericImageView::dimensions(&reference)
    );
    assert_eq!(img.mime_type, "image/jpeg");
}

#[test]
fn decode_mime_matches_reference_sniffer() {
    let formats = [
        image::ImageFormat::Png,
        image::ImageFormat::Jpeg,
        image::ImageFormat::Gif,
        image::ImageFormat::Bmp,
        image::ImageFormat::Tiff,
        image::ImageFormat::WebP,
        image::ImageFormat::Qoi,
    ];
    for format in formats {
        let bytes = encode_as(&sample_rgba(4, 4), format);
        let sniffed = image::guess_format(&bytes).expect("reference sniff failed");
        let img = decode(bytes).expect("decode failed");
        assert_eq!(img.mime_type, sniffed.to_mime_type(), "format {format:?}");
    }
}

#[test]
fn decode_unrecognized_bytes() {
    let r = decode(b"this is not an image at all".to_vec());
    assert_eq!(r.unwrap_err(), DecodeError::UnrecognizedFormat);
    let r = decode(Vec::new());
    assert_eq!(r.unwrap_err(), DecodeError::UnrecognizedFormat);
}

#[test]
fn decode_corrupt_body() {
    let mut bytes = vec![0x89, b'P', b'N', b'G', 0x0d, 0x0a, 0x1a, 0x0a];
    bytes.extend_from_slice(b"garbage follows the signature");
    let r = decode(bytes);
    assert_eq!(r.unwrap_err(), DecodeError::Corrupt);
}

#[test]
fn transport_encoding_round_trips() {
    let bytes = encode_as(&sample_rgba(6, 3), image::ImageFormat::Png);
    let img = decode(bytes.clone()).expect("decode failed");
    let url = img.to_data_url();
    assert_eq!(url.mime_type, "image/png");
    let back = decode_transport(&url.base64_encoded_data).expect("transport decode failed");
    assert_eq!(back, bytes);

    let img = decode(bytes.clone()).expect("decode failed");
    assert_eq!(transport_round_trip(img), bytes);
}

#[test]
fn transport_decode_rejects_invalid_text() {
    assert_eq!(
        decode_transport("%%% not base64 %%%").unwrap_err(),
        DecodeError::InvalidEncoding
    );
    assert_eq!(decode_transport("AAA").unwrap_err(), DecodeError::InvalidEncoding);
}

#[test]
fn data_url_encoding_is_standard_base64() {
    let img = ImageContent {
        mime_type: "text/plain".to_string(),
        data: b"Hello".to_vec(),
        size: Size { width: 1, height: 1 },
    };
    let url = img.to_data_url();
    assert_eq!(url.base64_encoded_data, "SGVsbG8=");
    assert_eq!(url.to_text(), "data:text/plain;base64,SGVsbG8=");
}

#[test]
fn data_url_text_form() {
    let url = DataURL {
        mime_type: "image/png".to_string(),
        base64_encoded_data: "QUJD".to_string(),
    };
    assert_eq!(url.to_text(), "data:image/png;base64,QUJD");
}

#[test]
fn framebuffer_reencodes_losslessly() {
    let width = 2u32;
    let height = 2u32;
    let pixels: Vec<u8> = vec![
        1, 2, 3, 255, 9, 8, 7, 255, 100, 150, 200, 255, 0, 255, 0, 128,
    ];
    let img = from_raw_framebuffer(pixels.clone(), width, height);
    assert_eq!(img.size.width, width);
    assert_eq!(img.size.height, height);
    assert_eq!(img.mime_type, "image/png");
    let reference = image::load_from_memory(&img.data).expect("reference decode failed");
    assert_eq!(image::GenericImageView::dimensions(&reference), (width, height));
    assert_eq!(reference.to_rgba8().into_raw(), pixels);
}
