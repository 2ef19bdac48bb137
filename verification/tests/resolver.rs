//! Source resolution policy: path first, clipboard second, silence third.

use sticky_rs::image_io::decode_transport;
use sticky_rs::manager::WindowManager;
use sticky_rs::source::{get_image_from_args, get_image_from_clipboard, resolve_image,
    ClipboardImage, PathLookup};

fn png_bytes(width: u32, height: u32) -> Vec<u8> {
    let img = image::RgbaImage::from_fn(width, height, |x, y| {
        image::Rgba([x as u8, y as u8, 7, 255])
    });
    let mut out = Vec::new();
    image::DynamicImage::ImageRgba8(img)
        .write_to(&mut std::io::Cursor::new(&mut out), image::ImageFormat::Png)
        .expect("encode failed");
    out
}

fn snapshot() -> ClipboardImage {
    ClipboardImage {
        pixels: vec![5, 6, 7, 255, 8, 9, 10, 255],
        width: 2,
        height: 1,
    }
}

#[test]
fn missing_path_and_no_clipboard_yields_nothing() {
    assert!(resolve_image(PathLookup::Missing, None).is_none());
    assert!(resolve_image(PathLookup::NoPath, None).is_none());
    assert!(resolve_image(PathLookup::ReadError, None).is_none());
}

#[test]
fn path_bytes_that_decode_win() {
    let bytes = png_bytes(3, 5);
    let img = resolve_image(PathLookup::Contents(bytes.clone()), Some(snapshot()))
        .expect("path image expected");
    assert_eq!(img.data, bytes);
    assert_eq!((img.size.width, img.size.height), (3, 5));
}

#[test]
fn undecodable_path_bytes_fall_through_to_clipboard() {
    let img = resolve_image(PathLookup::Contents(b"not an image".to_vec()), Some(snapshot()))
        .expect("clipboard image expected");
    assert_eq!((img.size.width, img.size.height), (2, 1));
    assert_eq!(img.mime_type, "image/png");
}

#[test]
fn undecodable_path_bytes_and_no_clipboard_yield_nothing() {
    assert!(resolve_image(PathLookup::Contents(b"not an image".to_vec()), None).is_none());
}

#[test]
fn args_source_rejects_non_images() {
    assert!(get_image_from_args(PathLookup::Contents(b"junk".to_vec())).is_none());
    assert!(get_image_from_args(PathLookup::Missing).is_none());
    let bytes = png_bytes(2, 2);
    assert!(get_image_from_args(PathLookup::Contents(bytes)).is_some());
}

#[test]
fn clipboard_source_reencodes_snapshot() {
    let snap = snapshot();
    let pixels = snap.pixels.clone();
    let img = get_image_from_clipboard(Some(snap)).expect("clipboard image expected");
    assert_eq!((img.size.width, img.size.height), (2, 1));
    let back = image::load_from_memory(&img.data).expect("reference decode failed");
    assert_eq!(back.to_rgba8().into_raw(), pixels);
    assert!(get_image_from_clipboard(None).is_none());
}

#[test]
fn full_pipeline_delivers_the_resolved_image() {
    let bytes = png_bytes(4, 2);
    let mut manager = WindowManager::new();
    let plan = manager
        .open_image_if_present(PathLookup::Contents(bytes.clone()), None)
        .expect("window expected");
    assert_eq!(plan.label, "main-0");
    assert_eq!((plan.size.width, plan.size.height), (4, 2));

    let payload = manager.deliver_ready(&plan.label).expect("payload expected");
    assert_eq!(payload.mime_type, "image/png");
    assert_eq!(decode_transport(&payload.base64_encoded_data).unwrap(), bytes);
    assert!(manager.deliver_ready(&plan.label).is_none());
}

#[test]
fn no_source_creates_no_window() {
    let mut manager = WindowManager::new();
    assert!(manager.open_image_if_present(PathLookup::Missing, None).is_none());
    assert_eq!(manager.counter, 0);
}
