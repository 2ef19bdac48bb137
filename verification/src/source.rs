//! Image source resolution.
//!
//! An image is resolved from at most one of two sources, in order: the
//! command-line path (where one was given, exists, and decodes), then the
//! clipboard. A missing or unreadable path, or one whose bytes do not
//! decode, falls through to the clipboard rather than aborting; with no
//! source at all, no image — and so no window — is produced.

use vstd::prelude::*;
use crate::image_io::{
    decode, from_raw_framebuffer, mime_of, png_of, spec_load_dims, spec_sniff, ImageContent,
};

verus! {

/// What the file system said about the command-line path argument. Reading
/// the file is the caller's edge; the policy over the outcome is decided
/// here.
pub enum PathLookup {
    /// No path argument was given.
    NoPath,
    /// A path was given but does not exist.
    Missing,
    /// The path exists but its bytes could not be read.
    ReadError,
    /// The bytes read from the path.
    Contents(Vec<u8>),
}

/// An uncompressed RGBA snapshot read from the clipboard.
pub struct ClipboardImage {
    pub pixels: Vec<u8>,
    pub width: u32,
    pub height: u32,
}

impl ClipboardImage {
    /// A real snapshot: one byte quadruple per pixel, nonempty, and small
    /// enough to re-encode.
    pub open spec fn wf(self) -> bool {
        &&& self.pixels@.len() == self.width as nat * self.height as nat * 4
        &&& 1 <= self.width
        &&& 1 <= self.height
        &&& self.width as nat * self.height as nat <= 0x4000000
    }
}

/// The path source yields an image: bytes were read and they decode.
pub open spec fn path_image_available(lookup: PathLookup) -> bool {
    &&& lookup matches PathLookup::Contents(d)
    &&& spec_sniff(d@) is Some
    &&& spec_load_dims(d@) is Some
}

/// Resolve an image from the command-line path, given what the file system
/// yielded for it. Bytes that do not decode produce nothing (the caller
/// falls through to the next source), never an abort.
pub fn get_image_from_args(lookup: PathLookup) -> (r: Option<ImageContent>)
    ensures
        !path_image_available(lookup) ==> r is None,
        lookup matches PathLookup::Contents(d) ==> spec_sniff(d@) matches Some(k)
            ==> spec_load_dims(d@) matches Some(dim) ==> r matches Some(img)
            && img.mime_type@ == mime_of(k) && img.data@ == d@ && img.size.width == dim.0
            && img.size.height == dim.1,
        r matches Some(img) ==> img.wf(),
{
    match lookup {
        PathLookup::Contents(d) => match decode(d) {
            Ok(img) => Some(img),
            Err(_) => None,
        },
        _ => None,
    }
}

/// Resolve an image from the clipboard, given the snapshot read from it (or
/// none). A snapshot is re-encoded as PNG with its own dimensions.
pub fn get_image_from_clipboard(snapshot: Option<ClipboardImage>) -> (r: Option<ImageContent>)
    requires
        snapshot matches Some(c) ==> c.wf(),
    ensures
        snapshot is None ==> r is None,
        snapshot matches Some(c) ==> r matches Some(img) && img.size.width == c.width
            && img.size.height == c.height && img.mime_type@ == "image/png"@ && img.data@
            == png_of(c.pixels@, c.width, c.height),
        r matches Some(img) ==> img.wf(),
{
    match snapshot {
        Some(c) => Some(from_raw_framebuffer(c.pixels, c.width, c.height)),
        None => None,
    }
}

/// Resolve exactly one image: the path source where it yields, else the
/// clipboard, else nothing. With no source, the result is no image and no
/// window — an absence of work, not an error.
pub fn resolve_image(lookup: PathLookup, clipboard: Option<ClipboardImage>) -> (r: Option<
    ImageContent,
>)
    requires
        clipboard matches Some(c) ==> c.wf(),
    ensures
        !path_image_available(lookup) && clipboard is None ==> r is None,
        lookup matches PathLookup::Contents(d) ==> spec_sniff(d@) matches Some(k)
            ==> spec_load_dims(d@) matches Some(dim) ==> r matches Some(img)
            && img.mime_type@ == mime_of(k) && img.data@ == d@ && img.size.width == dim.0
            && img.size.height == dim.1,
        !path_image_available(lookup) ==> (clipboard matches Some(c) ==> r matches Some(img)
            && img.size.width == c.width && img.size.height == c.height && img.data@ == png_of(
            c.pixels@,
            c.width,
            c.height,
        )),
        r matches Some(img) ==> img.wf(),
{
    match get_image_from_args(lookup) {
        Some(img) => Some(img),
        None => get_image_from_clipboard(clipboard),
    }
}

} // verus!
