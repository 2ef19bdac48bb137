//! Pixel-dimension sizes shared by the codec, the sizer and the window
//! manager.

use vstd::prelude::*;

verus! {

/// A width/height pair. Instantiated with `u32` for authoritative pixel
/// dimensions of a decoded image.
#[derive(Clone, Copy, Debug, PartialEq, Eq)]
pub struct Size<T> {
    pub width: T,
    pub height: T,
}

} // verus!
