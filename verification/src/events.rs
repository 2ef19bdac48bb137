//! The typed front-end signal protocol.
//!
//! A window's front end announces readiness with a payload carrying its own
//! identity; the image is then pushed to that one window with a payload
//! carrying the receiver's identity, the transport-encoded image, and the
//! source path where one was given. Validation of the wire form happens at
//! the process boundary; here the messages are plain typed records.

use vstd::prelude::*;

verus! {

/// A front end finished loading: `send_from` is the label of the window it
/// belongs to.
#[derive(Clone, Debug)]
pub struct PageLoadedEventPayload {
    /// label of sender window
    pub send_from: String,
}

/// An image is handed to one specific window.
#[derive(Clone, Debug)]
pub struct OpenImageEventPayload {
    /// label of receiver window
    pub send_to: String,
    /// path of image to open
    pub image_path: String,
}

} // verus!
