//! Image viewer core: decoding images into a normalized in-memory record,
//! resolving an image from a path argument or a clipboard snapshot, computing
//! window geometry from pixel dimensions and a display scale factor,
//! allocating unique window identities, and delivering each image payload to
//! its own window through a one-shot readiness handshake.

pub mod common;
pub mod events;
pub mod handshake;
pub mod image_io;
pub mod manager;
pub mod scale;
pub mod source;
pub mod window;
