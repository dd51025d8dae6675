//! Upload-side library of a desktop uploader: a chunked request body that
//! reports progress per frame, and a hexadecimal encoder for word arrays.
pub mod buffer;
pub mod channel;
pub mod error;
pub mod frames;
pub mod hex;
pub mod progress;
pub mod session;

pub use error::{Error, Result};
pub use frames::FRAME_SIZE;
pub use hex::encode_hex;
pub use progress::Progressbar;
pub use session::SessionSlot;
