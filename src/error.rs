//! Errors visible at the library's boundary.
use vstd::prelude::*;

verus! {

/// What can go wrong while uploading.
#[derive(Debug, PartialEq, Eq)]
pub enum Error {
    /// The progress subscriber went away in the middle of an upload.
    ProgressChannelClosed,
    /// A filesystem operation of the path or credential helpers failed.
    Io(String),
    /// The remote uploader service failed (network, authentication, decoding).
    Remote(String),
}

pub type Result<T> = core::result::Result<T, Error>;

} // verus!
