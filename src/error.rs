use vstd::prelude::*;

verus! {

/// Error of std's UTF-8 validation, carried as it is.
#[verifier::external_type_specification]
#[verifier::external_body]
pub struct ExUtf8Error(core::str::Utf8Error);

/// Error of the image crate's encoders, carried as it is.
#[verifier::external_type_specification]
#[verifier::external_body]
pub struct ExImageError(image::ImageError);

/// Errors that can occur while working with Ajazz devices.
#[derive(Debug)]
pub enum AjazzError {
    /// Failed to convert bytes into a string
    Utf8Error(core::str::Utf8Error),
    /// Failed to encode an image
    ImageError(image::ImageError),
    /// An internal lock was poisoned
    PoisonError,
    /// Key index is invalid for the device
    InvalidKeyIndex,
    /// Unrecognized product id
    UnrecognizedPID,
    /// The device does not support the operation
    UnsupportedOperation,
    /// The device sent data that cannot be interpreted
    BadData,
}

} // verus!
