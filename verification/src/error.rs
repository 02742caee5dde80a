//! Why a file was not turned into an image, or an image not into a file.

use vstd::prelude::*;

verus! {

/// The ways in which a codec rejects its input.
#[derive(Clone, Copy, Debug, PartialEq, Eq, Structural)]
pub enum CodecError {
    /// The signature is not the container's, the header ends too early, or a
    /// header field cannot be read as what it has to be.
    InvalidHeader,
    /// The body holds fewer bytes than the header's dimensions call for.
    TruncatedBody,
    /// The file, or the image, asks for something the codec does not handle.
    UnsupportedFeature,
}

} // verus!
