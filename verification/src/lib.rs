//! Verified core of `smix`, a utility that blends three single-channel mask
//! images (r, g, b) into one RGBA image with per-channel weights, then exports
//! the blend as PNG files at one or more scale factors.
//!
//! All numeric state is held in fixed point: channel samples are 8-bit values
//! and weights and scale factors are integers in thousandths, so that the
//! mixing arithmetic can be stated and proved exactly.

pub mod codec;
pub mod color;
pub mod env;
pub mod export;
pub mod image_buf;
pub mod mask;
pub mod preview;
pub mod scale;
pub mod text;

use vstd::prelude::*;

verus! {

/// The channel a weight or a mask file belongs to.
#[derive(Clone, Copy, PartialEq, Eq, Structural, Debug)]
pub enum Channel {
    Red,
    Green,
    Blue,
}

/// Everything that can go wrong while loading masks or exporting blends.
#[derive(Clone, Copy, PartialEq, Eq, Structural, Debug)]
pub enum Error {
    /// A weight lies outside [0, 1]; names the offending channel.
    Validation(Channel),
    /// The three masks of one set do not share the same width and height.
    DimensionMismatch,
    /// A mask file could not be decoded as an image.
    Decode(Channel),
    /// A requested export would have zero width or height, or one too large
    /// for the codec boundary.
    BadSize,
}

impl Error {
    /// A human-readable description, for callers that print errors.
    pub fn message(&self) -> (r: &'static str)
        ensures
            r@.len() > 0,
            self is Validation ==> r@ == (match self->Validation_0 {
                Channel::Red => "Red weight must be in [0, 1]"@,
                Channel::Green => "Green weight must be in [0, 1]"@,
                Channel::Blue => "Blue weight must be in [0, 1]"@,
            }),
            self is DimensionMismatch ==> r@ == "Masks have different dimensions!"@,
            self is Decode ==> r@ == "A mask image could not be decoded"@,
            self is BadSize ==> r@ == "Scaled output size is not supported"@,
    {
        proof {
            reveal_strlit("Red weight must be in [0, 1]");
            reveal_strlit("Green weight must be in [0, 1]");
            reveal_strlit("Blue weight must be in [0, 1]");
            reveal_strlit("Masks have different dimensions!");
            reveal_strlit("A mask image could not be decoded");
            reveal_strlit("Scaled output size is not supported");
        }
        match self {
            Error::Validation(Channel::Red) => "Red weight must be in [0, 1]",
            Error::Validation(Channel::Green) => "Green weight must be in [0, 1]",
            Error::Validation(Channel::Blue) => "Blue weight must be in [0, 1]",
            Error::DimensionMismatch => "Masks have different dimensions!",
            Error::Decode(_) => "A mask image could not be decoded",
            Error::BadSize => "Scaled output size is not supported",
        }
    }
}

} // verus!
