use vstd::prelude::*;

verus! {

#[verifier::external_type_specification]
#[verifier::external_body]
pub struct ExImageError(image::ImageError);

#[verifier::external_type_specification]
#[verifier::external_body]
pub struct ExEncodingError(png::EncodingError);

/// Why a conversion failed.
#[derive(Debug)]
pub enum LowresError {
    /// A zero side: of the source image where a size must be derived from
    /// it, or of the requested output.
    ZeroDimension,
    /// The requested output has more bytes than memory can address.
    TooLarge,
    /// The source bytes are not an image that the decoder reads.
    Decode(image::ImageError),
    /// The PNG encoder refused the raster.
    Encode(png::EncodingError),
}

} // verus!
