//! What is told about the picture of a phone.
use vstd::prelude::*;

verus! {

/// The size of the picture, how it is turned, and how it was encoded.
#[derive(Debug)]
pub struct MirrorMetadataPayload {
    pub width: u32,
    pub height: u32,
    pub rotation: u8,
    pub codec: Option<String>,
}

/// What is told about a picture of a size: it is not turned, and nothing is said about how it
/// was encoded.
pub fn mirror_metadata(width: u32, height: u32) -> (r: MirrorMetadataPayload)
    ensures
        r == (MirrorMetadataPayload { width, height, rotation: 0, codec: None }),
{
    MirrorMetadataPayload { width, height, rotation: 0, codec: None }
}

} // verus!
