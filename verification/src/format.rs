//! Telling the format of an image by the bytes it opens with.

use crate::error::SplitError;
use crate::header::{can_decode, decode, decode_of, has_signature, RomHeader};
use vstd::prelude::*;

verus! {

/// The image formats that can be decoded.
#[derive(Clone, Copy, Debug, PartialEq, Eq, Structural)]
pub enum Format {
    /// The iNES container, told by its four-byte signature.
    Ines,
}

/// The format that `probe`, the start of a stream, opens with.
pub open spec fn format_of(probe: Seq<u8>) -> Result<Format, SplitError> {
    if has_signature(probe) {
        Ok(Format::Ines)
    } else {
        Err(SplitError::FormatNotRecognized)
    }
}

impl Format {
    pub open spec fn spec_recognizes(&self, probe: Seq<u8>) -> bool {
        match self {
            Format::Ines => has_signature(probe),
        }
    }

    /// Whether `probe`, the start of a stream, is of this format.
    pub fn recognizes(&self, probe: &[u8]) -> (found: bool)
        ensures
            found == self.spec_recognizes(probe@),
    {
        match self {
            Format::Ines => can_decode(probe),
        }
    }

    /// Decodes the header of an image of this format.
    pub fn decode_header(&self, bytes: &[u8]) -> (decoded: Result<RomHeader, SplitError>)
        ensures
            decoded == decode_of(bytes@),
            decoded matches Ok(header) ==> header.is_valid() && header.bytes() == bytes@.take(16),
    {
        match self {
            Format::Ines => decode(bytes),
        }
    }
}

/// Tells the format of a stream by its first bytes. A stream that opens
/// with no known signature is not recognized.
pub fn detect_format(probe: &[u8]) -> (detected: Result<Format, SplitError>)
    ensures
        detected == format_of(probe@),
{
    if Format::Ines.recognizes(probe) {
        Ok(Format::Ines)
    } else {
        Err(SplitError::FormatNotRecognized)
    }
}

} // verus!
