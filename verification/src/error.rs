//! The ways in which decoding or splitting an image ends early.

use crate::segment::{name_of, Segment};
use vstd::prelude::*;
use vstd::string::StringExecFns;

verus! {

/// Why an image was not decoded, or not split to the end.
#[derive(Clone, Copy, Debug, PartialEq, Eq, Structural)]
pub enum SplitError {
    /// The first four bytes are not the iNES signature.
    FormatNotRecognized,
    /// The header is of the extended NES 2.0 revision.
    UnsupportedRevision,
    /// The input ended before the end of this segment.
    Truncated(Segment),
    /// The user declined to go on.
    Aborted,
}

impl SplitError {
    /// The line of text that reports the error. A truncated input is
    /// reported with the name of the file that could not be filled.
    pub open spec fn spec_message(&self) -> Seq<char> {
        match self {
            SplitError::FormatNotRecognized => "Format not supported"@,
            SplitError::UnsupportedRevision => "NES 2.0 headers are not supported"@,
            SplitError::Truncated(segment) => "Input ends before the end of "@ + name_of(*segment),
            SplitError::Aborted => "Operation aborted."@,
        }
    }

    /// The line of text that reports the error.
    pub fn message(&self) -> (text: String)
        ensures
            text@ == self.spec_message(),
    {
        match self {
            SplitError::FormatNotRecognized => String::from_str("Format not supported"),
            SplitError::UnsupportedRevision => String::from_str(
                "NES 2.0 headers are not supported",
            ),
            SplitError::Truncated(segment) => {
                let mut text = String::from_str("Input ends before the end of ");
                let name = segment.file_name();
                text.append(name.as_str());
                text
            },
            SplitError::Aborted => String::from_str("Operation aborted."),
        }
    }
}

} // verus!
