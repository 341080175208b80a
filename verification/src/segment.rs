//! The segments of a ROM image: what they are called, how long they are,
//! where they lie and in which order they are taken.

use crate::decimal::{decimal, push_decimal};
use crate::header::{RomHeader, HEADER_LEN};
use vstd::prelude::*;
use vstd::string::StringExecFns;

verus! {

/// Number of bytes in a trainer area.
pub const TRAINER_LEN: usize = 512;

/// Number of bytes in a program bank.
pub const PRG_BANK_LEN: usize = 16384;

/// Number of bytes in a graphics bank.
pub const CHR_BANK_LEN: usize = 8192;

/// What a segment of an image holds.
#[derive(Clone, Copy, Debug, PartialEq, Eq, Structural)]
pub enum SegmentKind {
    /// The 16-byte header.
    Header,
    /// The 512-byte trainer area.
    Trainer,
    /// A 16 KiB bank of program code.
    Prg,
    /// An 8 KiB bank of graphics data.
    Chr,
    /// The code/data log of a program bank.
    PrgLog,
    /// The code/data log of a graphics bank.
    ChrLog,
}

/// Where the bytes of a segment come from.
#[derive(Clone, Copy, Debug, PartialEq, Eq, Structural)]
pub enum Source {
    /// The decoded header itself.
    Header,
    /// The image data that follows the header.
    Image,
    /// The code/data log, a stream of its own.
    Log,
}

/// One segment: its kind and, for banks, its zero-based index.
#[derive(Clone, Copy, Debug, PartialEq, Eq, Structural)]
pub struct Segment {
    pub kind: SegmentKind,
    pub index: u8,
}

impl SegmentKind {
    /// The fixed number of bytes in a segment of this kind.
    pub open spec fn spec_len(&self) -> usize {
        match self {
            SegmentKind::Header => 16,
            SegmentKind::Trainer => 512,
            SegmentKind::Prg | SegmentKind::PrgLog => 16384,
            SegmentKind::Chr | SegmentKind::ChrLog => 8192,
        }
    }

    /// The stream that segments of this kind are taken from.
    pub open spec fn spec_source(&self) -> Source {
        match self {
            SegmentKind::Header => Source::Header,
            SegmentKind::Trainer | SegmentKind::Prg | SegmentKind::Chr => Source::Image,
            SegmentKind::PrgLog | SegmentKind::ChrLog => Source::Log,
        }
    }

    /// The fixed number of bytes in a segment of this kind.
    #[verifier::when_used_as_spec(spec_len)]
    pub fn len(&self) -> (len: usize)
        ensures
            len == self.spec_len(),
    {
        match self {
            SegmentKind::Header => HEADER_LEN,
            SegmentKind::Trainer => TRAINER_LEN,
            SegmentKind::Prg | SegmentKind::PrgLog => PRG_BANK_LEN,
            SegmentKind::Chr | SegmentKind::ChrLog => CHR_BANK_LEN,
        }
    }

    /// The stream that segments of this kind are taken from.
    #[verifier::when_used_as_spec(spec_source)]
    pub fn source(&self) -> (source: Source)
        ensures
            source == self.spec_source(),
    {
        match self {
            SegmentKind::Header => Source::Header,
            SegmentKind::Trainer | SegmentKind::Prg | SegmentKind::Chr => Source::Image,
            SegmentKind::PrgLog | SegmentKind::ChrLog => Source::Log,
        }
    }
}

/// Number of bytes that the trainer of `header` takes in the image data.
pub open spec fn trainer_len(header: RomHeader) -> nat {
    if header.has_trainer() {
        512
    } else {
        0
    }
}

/// Number of bytes that follow the header in a complete image.
pub open spec fn image_len(header: RomHeader) -> nat {
    (trainer_len(header) + header.prg_bank_count * 16384 + header.chr_bank_count * 8192) as nat
}

/// Number of bytes in a complete code/data log.
pub open spec fn log_len(header: RomHeader) -> nat {
    (header.prg_bank_count * 16384 + header.chr_bank_count * 8192) as nat
}

/// The name of the file that holds the segment.
pub open spec fn name_of(segment: Segment) -> Seq<char> {
    match segment.kind {
        SegmentKind::Header => "header"@,
        SegmentKind::Trainer => "trainer"@,
        SegmentKind::Prg => "prg"@ + decimal(segment.index as nat) + ".prg"@,
        SegmentKind::Chr => "chr"@ + decimal(segment.index as nat) + ".chr"@,
        SegmentKind::PrgLog => "prg"@ + decimal(segment.index as nat) + ".cdl"@,
        SegmentKind::ChrLog => "chr"@ + decimal(segment.index as nat) + ".cdl"@,
    }
}

impl Segment {
    /// The fixed number of bytes in the segment.
    pub open spec fn spec_len(&self) -> usize {
        self.kind.spec_len()
    }

    /// The stream that the segment is taken from.
    pub open spec fn spec_source(&self) -> Source {
        self.kind.spec_source()
    }

    /// Where the segment starts in its stream: banks lie one behind the other,
    /// program banks before graphics banks, in the image behind the trainer.
    pub open spec fn spec_offset(&self, header: &RomHeader) -> usize {
        match self.kind {
            SegmentKind::Header | SegmentKind::Trainer => 0,
            SegmentKind::Prg => (trainer_len(*header) + self.index * 16384) as usize,
            SegmentKind::Chr => (trainer_len(*header) + header.prg_bank_count * 16384 + self.index
                * 8192) as usize,
            SegmentKind::PrgLog => (self.index * 16384) as usize,
            SegmentKind::ChrLog => (header.prg_bank_count * 16384 + self.index * 8192) as usize,
        }
    }

    /// Whether the segment is one of those that the header, and the presence
    /// of a log, call for.
    pub open spec fn spec_in_plan(&self, header: &RomHeader, with_log: bool) -> bool {
        match self.kind {
            SegmentKind::Header => self.index == 0,
            SegmentKind::Trainer => self.index == 0 && header.has_trainer(),
            SegmentKind::Prg => self.index < header.prg_bank_count,
            SegmentKind::Chr => self.index < header.chr_bank_count,
            SegmentKind::PrgLog => with_log && self.index < header.prg_bank_count,
            SegmentKind::ChrLog => with_log && self.index < header.chr_bank_count,
        }
    }

    /// The fixed number of bytes in the segment.
    #[verifier::when_used_as_spec(spec_len)]
    pub fn len(&self) -> (len: usize)
        ensures
            len == self.spec_len(),
    {
        self.kind.len()
    }

    /// The stream that the segment is taken from.
    #[verifier::when_used_as_spec(spec_source)]
    pub fn source(&self) -> (source: Source)
        ensures
            source == self.spec_source(),
    {
        self.kind.source()
    }

    /// Where the segment starts in its stream, for an image with `header`.
    ///
    /// In the image data the trainer comes first, then the program banks,
    /// then the graphics banks; in the log the program banks come first.
    #[verifier::when_used_as_spec(spec_offset)]
    pub fn offset(&self, header: &RomHeader) -> (offset: usize)
        ensures
            offset == self.spec_offset(header),
    {
        let trainer: usize = if header.has_trainer() {
            TRAINER_LEN
        } else {
            0
        };
        let index: usize = self.index as usize;
        let prg_count: usize = header.prg_bank_count as usize;
        match self.kind {
            SegmentKind::Header | SegmentKind::Trainer => 0,
            SegmentKind::Prg => trainer + index * PRG_BANK_LEN,
            SegmentKind::Chr => trainer + prg_count * PRG_BANK_LEN + index * CHR_BANK_LEN,
            SegmentKind::PrgLog => index * PRG_BANK_LEN,
            SegmentKind::ChrLog => prg_count * PRG_BANK_LEN + index * CHR_BANK_LEN,
        }
    }

    /// Whether splitting an image with `header` produces this segment.
    #[verifier::when_used_as_spec(spec_in_plan)]
    pub fn in_plan(&self, header: &RomHeader, with_log: bool) -> (planned: bool)
        ensures
            planned == self.spec_in_plan(header, with_log),
    {
        match self.kind {
            SegmentKind::Header => self.index == 0,
            SegmentKind::Trainer => self.index == 0 && header.has_trainer(),
            SegmentKind::Prg => self.index < header.prg_bank_count,
            SegmentKind::Chr => self.index < header.chr_bank_count,
            SegmentKind::PrgLog => with_log && self.index < header.prg_bank_count,
            SegmentKind::ChrLog => with_log && self.index < header.chr_bank_count,
        }
    }

    /// The name of the file that holds the segment: `header`, `trainer`,
    /// or the bank's kind, its index in decimal and an extension.
    pub fn file_name(&self) -> (name: String)
        ensures
            name@ == name_of(*self),
    {
        match self.kind {
            SegmentKind::Header => String::from_str("header"),
            SegmentKind::Trainer => String::from_str("trainer"),
            SegmentKind::Prg => bank_name("prg", self.index, ".prg"),
            SegmentKind::Chr => bank_name("chr", self.index, ".chr"),
            SegmentKind::PrgLog => bank_name("prg", self.index, ".cdl"),
            SegmentKind::ChrLog => bank_name("chr", self.index, ".cdl"),
        }
    }
}

/// The name of a bank file: a stem, the index in decimal, an extension.
fn bank_name(stem: &str, index: u8, extension: &str) -> (name: String)
    ensures
        name@ == stem@ + decimal(index as nat) + extension@,
{
    let mut name = String::from_str(stem);
    push_decimal(&mut name, index);
    name.append(extension);
    name
}

} // verus!
