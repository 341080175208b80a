//! The 16-byte iNES header and the fields packed into it.

use crate::error::SplitError;
use crate::segment::{Segment, SegmentKind};
use vstd::prelude::*;

verus! {

/// Number of bytes in an iNES header.
pub const HEADER_LEN: usize = 16;

/// Number of bytes in the signature that opens an iNES header.
pub const SIGNATURE_LEN: usize = 4;

/// The signature that opens every iNES header: `N`, `E`, `S`, `0x1A`.
pub open spec fn signature() -> Seq<u8> {
    seq![0x4Eu8, 0x45u8, 0x53u8, 0x1Au8]
}

/// Whether `bytes` starts with the iNES signature.
pub open spec fn has_signature(bytes: Seq<u8>) -> bool {
    bytes.len() >= 4 && bytes.take(4) == signature()
}

/// Whether bits 2 and 3 of `flags7` mark the extended NES 2.0 revision.
pub open spec fn is_extended_revision(flags7: u8) -> bool {
    flags7 & 0x0C == 0x08
}

/// The mapper number packed into two flag bytes: the high nibble of
/// `flags6` is its low nibble, the high nibble of `flags7` its high nibble.
pub open spec fn mapper_of(flags6: u8, flags7: u8) -> u8 {
    (flags6 >> 4) | (flags7 & 0xF0)
}

/// How the cartridge mirrors its name tables.
#[derive(Clone, Copy, Debug, PartialEq, Eq, Structural)]
pub enum Mirroring {
    Horizontal,
    Vertical,
}

/// The video timing standard the cartridge was made for.
#[derive(Clone, Copy, Debug, PartialEq, Eq, Structural)]
pub enum TvSystem {
    Ntsc,
    Pal,
}

/// Which bit of `flags7` marks a PlayChoice-10 cartridge.
///
/// The format assigns bit 1 to the PlayChoice-10 and bit 0 to the VS
/// Unisystem. Summaries in the field show the PlayChoice-10 label whenever
/// bit 0 is set. Both readings are kept until it is settled which one is
/// meant.
#[derive(Clone, Copy, Debug, PartialEq, Eq, Structural)]
pub enum PlayChoiceRule {
    /// Bit 0, the bit that also marks the VS Unisystem.
    SharedBit,
    /// Bit 1, a bit of its own.
    OwnBit,
}

/// A decoded iNES header.
#[derive(Clone, Copy, Debug, PartialEq, Eq)]
pub struct RomHeader {
    /// The four signature bytes.
    pub magic: [u8; 4],
    /// Number of 16 KiB program banks.
    pub prg_bank_count: u8,
    /// Number of 8 KiB graphics banks; zero means graphics RAM.
    pub chr_bank_count: u8,
    pub flags6: u8,
    pub flags7: u8,
    pub flags8: u8,
    pub flags9: u8,
    /// Bytes 10 to 15, which carry no field.
    pub reserved: [u8; 6],
}

impl RomHeader {
    /// The sixteen bytes this header stands for.
    pub open spec fn bytes(self) -> Seq<u8> {
        self.magic@ + seq![
            self.prg_bank_count,
            self.chr_bank_count,
            self.flags6,
            self.flags7,
            self.flags8,
            self.flags9,
        ] + self.reserved@
    }

    /// A header is valid when it carries the signature and is not of the
    /// extended revision.
    pub open spec fn is_valid(self) -> bool {
        self.magic@ == signature() && !is_extended_revision(self.flags7)
    }

    /// The mapper number that the two flag bytes carry.
    pub open spec fn spec_mapper_number(&self) -> u8 {
        mapper_of(self.flags6, self.flags7)
    }

    /// Vertical mirroring where bit 0 of `flags6` is set, horizontal otherwise.
    pub open spec fn spec_mirroring(&self) -> Mirroring {
        if self.flags6 & 0x01 == 0 {
            Mirroring::Horizontal
        } else {
            Mirroring::Vertical
        }
    }

    /// Bit 1 of `flags6`.
    pub open spec fn spec_has_battery(&self) -> bool {
        self.flags6 & 0x02 != 0
    }

    /// Bit 2 of `flags6`.
    pub open spec fn spec_has_trainer(&self) -> bool {
        self.flags6 & 0x04 != 0
    }

    /// Bit 3 of `flags6`.
    pub open spec fn spec_ignores_mirroring(&self) -> bool {
        self.flags6 & 0x08 != 0
    }

    /// Bit 0 of `flags7`.
    pub open spec fn spec_is_vs_unisystem(&self) -> bool {
        self.flags7 & 0x01 != 0
    }

    /// The bit of `flags7` that `rule` names.
    pub open spec fn spec_is_playchoice_10(&self, rule: PlayChoiceRule) -> bool {
        match rule {
            PlayChoiceRule::SharedBit => self.flags7 & 0x01 != 0,
            PlayChoiceRule::OwnBit => self.flags7 & 0x02 != 0,
        }
    }

    /// The low nibble of `flags8`.
    pub open spec fn spec_prg_ram_size(&self) -> u8 {
        self.flags8 & 0x0F
    }

    /// PAL where bit 0 of `flags9` is set, NTSC otherwise.
    pub open spec fn spec_tv_system(&self) -> TvSystem {
        if self.flags9 & 0x01 == 0 {
            TvSystem::Ntsc
        } else {
            TvSystem::Pal
        }
    }

    /// Whether the header counts no graphics bank.
    pub open spec fn spec_uses_chr_ram(&self) -> bool {
        self.chr_bank_count == 0
    }

    /// The mapper number: the high nibble of `flags6` as its low nibble,
    /// the high nibble of `flags7` as its high nibble.
    #[verifier::when_used_as_spec(spec_mapper_number)]
    pub fn mapper_number(&self) -> (mapper: u8)
        ensures
            mapper == self.spec_mapper_number(),
            mapper == 16 * (self.flags7 / 16) + self.flags6 / 16,
    {
        proof {
            lemma_mapper_is_nibble_sum(self.flags6, self.flags7);
        }
        (self.flags6 >> 4) | (self.flags7 & 0xF0)
    }

    /// The mirroring mode, bit 0 of `flags6`.
    #[verifier::when_used_as_spec(spec_mirroring)]
    pub fn mirroring(&self) -> (mode: Mirroring)
        ensures
            mode == self.spec_mirroring(),
    {
        if self.flags6 & 0x01 == 0 {
            Mirroring::Horizontal
        } else {
            Mirroring::Vertical
        }
    }

    /// Whether the cartridge has battery-backed memory, bit 1 of `flags6`.
    #[verifier::when_used_as_spec(spec_has_battery)]
    pub fn has_battery(&self) -> (present: bool)
        ensures
            present == self.spec_has_battery(),
    {
        self.flags6 & 0x02 != 0
    }

    /// Whether a 512-byte trainer follows the header, bit 2 of `flags6`.
    #[verifier::when_used_as_spec(spec_has_trainer)]
    pub fn has_trainer(&self) -> (present: bool)
        ensures
            present == self.spec_has_trainer(),
    {
        self.flags6 & 0x04 != 0
    }

    /// Whether the mirroring mode is to be ignored, bit 3 of `flags6`.
    #[verifier::when_used_as_spec(spec_ignores_mirroring)]
    pub fn ignores_mirroring(&self) -> (ignored: bool)
        ensures
            ignored == self.spec_ignores_mirroring(),
    {
        self.flags6 & 0x08 != 0
    }

    /// Whether the cartridge is for the VS Unisystem, bit 0 of `flags7`.
    #[verifier::when_used_as_spec(spec_is_vs_unisystem)]
    pub fn is_vs_unisystem(&self) -> (marked: bool)
        ensures
            marked == self.spec_is_vs_unisystem(),
    {
        self.flags7 & 0x01 != 0
    }

    /// Whether the cartridge is for the PlayChoice-10, read from the bit of
    /// `flags7` that `rule` names.
    #[verifier::when_used_as_spec(spec_is_playchoice_10)]
    pub fn is_playchoice_10(&self, rule: PlayChoiceRule) -> (marked: bool)
        ensures
            marked == self.spec_is_playchoice_10(rule),
    {
        match rule {
            PlayChoiceRule::SharedBit => self.flags7 & 0x01 != 0,
            PlayChoiceRule::OwnBit => self.flags7 & 0x02 != 0,
        }
    }

    /// The program-RAM size indicator, the low nibble of `flags8`.
    #[verifier::when_used_as_spec(spec_prg_ram_size)]
    pub fn prg_ram_size(&self) -> (size: u8)
        ensures
            size == self.spec_prg_ram_size(),
            size == self.flags8 % 16,
    {
        let flags8 = self.flags8;
        assert(flags8 & 0x0F == flags8 % 16) by (bit_vector);
        self.flags8 & 0x0F
    }

    /// The video timing standard, bit 0 of `flags9`.
    #[verifier::when_used_as_spec(spec_tv_system)]
    pub fn tv_system(&self) -> (system: TvSystem)
        ensures
            system == self.spec_tv_system(),
    {
        if self.flags9 & 0x01 == 0 {
            TvSystem::Ntsc
        } else {
            TvSystem::Pal
        }
    }

    /// Whether the cartridge has graphics RAM in place of graphics banks.
    #[verifier::when_used_as_spec(spec_uses_chr_ram)]
    pub fn uses_chr_ram(&self) -> (ram: bool)
        ensures
            ram == self.spec_uses_chr_ram(),
    {
        self.chr_bank_count == 0
    }

    /// The sixteen bytes of the header, as they stood in the image.
    pub fn to_bytes(&self) -> (raw: Vec<u8>)
        ensures
            raw@ == self.bytes(),
    {
        let mut raw: Vec<u8> = Vec::new();
        raw.push(self.magic[0]);
        raw.push(self.magic[1]);
        raw.push(self.magic[2]);
        raw.push(self.magic[3]);
        raw.push(self.prg_bank_count);
        raw.push(self.chr_bank_count);
        raw.push(self.flags6);
        raw.push(self.flags7);
        raw.push(self.flags8);
        raw.push(self.flags9);
        raw.push(self.reserved[0]);
        raw.push(self.reserved[1]);
        raw.push(self.reserved[2]);
        raw.push(self.reserved[3]);
        raw.push(self.reserved[4]);
        raw.push(self.reserved[5]);
        assert(raw@ =~= self.bytes());
        raw
    }
}

/// The mapper number is sixteen times the high nibble of `flags7` plus the
/// high nibble of `flags6`.
pub proof fn lemma_mapper_is_nibble_sum(flags6: u8, flags7: u8)
    ensures
        mapper_of(flags6, flags7) == 16 * (flags7 / 16) + flags6 / 16,
{
    assert((flags6 >> 4) | (flags7 & 0xF0) == 16 * (flags7 / 16) + flags6 / 16) by (bit_vector);
}

/// A mapper number is read back from flag bytes that were put together
/// nibble by nibble: with `low` in the high nibble of `flags6` and `high`
/// in the high nibble of `flags7`, the mapper is `16 * high + low`, whatever
/// the two low nibbles hold.
pub proof fn lemma_mapper_from_nibbles(low: u8, high: u8, rest6: u8, rest7: u8)
    requires
        low < 16,
        high < 16,
        rest6 < 16,
        rest7 < 16,
    ensures
        mapper_of((16 * low + rest6) as u8, (16 * high + rest7) as u8) == 16 * high + low,
{
    let flags6 = (16 * low + rest6) as u8;
    let flags7 = (16 * high + rest7) as u8;
    lemma_mapper_is_nibble_sum(flags6, flags7);
}

/// The header that the first sixteen bytes of `bytes` stand for.
pub open spec fn header_of(bytes: Seq<u8>) -> RomHeader {
    RomHeader {
        magic: [bytes[0], bytes[1], bytes[2], bytes[3]],
        prg_bank_count: bytes[4],
        chr_bank_count: bytes[5],
        flags6: bytes[6],
        flags7: bytes[7],
        flags8: bytes[8],
        flags9: bytes[9],
        reserved: [bytes[10], bytes[11], bytes[12], bytes[13], bytes[14], bytes[15]],
    }
}

/// The error with which decoding `bytes` ends, if it fails.
pub open spec fn decode_failure(bytes: Seq<u8>) -> Option<SplitError> {
    if !has_signature(bytes) {
        Some(SplitError::FormatNotRecognized)
    } else if bytes.len() < 16 {
        Some(SplitError::Truncated(Segment { kind: SegmentKind::Header, index: 0 }))
    } else if is_extended_revision(bytes[7]) {
        Some(SplitError::UnsupportedRevision)
    } else {
        None
    }
}

/// What decoding `bytes` gives: the error that the first failing test
/// calls for, or the header of the first sixteen bytes.
pub open spec fn decode_of(bytes: Seq<u8>) -> Result<RomHeader, SplitError> {
    match decode_failure(bytes) {
        Some(error) => Err(error),
        None => Ok(header_of(bytes)),
    }
}

/// Whether `probe`, the start of a stream, carries the iNES signature.
pub fn can_decode(probe: &[u8]) -> (found: bool)
    ensures
        found == has_signature(probe@),
{
    if probe.len() < SIGNATURE_LEN {
        return false;
    }
    let found = probe[0] == 0x4E && probe[1] == 0x45 && probe[2] == 0x53 && probe[3] == 0x1A;
    proof {
        let head = probe@.take(4);
        if found {
            assert(head =~= signature());
        } else {
            assert(head[0] == probe@[0] && head[1] == probe@[1] && head[2] == probe@[2] && head[3]
                == probe@[3]);
        }
    }
    found
}

/// Decodes the header at the start of `bytes`.
///
/// The signature is tested first, then the length, then the revision; the
/// header that comes out stands for exactly the first sixteen bytes.
pub fn decode(bytes: &[u8]) -> (decoded: Result<RomHeader, SplitError>)
    ensures
        decoded == decode_of(bytes@),
        decoded matches Ok(header) ==> header.is_valid() && header.bytes() == bytes@.take(16),
{
    if !can_decode(bytes) {
        return Err(SplitError::FormatNotRecognized);
    }
    if bytes.len() < HEADER_LEN {
        return Err(SplitError::Truncated(Segment { kind: SegmentKind::Header, index: 0 }));
    }
    let flags7 = bytes[7];
    if flags7 & 0x0C == 0x08 {
        return Err(SplitError::UnsupportedRevision);
    }
    let header = RomHeader {
        magic: [bytes[0], bytes[1], bytes[2], bytes[3]],
        prg_bank_count: bytes[4],
        chr_bank_count: bytes[5],
        flags6: bytes[6],
        flags7,
        flags8: bytes[8],
        flags9: bytes[9],
        reserved: [bytes[10], bytes[11], bytes[12], bytes[13], bytes[14], bytes[15]],
    };
    proof {
        assert(header.magic@ =~= bytes@.take(4));
        assert(bytes@.take(4) =~= bytes@.take(16).take(4));
        assert(header.bytes() =~= bytes@.take(16));
    }
    Ok(header)
}

} // verus!
