use rom_breakdown::error::SplitError;
use rom_breakdown::format::{detect_format, Format};
use rom_breakdown::header::{
    can_decode, decode, Mirroring, PlayChoiceRule, RomHeader, TvSystem,
};
use rom_breakdown::segment::{Segment, SegmentKind};

fn header_bytes(prg: u8, chr: u8, flags6: u8, flags7: u8, flags8: u8, flags9: u8) -> Vec<u8> {
    vec![
        0x4E, 0x45, 0x53, 0x1A, prg, chr, flags6, flags7, flags8, flags9, 10, 11, 12, 13, 14, 15,
    ]
}

fn mapper_from_flags(flags6: u8, flags7: u8) -> u8 {
    let header = RomHeader {
        magic: [0x4E, 0x45, 0x53, 0x1A],
        prg_bank_count: 1,
        chr_bank_count: 1,
        flags6,
        flags7,
        flags8: 0,
        flags9: 0,
        reserved: [0; 6],
    };
    header.mapper_number()
}

#[test]
fn decode_reads_every_field() {
    let bytes = header_bytes(2, 1, 0x13, 0x21, 0x07, 0x01);
    let header = decode(&bytes).unwrap();
    assert_eq!(
        header,
        RomHeader {
            magic: [0x4E, 0x45, 0x53, 0x1A],
            prg_bank_count: 2,
            chr_bank_count: 1,
            flags6: 0x13,
            flags7: 0x21,
            flags8: 0x07,
            flags9: 0x01,
            reserved: [10, 11, 12, 13, 14, 15],
        }
    );
}

#[test]
fn decode_ignores_what_follows_the_header() {
    let mut bytes = header_bytes(1, 0, 0, 0, 0, 0);
    bytes.extend_from_slice(&[0xAA; 100]);
    let header = decode(&bytes).unwrap();
    assert_eq!(header.prg_bank_count, 1);
    assert_eq!(header.to_bytes(), bytes[..16].to_vec());
}

#[test]
fn to_bytes_gives_back_the_raw_header() {
    let bytes = header_bytes(200, 100, 0xF4, 0xE3, 0x0A, 0x01);
    assert_eq!(decode(&bytes).unwrap().to_bytes(), bytes);
}

#[test]
fn mapper_joins_the_two_high_nibbles() {
    let header = decode(&header_bytes(1, 1, 0x10, 0x20, 0, 0)).unwrap();
    assert_eq!(header.mapper_number(), 0x21);
    assert_eq!(mapper_from_flags(0x10, 0x20), 0x21);
}

#[test]
fn mapper_ignores_the_low_nibbles() {
    assert_eq!(mapper_from_flags(0x4F, 0x03), 4);
    assert_eq!(mapper_from_flags(0x0F, 0x03), 0);
    assert_eq!(mapper_from_flags(0xF0, 0xF0), 0xFF);
    assert_eq!(mapper_from_flags(0x5A, 0xC1), 0xC5);
}

#[test]
fn mapper_holds_for_every_pair_of_nibbles() {
    for low in 0u8..16 {
        for high in 0u8..16 {
            for rest in [0u8, 5, 15] {
                let flags6 = (low << 4) | rest;
                let flags7 = (high << 4) | (rest & 0x03);
                assert_eq!(mapper_from_flags(flags6, flags7), high * 16 + low);
            }
        }
    }
}

#[test]
fn wrong_signature_is_not_recognized() {
    let mut bytes = header_bytes(1, 1, 0, 0, 0, 0);
    bytes[3] = 0x1B;
    assert_eq!(decode(&bytes), Err(SplitError::FormatNotRecognized));
    assert!(!can_decode(&bytes));
    assert_eq!(detect_format(&bytes), Err(SplitError::FormatNotRecognized));
}

#[test]
fn every_signature_byte_counts() {
    for at in 0..4 {
        let mut bytes = header_bytes(1, 1, 0, 0, 0, 0);
        bytes[at] ^= 0x01;
        assert_eq!(decode(&bytes), Err(SplitError::FormatNotRecognized));
    }
}

#[test]
fn short_probe_is_not_recognized() {
    assert_eq!(decode(&[]), Err(SplitError::FormatNotRecognized));
    assert_eq!(decode(&[0x4E, 0x45, 0x53]), Err(SplitError::FormatNotRecognized));
    assert!(!can_decode(&[0x4E, 0x45, 0x53]));
}

#[test]
fn signature_alone_is_recognized_but_truncated() {
    let probe = [0x4E, 0x45, 0x53, 0x1A];
    assert!(can_decode(&probe));
    assert_eq!(detect_format(&probe), Ok(Format::Ines));
    let header = Segment { kind: SegmentKind::Header, index: 0 };
    assert_eq!(decode(&probe), Err(SplitError::Truncated(header)));
    let fifteen = &header_bytes(1, 1, 0, 0x08, 0, 0)[..15];
    assert_eq!(decode(fifteen), Err(SplitError::Truncated(header)));
}

#[test]
fn extended_revision_is_unsupported() {
    assert_eq!(
        decode(&header_bytes(1, 1, 0, 0x08, 0, 0)),
        Err(SplitError::UnsupportedRevision)
    );
    assert_eq!(
        decode(&header_bytes(255, 255, 0xFF, 0xFB, 0xFF, 0xFF)),
        Err(SplitError::UnsupportedRevision)
    );
}

#[test]
fn other_revision_bits_are_accepted() {
    for flags7 in [0x00u8, 0x04, 0x0C, 0xF4, 0x03] {
        assert!(decode(&header_bytes(1, 1, 0, flags7, 0, 0)).is_ok());
    }
}

#[test]
fn wrong_signature_wins_over_extended_revision() {
    let mut bytes = header_bytes(1, 1, 0, 0x08, 0, 0);
    bytes[0] = 0;
    assert_eq!(decode(&bytes), Err(SplitError::FormatNotRecognized));
}

#[test]
fn flags6_bits_are_read_one_by_one() {
    let plain = decode(&header_bytes(1, 1, 0x00, 0, 0, 0)).unwrap();
    assert_eq!(plain.mirroring(), Mirroring::Horizontal);
    assert!(!plain.has_battery());
    assert!(!plain.has_trainer());
    assert!(!plain.ignores_mirroring());

    let vertical = decode(&header_bytes(1, 1, 0x01, 0, 0, 0)).unwrap();
    assert_eq!(vertical.mirroring(), Mirroring::Vertical);
    assert!(!vertical.has_battery());

    let battery = decode(&header_bytes(1, 1, 0x02, 0, 0, 0)).unwrap();
    assert!(battery.has_battery());
    assert!(!battery.has_trainer());

    let trainer = decode(&header_bytes(1, 1, 0x04, 0, 0, 0)).unwrap();
    assert!(trainer.has_trainer());
    assert!(!trainer.ignores_mirroring());

    let ignoring = decode(&header_bytes(1, 1, 0x08, 0, 0, 0)).unwrap();
    assert!(ignoring.ignores_mirroring());
    assert_eq!(ignoring.mirroring(), Mirroring::Horizontal);
}

#[test]
fn console_flags_follow_the_chosen_rule() {
    let bit0 = decode(&header_bytes(1, 1, 0, 0x01, 0, 0)).unwrap();
    assert!(bit0.is_vs_unisystem());
    assert!(bit0.is_playchoice_10(PlayChoiceRule::SharedBit));
    assert!(!bit0.is_playchoice_10(PlayChoiceRule::OwnBit));

    let bit1 = decode(&header_bytes(1, 1, 0, 0x02, 0, 0)).unwrap();
    assert!(!bit1.is_vs_unisystem());
    assert!(!bit1.is_playchoice_10(PlayChoiceRule::SharedBit));
    assert!(bit1.is_playchoice_10(PlayChoiceRule::OwnBit));
}

#[test]
fn prg_ram_size_is_the_low_nibble_of_flags8() {
    assert_eq!(decode(&header_bytes(1, 1, 0, 0, 0xA7, 0)).unwrap().prg_ram_size(), 7);
    assert_eq!(decode(&header_bytes(1, 1, 0, 0, 0xF0, 0)).unwrap().prg_ram_size(), 0);
}

#[test]
fn tv_system_is_bit_zero_of_flags9() {
    assert_eq!(decode(&header_bytes(1, 1, 0, 0, 0, 0xFE)).unwrap().tv_system(), TvSystem::Ntsc);
    assert_eq!(decode(&header_bytes(1, 1, 0, 0, 0, 0x01)).unwrap().tv_system(), TvSystem::Pal);
}

#[test]
fn no_graphics_banks_means_graphics_ram() {
    assert!(decode(&header_bytes(1, 0, 0, 0, 0, 0)).unwrap().uses_chr_ram());
    assert!(!decode(&header_bytes(1, 1, 0, 0, 0, 0)).unwrap().uses_chr_ram());
}

#[test]
fn format_decodes_what_it_recognizes() {
    let bytes = header_bytes(3, 2, 0x40, 0x10, 0, 0);
    let format = detect_format(&bytes).unwrap();
    assert!(format.recognizes(&bytes));
    assert_eq!(format.decode_header(&bytes), decode(&bytes));
    assert_eq!(format.decode_header(&bytes).unwrap().mapper_number(), 0x14);
}
