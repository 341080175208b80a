use rom_breakdown::decimal::push_decimal;
use rom_breakdown::error::SplitError;
use rom_breakdown::header::{decode, RomHeader};
use rom_breakdown::plan::plan;
use rom_breakdown::segment::{Segment, SegmentKind, Source};

fn header_with(prg: u8, chr: u8, flags6: u8) -> RomHeader {
    decode(&[0x4E, 0x45, 0x53, 0x1A, prg, chr, flags6, 0, 0, 0, 0, 0, 0, 0, 0, 0]).unwrap()
}

fn seg(kind: SegmentKind, index: u8) -> Segment {
    Segment { kind, index }
}

#[test]
fn decimal_text_has_no_padding() {
    for (n, text) in [(0u8, "0"), (7, "7"), (9, "9"), (10, "10"), (42, "42"), (99, "99"),
        (100, "100"), (105, "105"), (110, "110"), (200, "200"), (255, "255")]
    {
        let mut shown = String::from("x");
        push_decimal(&mut shown, n);
        assert_eq!(shown, format!("x{}", text));
    }
}

#[test]
fn decimal_text_matches_std_for_every_byte() {
    for n in 0u8..=255 {
        let mut shown = String::new();
        push_decimal(&mut shown, n);
        assert_eq!(shown, format!("{}", n));
    }
}

#[test]
fn file_names_carry_kind_and_index() {
    assert_eq!(seg(SegmentKind::Header, 0).file_name(), "header");
    assert_eq!(seg(SegmentKind::Trainer, 0).file_name(), "trainer");
    assert_eq!(seg(SegmentKind::Prg, 0).file_name(), "prg0.prg");
    assert_eq!(seg(SegmentKind::Prg, 12).file_name(), "prg12.prg");
    assert_eq!(seg(SegmentKind::Chr, 255).file_name(), "chr255.chr");
    assert_eq!(seg(SegmentKind::PrgLog, 7).file_name(), "prg7.cdl");
    assert_eq!(seg(SegmentKind::ChrLog, 100).file_name(), "chr100.cdl");
}

#[test]
fn segment_lengths_are_fixed() {
    assert_eq!(seg(SegmentKind::Header, 0).len(), 16);
    assert_eq!(seg(SegmentKind::Trainer, 0).len(), 512);
    assert_eq!(seg(SegmentKind::Prg, 3).len(), 16384);
    assert_eq!(seg(SegmentKind::Chr, 3).len(), 8192);
    assert_eq!(seg(SegmentKind::PrgLog, 3).len(), 16384);
    assert_eq!(seg(SegmentKind::ChrLog, 3).len(), 8192);
    assert_eq!(SegmentKind::Prg.len(), 16384);
}

#[test]
fn segments_name_their_stream() {
    assert_eq!(seg(SegmentKind::Header, 0).source(), Source::Header);
    assert_eq!(seg(SegmentKind::Trainer, 0).source(), Source::Image);
    assert_eq!(seg(SegmentKind::Prg, 1).source(), Source::Image);
    assert_eq!(seg(SegmentKind::Chr, 1).source(), Source::Image);
    assert_eq!(seg(SegmentKind::PrgLog, 1).source(), Source::Log);
    assert_eq!(seg(SegmentKind::ChrLog, 1).source(), Source::Log);
    assert_eq!(SegmentKind::ChrLog.source(), Source::Log);
}

#[test]
fn offsets_without_trainer() {
    let header = header_with(2, 3, 0);
    assert_eq!(seg(SegmentKind::Header, 0).offset(&header), 0);
    assert_eq!(seg(SegmentKind::Prg, 0).offset(&header), 0);
    assert_eq!(seg(SegmentKind::Prg, 1).offset(&header), 16384);
    assert_eq!(seg(SegmentKind::Chr, 0).offset(&header), 32768);
    assert_eq!(seg(SegmentKind::Chr, 2).offset(&header), 32768 + 16384);
    assert_eq!(seg(SegmentKind::PrgLog, 1).offset(&header), 16384);
    assert_eq!(seg(SegmentKind::ChrLog, 1).offset(&header), 32768 + 8192);
}

#[test]
fn offsets_with_trainer() {
    let header = header_with(2, 3, 0x04);
    assert_eq!(seg(SegmentKind::Trainer, 0).offset(&header), 0);
    assert_eq!(seg(SegmentKind::Prg, 0).offset(&header), 512);
    assert_eq!(seg(SegmentKind::Prg, 1).offset(&header), 512 + 16384);
    assert_eq!(seg(SegmentKind::Chr, 0).offset(&header), 512 + 32768);
    assert_eq!(seg(SegmentKind::PrgLog, 0).offset(&header), 0);
    assert_eq!(seg(SegmentKind::ChrLog, 0).offset(&header), 32768);
}

#[test]
fn largest_offset_fits() {
    let header = header_with(255, 255, 0x04);
    assert_eq!(
        seg(SegmentKind::Chr, 254).offset(&header),
        512 + 255 * 16384 + 254 * 8192
    );
}

#[test]
fn plan_without_trainer_and_log() {
    let header = header_with(2, 1, 0);
    assert_eq!(
        plan(&header, false),
        vec![
            seg(SegmentKind::Header, 0),
            seg(SegmentKind::Prg, 0),
            seg(SegmentKind::Prg, 1),
            seg(SegmentKind::Chr, 0),
        ]
    );
}

#[test]
fn plan_with_trainer_and_log() {
    let header = header_with(1, 2, 0x04);
    assert_eq!(
        plan(&header, true),
        vec![
            seg(SegmentKind::Header, 0),
            seg(SegmentKind::Trainer, 0),
            seg(SegmentKind::Prg, 0),
            seg(SegmentKind::Chr, 0),
            seg(SegmentKind::Chr, 1),
            seg(SegmentKind::PrgLog, 0),
            seg(SegmentKind::ChrLog, 0),
            seg(SegmentKind::ChrLog, 1),
        ]
    );
}

#[test]
fn plan_of_an_empty_image_is_the_header() {
    let header = header_with(0, 0, 0);
    assert_eq!(plan(&header, true), vec![seg(SegmentKind::Header, 0)]);
}

#[test]
fn plan_of_the_largest_image() {
    let header = header_with(255, 255, 0x04);
    let segments = plan(&header, true);
    assert_eq!(segments.len(), 2 + 4 * 255);
    assert_eq!(segments[2 + 254], seg(SegmentKind::Prg, 254));
    assert_eq!(segments[2 + 255], seg(SegmentKind::Chr, 0));
    assert_eq!(segments[2 + 3 * 255], seg(SegmentKind::ChrLog, 0));
    assert_eq!(segments[2 + 4 * 255 - 1], seg(SegmentKind::ChrLog, 254));
}

#[test]
fn plan_follows_each_stream_without_gaps() {
    let header = header_with(3, 2, 0x04);
    let segments = plan(&header, true);
    let mut image_at = 0;
    let mut log_at = 0;
    for segment in &segments {
        assert!(segment.in_plan(&header, true));
        match segment.source() {
            Source::Header => assert_eq!(segment.offset(&header), 0),
            Source::Image => {
                assert_eq!(segment.offset(&header), image_at);
                image_at += segment.len();
            }
            Source::Log => {
                assert_eq!(segment.offset(&header), log_at);
                log_at += segment.len();
            }
        }
    }
    assert_eq!(image_at, 512 + 3 * 16384 + 2 * 8192);
    assert_eq!(log_at, 3 * 16384 + 2 * 8192);
}

#[test]
fn membership_in_the_plan() {
    let header = header_with(2, 1, 0);
    assert!(seg(SegmentKind::Header, 0).in_plan(&header, false));
    assert!(!seg(SegmentKind::Header, 1).in_plan(&header, false));
    assert!(!seg(SegmentKind::Trainer, 0).in_plan(&header, false));
    assert!(seg(SegmentKind::Trainer, 0).in_plan(&header_with(2, 1, 0x04), false));
    assert!(seg(SegmentKind::Prg, 1).in_plan(&header, false));
    assert!(!seg(SegmentKind::Prg, 2).in_plan(&header, false));
    assert!(seg(SegmentKind::Chr, 0).in_plan(&header, false));
    assert!(!seg(SegmentKind::Chr, 1).in_plan(&header, false));
    assert!(!seg(SegmentKind::PrgLog, 0).in_plan(&header, false));
    assert!(seg(SegmentKind::PrgLog, 1).in_plan(&header, true));
    assert!(!seg(SegmentKind::ChrLog, 1).in_plan(&header, true));
    assert!(seg(SegmentKind::ChrLog, 0).in_plan(&header, true));
}

#[test]
fn messages_name_what_went_wrong() {
    assert_eq!(SplitError::FormatNotRecognized.message(), "Format not supported");
    assert_eq!(
        SplitError::UnsupportedRevision.message(),
        "NES 2.0 headers are not supported"
    );
    assert_eq!(SplitError::Aborted.message(), "Operation aborted.");
    assert_eq!(
        SplitError::Truncated(seg(SegmentKind::Prg, 1)).message(),
        "Input ends before the end of prg1.prg"
    );
    assert_eq!(
        SplitError::Truncated(seg(SegmentKind::ChrLog, 30)).message(),
        "Input ends before the end of chr30.cdl"
    );
    assert_eq!(
        SplitError::Truncated(seg(SegmentKind::Header, 0)).message(),
        "Input ends before the end of header"
    );
}
