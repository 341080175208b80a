//! The order in which the segments of an image are taken.

use crate::header::RomHeader;
use crate::segment::{image_len, log_len, Segment, SegmentKind, Source};
use vstd::prelude::*;

verus! {

/// The banks of one kind, by rising index.
pub open spec fn banks(kind: SegmentKind, count: u8) -> Seq<Segment> {
    Seq::new(count as nat, |i: int| Segment { kind, index: i as u8 })
}

/// The trainer, where the header announces one.
pub open spec fn trainer_part(header: RomHeader) -> Seq<Segment> {
    if header.has_trainer() {
        seq![Segment { kind: SegmentKind::Trainer, index: 0 }]
    } else {
        Seq::empty()
    }
}

/// The log banks, where a log is given.
pub open spec fn log_part(header: RomHeader, with_log: bool) -> Seq<Segment> {
    if with_log {
        banks(SegmentKind::PrgLog, header.prg_bank_count) + banks(
            SegmentKind::ChrLog,
            header.chr_bank_count,
        )
    } else {
        Seq::empty()
    }
}

/// The segments of an image with `header`, in the order in which they are
/// taken: the header, the trainer if there is one, the program banks, the
/// graphics banks and, with a log, the program logs and the graphics logs.
pub open spec fn plan_of(header: RomHeader, with_log: bool) -> Seq<Segment> {
    seq![Segment { kind: SegmentKind::Header, index: 0 }] + trainer_part(header) + banks(
        SegmentKind::Prg,
        header.prg_bank_count,
    ) + banks(SegmentKind::Chr, header.chr_bank_count) + log_part(header, with_log)
}

/// Appends the banks of one kind to `plan`.
fn push_banks(plan: &mut Vec<Segment>, kind: SegmentKind, count: u8)
    ensures
        final(plan)@ == old(plan)@ + banks(kind, count),
{
    let mut index: u8 = 0;
    while index < count
        invariant
            index <= count,
            plan@ == old(plan)@ + banks(kind, index),
        decreases count - index,
    {
        plan.push(Segment { kind, index });
        index = index + 1;
    }
}

/// Lists the segments of an image with `header` in the order in which they
/// are taken.
pub fn plan(header: &RomHeader, with_log: bool) -> (segments: Vec<Segment>)
    ensures
        segments@ == plan_of(*header, with_log),
{
    let mut segments: Vec<Segment> = Vec::new();
    segments.push(Segment { kind: SegmentKind::Header, index: 0 });
    if header.has_trainer() {
        segments.push(Segment { kind: SegmentKind::Trainer, index: 0 });
    }
    push_banks(&mut segments, SegmentKind::Prg, header.prg_bank_count);
    push_banks(&mut segments, SegmentKind::Chr, header.chr_bank_count);
    if with_log {
        push_banks(&mut segments, SegmentKind::PrgLog, header.prg_bank_count);
        push_banks(&mut segments, SegmentKind::ChrLog, header.chr_bank_count);
    }
    segments
}

/// Number of segments that stand before the program banks.
pub open spec fn prg_start(header: RomHeader) -> int {
    if header.has_trainer() {
        2
    } else {
        1
    }
}

/// Where `segment` stands in the plan of an image with `header`.
pub open spec fn position_of(header: RomHeader, segment: Segment) -> int {
    match segment.kind {
        SegmentKind::Header => 0,
        SegmentKind::Trainer => 1,
        SegmentKind::Prg => prg_start(header) + segment.index,
        SegmentKind::Chr => prg_start(header) + header.prg_bank_count + segment.index,
        SegmentKind::PrgLog => prg_start(header) + header.prg_bank_count + header.chr_bank_count
            + segment.index,
        SegmentKind::ChrLog => prg_start(header) + 2 * header.prg_bank_count
            + header.chr_bank_count + segment.index,
    }
}

/// Number of segments in the plan of an image with `header`.
pub open spec fn plan_len(header: RomHeader, with_log: bool) -> int {
    prg_start(header) + header.prg_bank_count + header.chr_bank_count + if with_log {
        header.prg_bank_count + header.chr_bank_count
    } else {
        0
    }
}

/// The plan holds the header, the trainer if there is one, one segment for
/// each bank and, with a log, one more for each bank.
pub proof fn lemma_plan_len(header: RomHeader, with_log: bool)
    ensures
        plan_of(header, with_log).len() == plan_len(header, with_log),
{
}

/// A segment that belongs to the plan stands in it at its position.
pub proof fn lemma_planned_segment_is_at_its_position(
    header: RomHeader,
    with_log: bool,
    segment: Segment,
)
    requires
        segment.in_plan(&header, with_log),
    ensures
        0 <= position_of(header, segment) < plan_of(header, with_log).len(),
        plan_of(header, with_log)[position_of(header, segment)] == segment,
{
}

/// Every place of the plan holds a segment that belongs to it, and that
/// segment's position is the place: the plan lists each segment once.
pub proof fn lemma_plan_holds_what_is_planned(header: RomHeader, with_log: bool, place: int)
    requires
        0 <= place < plan_of(header, with_log).len(),
    ensures
        plan_of(header, with_log)[place].in_plan(&header, with_log),
        position_of(header, plan_of(header, with_log)[place]) == place,
{
}

/// The plan follows the streams: the header is its first segment, the
/// segment after the header starts the image data, the first log segment
/// starts the log, and where two neighbours in the plan come from one
/// stream the second starts where the first ends.
pub proof fn lemma_plan_follows_streams(header: RomHeader, with_log: bool, place: int)
    requires
        0 <= place < plan_of(header, with_log).len(),
    ensures
        plan_of(header, with_log)[place].source() == Source::Header <==> place == 0,
        place > 0 && plan_of(header, with_log)[place - 1].source() != plan_of(
            header,
            with_log,
        )[place].source() ==> plan_of(header, with_log)[place].offset(&header) == 0,
        place > 0 && plan_of(header, with_log)[place - 1].source() == plan_of(
            header,
            with_log,
        )[place].source() ==> plan_of(header, with_log)[place].offset(&header) == plan_of(
            header,
            with_log,
        )[place - 1].offset(&header) + plan_of(header, with_log)[place - 1].len(),
{
}

/// The last segment of each stream ends where a complete stream ends: the
/// image data after `image_len` bytes, the log after `log_len` bytes.
pub proof fn lemma_plan_fills_streams(header: RomHeader, with_log: bool, place: int)
    requires
        0 <= place < plan_of(header, with_log).len(),
    ensures
        plan_of(header, with_log)[place].source() == Source::Image ==> plan_of(
            header,
            with_log,
        )[place].offset(&header) + plan_of(header, with_log)[place].len() <= image_len(header),
        plan_of(header, with_log)[place].source() == Source::Log ==> plan_of(
            header,
            with_log,
        )[place].offset(&header) + plan_of(header, with_log)[place].len() <= log_len(header),
{
}

} // verus!
