//! Splitting an image into one file per segment.

use crate::error::SplitError;
use crate::header::{decode, decode_of, has_signature, is_extended_revision, RomHeader};
use crate::plan::{
    lemma_plan_fills_streams, lemma_plan_holds_what_is_planned, lemma_plan_len,
    lemma_planned_segment_is_at_its_position, plan, plan_len, plan_of, prg_start,
};
use crate::segment::{image_len, log_len, name_of, trainer_len, Segment, SegmentKind, Source};
use vstd::prelude::*;
use vstd::slice::slice_subrange;
use vstd::slice::slice_to_vec;

verus! {

/// A file to be written: the segment it holds, its name and its bytes.
#[derive(Clone, Debug, PartialEq, Eq)]
pub struct OutputFile {
    pub segment: Segment,
    pub name: String,
    pub content: Vec<u8>,
}

/// An output file as a plain value.
pub struct FileView {
    pub segment: Segment,
    pub name: Seq<char>,
    pub content: Seq<u8>,
}

impl View for OutputFile {
    type V = FileView;

    open spec fn view(&self) -> FileView {
        FileView { segment: self.segment, name: self.name@, content: self.content@ }
    }
}

/// How a split ended: the files that were produced, in order, and the error
/// that stopped it, if one did.
#[derive(Clone, Debug, PartialEq, Eq)]
pub struct SplitReport {
    pub files: Vec<OutputFile>,
    pub error: Option<SplitError>,
}

/// A report as a plain value.
pub struct ReportView {
    pub files: Seq<FileView>,
    pub error: Option<SplitError>,
}

impl View for SplitReport {
    type V = ReportView;

    open spec fn view(&self) -> ReportView {
        ReportView {
            files: Seq::new(self.files@.len(), |i: int| self.files@[i]@),
            error: self.error,
        }
    }
}

/// The file that holds `segment` when its bytes are `content`.
pub open spec fn file_of(segment: Segment, content: Seq<u8>) -> FileView {
    FileView { segment, name: name_of(segment), content }
}

/// The stream that `source` names.
pub open spec fn stream_of(
    source: Source,
    header: RomHeader,
    image: Seq<u8>,
    log: Option<Seq<u8>>,
) -> Seq<u8> {
    match source {
        Source::Header => header.bytes(),
        Source::Image => image,
        Source::Log => match log {
            Some(bytes) => bytes,
            None => Seq::empty(),
        },
    }
}

/// Whether the stream of `segment` reaches to the end of the segment.
pub open spec fn is_available(
    segment: Segment,
    header: RomHeader,
    image: Seq<u8>,
    log: Option<Seq<u8>>,
) -> bool {
    segment.offset(&header) + segment.len() <= stream_of(segment.source(), header, image, log).len()
}

/// The file that a split produces for `segment`: the bytes of its stream
/// from the segment's offset on, as many as the segment is long.
pub open spec fn expected_file(
    segment: Segment,
    header: RomHeader,
    image: Seq<u8>,
    log: Option<Seq<u8>>,
) -> FileView {
    file_of(
        segment,
        stream_of(segment.source(), header, image, log).subrange(
            segment.offset(&header) as int,
            segment.offset(&header) + segment.len(),
        ),
    )
}

/// Whether `report` is what splitting gives for an image with `header`,
/// with `image` as the bytes that follow the header and `log` as the log.
///
/// The files stand for the leading segments of the plan, one each and in
/// order, up to the first segment whose stream ends too early. That segment
/// is named in the error; where there is none, every segment has its file.
pub open spec fn is_split_of(
    report: ReportView,
    header: RomHeader,
    image: Seq<u8>,
    log: Option<Seq<u8>>,
) -> bool {
    let segments = plan_of(header, log is Some);
    let done = report.files.len() as int;
    &&& done <= segments.len()
    &&& forall|i: int|
        0 <= i < done ==> is_available(#[trigger] segments[i], header, image, log)
            && report.files[i] == expected_file(segments[i], header, image, log)
    &&& match report.error {
        None => done == segments.len(),
        Some(error) => done < segments.len() && !is_available(segments[done], header, image, log)
            && error == SplitError::Truncated(segments[done]),
    }
}

/// Turns the bytes that were read for `segment` into its file.
///
/// `data` is what the stream gave when the segment's length was asked for.
/// With fewer bytes than that the input is truncated; otherwise the file
/// holds the first bytes of `data`, as many as the segment is long.
pub fn extract(segment: Segment, data: &[u8]) -> (extracted: Result<OutputFile, SplitError>)
    ensures
        match extracted {
            Ok(file) => data@.len() >= segment.len() && file@ == file_of(
                segment,
                data@.take(segment.len() as int),
            ),
            Err(error) => data@.len() < segment.len() && error == SplitError::Truncated(segment),
        },
{
    let len = segment.len();
    if data.len() < len {
        return Err(SplitError::Truncated(segment));
    }
    let content = slice_to_vec(slice_subrange(data, 0, len));
    Ok(OutputFile { segment, name: segment.file_name(), content })
}

/// The part of `stream` from `offset` on, `len` bytes long or as many as
/// there are.
fn window(stream: &[u8], offset: usize, len: usize) -> (part: &[u8])
    requires
        0 < len,
        offset + len <= usize::MAX,
    ensures
        offset + len <= stream@.len() ==> part@ == stream@.subrange(
            offset as int,
            offset + len,
        ),
        offset + len > stream@.len() ==> part@.len() < len,
{
    if offset >= stream.len() {
        slice_subrange(stream, 0, 0)
    } else if offset + len <= stream.len() {
        slice_subrange(stream, offset, offset + len)
    } else {
        slice_subrange(stream, offset, stream.len())
    }
}

/// The log as a plain value.
pub open spec fn log_view(log: Option<&[u8]>) -> Option<Seq<u8>> {
    match log {
        Some(bytes) => Some(bytes@),
        None => None,
    }
}

/// Splits an image whose header is `header`: `image` holds the bytes that
/// follow the header, `log` the code/data log if one is given.
///
/// The segments are taken in the order of the plan. The first one whose
/// stream ends too early stops the split; the files before it stay in the
/// report, and no byte of a file is made up.
pub fn split_banks(header: &RomHeader, image: &[u8], log: Option<&[u8]>) -> (report: SplitReport)
    ensures
        is_split_of(report@, *header, image@, log_view(log)),
{
    let segments = plan(header, log.is_some());
    let raw = header.to_bytes();
    let mut files: Vec<OutputFile> = Vec::new();
    let mut done: usize = 0;
    while done < segments.len()
        invariant
            done <= segments.len(),
            segments@ == plan_of(*header, log is Some),
            raw@ == header.bytes(),
            files@.len() == done,
            forall|i: int|
                0 <= i < done ==> is_available(
                    #[trigger] segments@[i],
                    *header,
                    image@,
                    log_view(log),
                ) && files@[i]@ == expected_file(segments@[i], *header, image@, log_view(log)),
        decreases segments.len() - done,
    {
        let segment = segments[done];
        let stream: &[u8] = match segment.source() {
            Source::Header => raw.as_slice(),
            Source::Image => image,
            Source::Log => match log {
                Some(bytes) => bytes,
                None => slice_subrange(image, 0, 0),
            },
        };
        assert(stream@ == stream_of(segment.source(), *header, image@, log_view(log)));
        let offset = segment.offset(header);
        let part = window(stream, offset, segment.len());
        match extract(segment, part) {
            Ok(file) => {
                assert(file@ == expected_file(segment, *header, image@, log_view(log))) by {
                    assert(part@.take(segment.len() as int) =~= part@);
                }
                files.push(file);
                done = done + 1;
            },
            Err(error) => {
                return SplitReport { files, error: Some(error) };
            },
        }
    }
    SplitReport { files, error: None }
}

/// Whether the answer to "proceed?" lets the split go on.
///
/// `y` and `Y` do, and so does any control byte (below the space), which
/// is what an empty line gives. Every other byte declines.
pub open spec fn spec_confirms(answer: u8) -> bool {
    answer == 0x79 || answer == 0x59 || answer < 0x20
}

/// Whether the answer to "proceed?" lets the split go on.
#[verifier::when_used_as_spec(spec_confirms)]
pub fn confirms(answer: u8) -> (proceed: bool)
    ensures
        proceed == spec_confirms(answer),
{
    answer == 0x79 || answer == 0x59 || answer < 0x20
}

/// What `split_image` gives for `image`, `log` and `answer`.
///
/// An image that does not decode gives the decoder's error, a declining
/// answer gives `Aborted`, both without any file. Otherwise the report is
/// the split of the bytes after the header.
pub open spec fn is_outcome_of(
    report: ReportView,
    image: Seq<u8>,
    log: Option<Seq<u8>>,
    answer: u8,
) -> bool {
    match decode_of(image) {
        Err(error) => report.files.len() == 0 && report.error == Some(error),
        Ok(header) => if confirms(answer) {
            is_split_of(report, header, image.skip(16), log)
        } else {
            report.files.len() == 0 && report.error == Some(SplitError::Aborted)
        },
    }
}

/// Decodes the header of `image`, asks `answer` whether to proceed and
/// splits the image, with `log` as its code/data log if one is given.
pub fn split_image(image: &[u8], log: Option<&[u8]>, answer: u8) -> (report: SplitReport)
    ensures
        is_outcome_of(report@, image@, log_view(log), answer),
{
    match decode(image) {
        Err(error) => SplitReport { files: Vec::new(), error: Some(error) },
        Ok(header) => {
            if !confirms(answer) {
                return SplitReport { files: Vec::new(), error: Some(SplitError::Aborted) };
            }
            let body = slice_subrange(image, 16, image.len());
            assert(body@ == image@.skip(16));
            split_banks(&header, body, log)
        },
    }
}

/// A split is determined by its inputs: it stops at the first segment of
/// the plan whose stream ends too early, and at no other.
pub proof fn lemma_split_stops_at_first_gap(
    report: ReportView,
    header: RomHeader,
    image: Seq<u8>,
    log: Option<Seq<u8>>,
    gap: int,
)
    requires
        is_split_of(report, header, image, log),
        0 <= gap < plan_of(header, log is Some).len(),
        !is_available(plan_of(header, log is Some)[gap], header, image, log),
        forall|i: int|
            0 <= i < gap ==> is_available(
                #[trigger] plan_of(header, log is Some)[i],
                header,
                image,
                log,
            ),
    ensures
        report.files.len() == gap,
        report.error == Some(SplitError::Truncated(plan_of(header, log is Some)[gap])),
{
    let segments = plan_of(header, log is Some);
    let done = report.files.len() as int;
    if done > gap {
        assert(is_available(segments[gap], header, image, log));
    }
    if done < gap {
        assert(is_available(segments[done], header, image, log));
    }
}

/// Where every segment of the plan is available the split ends without an
/// error, with one file for each segment.
pub proof fn lemma_split_of_complete_streams(
    report: ReportView,
    header: RomHeader,
    image: Seq<u8>,
    log: Option<Seq<u8>>,
)
    requires
        is_split_of(report, header, image, log),
        forall|i: int|
            0 <= i < plan_of(header, log is Some).len() ==> is_available(
                #[trigger] plan_of(header, log is Some)[i],
                header,
                image,
                log,
            ),
    ensures
        report.error is None,
        report.files.len() == plan_of(header, log is Some).len(),
{
    let segments = plan_of(header, log is Some);
    let done = report.files.len() as int;
    if done < segments.len() {
        assert(is_available(segments[done], header, image, log));
    }
}

/// Every file of a split is as long as its segment is declared to be, and
/// stands for the segment at its place in the plan.
pub proof fn lemma_files_have_declared_length(
    report: ReportView,
    header: RomHeader,
    image: Seq<u8>,
    log: Option<Seq<u8>>,
    place: int,
)
    requires
        is_split_of(report, header, image, log),
        0 <= place < report.files.len(),
    ensures
        report.files[place].segment == plan_of(header, log is Some)[place],
        report.files[place].content.len() == report.files[place].segment.len(),
{
    let segment = plan_of(header, log is Some)[place];
    assert(is_available(segment, header, image, log));
}

/// An image that is nothing but `blocks.len()` full program banks behind
/// its header splits without error into the header file and one file for
/// each bank; the file of bank `i` holds the bytes of block `i`.
pub proof fn lemma_full_prg_banks_come_out_in_order(
    report: ReportView,
    header: RomHeader,
    image: Seq<u8>,
    blocks: Seq<Seq<u8>>,
)
    requires
        is_split_of(report, header, image, None),
        !header.has_trainer(),
        header.chr_bank_count == 0,
        header.prg_bank_count == blocks.len(),
        image.len() == blocks.len() * 16384,
        forall|i: int|
            0 <= i < blocks.len() ==> #[trigger] blocks[i] == image.subrange(
                i * 16384,
                (i + 1) * 16384,
            ),
    ensures
        report.error is None,
        report.files.len() == blocks.len() + 1,
        report.files[0] == file_of(Segment { kind: SegmentKind::Header, index: 0 }, header.bytes()),
        forall|i: int|
            0 <= i < blocks.len() ==> #[trigger] report.files[i + 1] == file_of(
                Segment { kind: SegmentKind::Prg, index: i as u8 },
                blocks[i],
            ),
{
    let segments = plan_of(header, false);
    assert forall|i: int| 0 <= i < segments.len() implies is_available(
        #[trigger] segments[i],
        header,
        image,
        None,
    ) by {
        lemma_plan_holds_what_is_planned(header, false, i);
    }
    lemma_split_of_complete_streams(report, header, image, None);
    assert(report.files[0] == expected_file(segments[0], header, image, None));
    assert(header.bytes().subrange(0, 16) =~= header.bytes());
    assert forall|i: int| 0 <= i < blocks.len() implies #[trigger] report.files[i + 1] == file_of(
        Segment { kind: SegmentKind::Prg, index: i as u8 },
        blocks[i],
    ) by {
        assert(segments[i + 1] == Segment { kind: SegmentKind::Prg, index: i as u8 });
        assert(report.files[i + 1] == expected_file(segments[i + 1], header, image, None));
    }
}

/// Image data that ends inside program bank `bank` stops the split at that
/// bank: the error names it, the files before it are all there, and no
/// file stands for the bank that was cut short.
pub proof fn lemma_truncated_prg_bank_stops_split(
    report: ReportView,
    header: RomHeader,
    image: Seq<u8>,
    log: Option<Seq<u8>>,
    bank: int,
)
    requires
        is_split_of(report, header, image, log),
        0 <= bank < header.prg_bank_count,
        trainer_len(header) + bank * 16384 <= image.len() < trainer_len(header) + (bank + 1)
            * 16384,
    ensures
        report.error == Some(
            SplitError::Truncated(Segment { kind: SegmentKind::Prg, index: bank as u8 }),
        ),
        report.files.len() == prg_start(header) + bank,
        forall|i: int|
            0 <= i < report.files.len() ==> (#[trigger] report.files[i]).segment != (Segment {
                kind: SegmentKind::Prg,
                index: bank as u8,
            }),
{
    let segments = plan_of(header, log is Some);
    let cut = Segment { kind: SegmentKind::Prg, index: bank as u8 };
    let gap = prg_start(header) + bank;
    lemma_planned_segment_is_at_its_position(header, log is Some, cut);
    assert(segments[gap] == cut);
    assert forall|i: int| 0 <= i < gap implies is_available(
        #[trigger] segments[i],
        header,
        image,
        log,
    ) by {
        lemma_plan_holds_what_is_planned(header, log is Some, i);
    }
    lemma_split_stops_at_first_gap(report, header, image, log, gap);
    assert forall|i: int| 0 <= i < report.files.len() implies (#[trigger] report.files[i]).segment
        != cut by {
        lemma_files_have_declared_length(report, header, image, log, i);
        lemma_plan_holds_what_is_planned(header, log is Some, i);
    }
}

/// With a log that is exactly as long as the banks of the header call for,
/// no log segment is cut short: a complete image splits without error, and
/// each log file is as long as its bank.
pub proof fn lemma_exact_log_gives_full_log_files(
    report: ReportView,
    header: RomHeader,
    image: Seq<u8>,
    log: Seq<u8>,
)
    requires
        is_split_of(report, header, image, Some(log)),
        log.len() == log_len(header),
    ensures
        forall|i: int|
            0 <= i < report.files.len() ==> (#[trigger] report.files[i]).content.len()
                == report.files[i].segment.len(),
        forall|i: int|
            0 <= i < plan_of(header, true).len() && (#[trigger] plan_of(
                header,
                true,
            )[i]).source() == Source::Log ==> is_available(
                plan_of(header, true)[i],
                header,
                image,
                Some(log),
            ),
        image.len() >= image_len(header) ==> report.error is None && report.files.len()
            == plan_len(header, true),
{
    let segments = plan_of(header, true);
    assert forall|i: int| 0 <= i < report.files.len() implies (#[trigger] report.files[i]).content.len()
        == report.files[i].segment.len() by {
        lemma_files_have_declared_length(report, header, image, Some(log), i);
    }
    assert forall|i: int|
        0 <= i < segments.len() && (#[trigger] segments[i]).source()
            == Source::Log implies is_available(segments[i], header, image, Some(log)) by {
        lemma_plan_fills_streams(header, true, i);
    }
    if image.len() >= image_len(header) {
        assert forall|i: int| 0 <= i < segments.len() implies is_available(
            #[trigger] segments[i],
            header,
            image,
            Some(log),
        ) by {
            lemma_plan_fills_streams(header, true, i);
        }
        lemma_split_of_complete_streams(report, header, image, Some(log));
        lemma_plan_len(header, true);
    }
}

/// An image that does not open with the signature is turned away as not
/// recognized, and no file is produced, whatever else it holds and
/// whatever the answer is.
pub proof fn lemma_wrong_signature_gives_no_file(
    report: ReportView,
    image: Seq<u8>,
    log: Option<Seq<u8>>,
    answer: u8,
)
    requires
        is_outcome_of(report, image, log, answer),
        !has_signature(image),
    ensures
        report.files.len() == 0,
        report.error == Some(SplitError::FormatNotRecognized),
{
}

/// A header of the extended revision is turned away as unsupported, and no
/// file is produced, whatever the other fields hold and whatever the
/// answer is.
pub proof fn lemma_extended_revision_gives_no_file(
    report: ReportView,
    image: Seq<u8>,
    log: Option<Seq<u8>>,
    answer: u8,
)
    requires
        is_outcome_of(report, image, log, answer),
        has_signature(image),
        image.len() >= 16,
        is_extended_revision(image[7]),
    ensures
        report.files.len() == 0,
        report.error == Some(SplitError::UnsupportedRevision),
{
}

/// An answer that declines ends the run as aborted before any file is
/// produced, whatever the image and the log hold.
pub proof fn lemma_declined_answer_gives_no_file(
    report: ReportView,
    image: Seq<u8>,
    log: Option<Seq<u8>>,
    answer: u8,
)
    requires
        is_outcome_of(report, image, log, answer),
        !confirms(answer),
    ensures
        report.files.len() == 0,
        report.error is Some,
        decode_of(image) is Ok ==> report.error == Some(SplitError::Aborted),
{
}

} // verus!
