//! The analysis of one file, step by step.
//!
//! Reading a file is the host's work; deciding what to read next and what
//! each answer means is done here. An [`Analyzer`] names the next
//! [`Request`], the host carries it out and reports the [`Observation`],
//! and so on until the request is [`Request::Done`]. Then
//! [`Analyzer::finish`] hands out the record.

use crate::analysis::{
    analyze_char_frequencies, analyze_text_counts, error_views, FileAnalysis, FileAnalysisView,
    FileStats, FileStatsView, ProcessingError, ProcessingErrorView,
};
use crate::elapsed::Elapsed;
use vstd::prelude::*;
use vstd::utf8::{decode_utf8, valid_utf8};

verus! {

/// Where the analysis of a file stands.
#[derive(Clone, Copy, Debug, PartialEq, Eq, Structural)]
pub enum Phase {
    /// Nothing was done yet.
    Pending,
    /// The signal was clear at the start; the metadata is wanted.
    AwaitingMetadata,
    /// The size is recorded; the content is wanted.
    AwaitingContent,
    /// The content is held; the signal is wanted once more.
    ContentRead,
    /// Ended: the signal was set.
    Cancelled,
    /// Ended: the metadata could not be had.
    MetadataFailed,
    /// Ended: the content could not be read, or is not text.
    ReadFailed,
    /// Ended: the content was counted.
    Analyzed,
}

/// What the host is asked to do next.
#[derive(Clone, Copy, Debug, PartialEq, Eq, Structural)]
pub enum Request {
    /// Read the cancellation signal.
    CheckSignal,
    /// Ask the file system for the file's size.
    QueryMetadata,
    /// Read the whole file.
    ReadContent,
    /// Nothing: the analysis has ended.
    Done,
}

/// What the host found when it carried out a request.
#[derive(Debug)]
pub enum Observation {
    /// Whether the cancellation signal is set.
    Signal(bool),
    /// The file's size in bytes, or why it could not be had.
    Metadata(Result<u64, String>),
    /// The file's bytes, or why they could not be read.
    Content(Result<Vec<u8>, String>),
}

/// An [`Observation`] as mathematical values.
pub enum ObservationView {
    Signal(bool),
    Metadata(Result<u64, Seq<char>>),
    Content(Result<Seq<u8>, Seq<char>>),
}

impl View for Observation {
    type V = ObservationView;

    open spec fn view(&self) -> ObservationView {
        match self {
            Observation::Signal(set) => ObservationView::Signal(*set),
            Observation::Metadata(Ok(size)) => ObservationView::Metadata(Ok(*size)),
            Observation::Metadata(Err(why)) => ObservationView::Metadata(Err(why@)),
            Observation::Content(Ok(bytes)) => ObservationView::Content(Ok(bytes@)),
            Observation::Content(Err(why)) => ObservationView::Content(Err(why@)),
        }
    }
}

/// Whether the analysis has ended in `phase`.
pub open spec fn is_terminal(phase: Phase) -> bool {
    phase == Phase::Cancelled || phase == Phase::MetadataFailed || phase == Phase::ReadFailed
        || phase == Phase::Analyzed
}

/// The request that is open in `phase`.
pub open spec fn request_in(phase: Phase) -> Request {
    match phase {
        Phase::Pending | Phase::ContentRead => Request::CheckSignal,
        Phase::AwaitingMetadata => Request::QueryMetadata,
        Phase::AwaitingContent => Request::ReadContent,
        Phase::Cancelled | Phase::MetadataFailed | Phase::ReadFailed | Phase::Analyzed => {
            Request::Done
        },
    }
}

/// Whether `observation` is an answer to `request`.
pub open spec fn answers(request: Request, observation: ObservationView) -> bool {
    match request {
        Request::CheckSignal => observation is Signal,
        Request::QueryMetadata => observation is Metadata,
        Request::ReadContent => observation is Content,
        Request::Done => false,
    }
}

/// Number of requests that may still come up from `phase` on.
pub open spec fn requests_left(phase: Phase) -> nat {
    match phase {
        Phase::Pending => 4,
        Phase::AwaitingMetadata => 3,
        Phase::AwaitingContent => 2,
        Phase::ContentRead => 1,
        Phase::Cancelled | Phase::MetadataFailed | Phase::ReadFailed | Phase::Analyzed => 0,
    }
}

/// The message of the error recorded when the metadata cannot be had for
/// the reason `why`.
pub open spec fn metadata_failure(why: Seq<char>) -> Seq<char> {
    "Metadata error: "@ + why
}

/// The message of the error recorded when the content cannot be read for
/// the reason `why`.
pub open spec fn read_failure(why: Seq<char>) -> Seq<char> {
    "Read error: "@ + why
}

/// The message of the error recorded when the content is not UTF-8.
pub open spec fn encoding_failure() -> Seq<char> {
    "Read error: stream did not contain valid UTF-8"@
}

/// An [`Analyzer`] as mathematical values.
pub struct AnalyzerView {
    pub filename: Seq<char>,
    pub phase: Phase,
    /// The text read, while the second look at the signal is open.
    pub content: Seq<char>,
    pub stats: FileStatsView,
    pub errors: Seq<ProcessingErrorView>,
}

impl AnalyzerView {
    /// The analysis of the file shown as `filename`, before anything was
    /// done.
    pub open spec fn start(filename: Seq<char>) -> AnalyzerView {
        AnalyzerView {
            filename,
            phase: Phase::Pending,
            content: Seq::empty(),
            stats: FileStatsView::zero(),
            errors: Seq::empty(),
        }
    }

    /// The analysis ended in `phase` with `error` as one more error.
    pub open spec fn failed(self, phase: Phase, error: ProcessingErrorView) -> AnalyzerView {
        AnalyzerView { phase, content: Seq::empty(), errors: self.errors.push(error), ..self }
    }

    /// The analysis after `observation`.
    ///
    /// An observation that does not answer the open request changes
    /// nothing, and so does any observation once the analysis has ended.
    pub open spec fn step(self, observation: ObservationView) -> AnalyzerView {
        match (self.phase, observation) {
            (Phase::Pending, ObservationView::Signal(set)) => if set {
                self.failed(Phase::Cancelled, ProcessingErrorView::Cancelled)
            } else {
                AnalyzerView { phase: Phase::AwaitingMetadata, ..self }
            },
            (Phase::AwaitingMetadata, ObservationView::Metadata(Ok(size))) => AnalyzerView {
                phase: Phase::AwaitingContent,
                stats: FileStatsView::sized(size as nat),
                ..self
            },
            (Phase::AwaitingMetadata, ObservationView::Metadata(Err(why))) => self.failed(
                Phase::MetadataFailed,
                ProcessingErrorView::IoError(metadata_failure(why)),
            ),
            (Phase::AwaitingContent, ObservationView::Content(Ok(bytes))) => if valid_utf8(
                bytes,
            ) {
                AnalyzerView { phase: Phase::ContentRead, content: decode_utf8(bytes), ..self }
            } else {
                self.failed(
                    Phase::ReadFailed,
                    ProcessingErrorView::EncodingError(encoding_failure()),
                )
            },
            (Phase::AwaitingContent, ObservationView::Content(Err(why))) => self.failed(
                Phase::ReadFailed,
                ProcessingErrorView::IoError(read_failure(why)),
            ),
            (Phase::ContentRead, ObservationView::Signal(set)) => if set {
                self.failed(Phase::Cancelled, ProcessingErrorView::Cancelled)
            } else {
                AnalyzerView {
                    phase: Phase::Analyzed,
                    content: Seq::empty(),
                    stats: FileStatsView::of_content(self.stats.size_bytes, self.content),
                    ..self
                }
            },
            _ => self,
        }
    }

    /// The analysis after each of `observations` in turn.
    pub open spec fn run(self, observations: Seq<ObservationView>) -> AnalyzerView
        decreases observations.len(),
    {
        if observations.len() == 0 {
            self
        } else {
            self.run(observations.drop_last()).step(observations.last())
        }
    }

    /// The record of the analysis, had it taken `processing_time`.
    pub open spec fn record(self, processing_time: nat) -> FileAnalysisView {
        FileAnalysisView {
            filename: self.filename,
            stats: self.stats,
            errors: self.errors,
            processing_time,
        }
    }
}

/// The analysis of one file in progress.
#[derive(Debug)]
pub struct Analyzer {
    filename: String,
    phase: Phase,
    content: String,
    stats: FileStats,
    errors: Vec<ProcessingError>,
}

impl View for Analyzer {
    type V = AnalyzerView;

    closed spec fn view(&self) -> AnalyzerView {
        AnalyzerView {
            filename: self.filename@,
            phase: self.phase,
            content: self.content@,
            stats: self.stats@,
            errors: error_views(self.errors@),
        }
    }
}

/// `String::from_utf8` of std: the text that `bytes` encode. The contract
/// claims that the call succeeds exactly on well-formed UTF-8, and that the
/// text is then what the bytes decode to.
#[verifier::external_body]
fn text_of(bytes: Vec<u8>) -> (text: Option<String>)
    ensures
        text is Some <==> valid_utf8(bytes@),
        text matches Some(decoded) ==> decoded@ == decode_utf8(bytes@),
{
    String::from_utf8(bytes).ok()
}

impl Analyzer {
    /// Starts the analysis of the file shown as `filename`.
    pub fn new(filename: String) -> (analyzer: Analyzer)
        ensures
            analyzer@ == AnalyzerView::start(filename@),
    {
        let analyzer = Analyzer {
            filename,
            phase: Phase::Pending,
            content: String::new(),
            stats: FileStats::zero(),
            errors: Vec::new(),
        };
        assert(error_views(analyzer.errors@) =~= Seq::empty());
        analyzer
    }

    /// Where the analysis stands.
    pub fn phase(&self) -> (phase: Phase)
        ensures
            phase == self@.phase,
    {
        self.phase
    }

    /// What the host is to do next.
    pub fn request(&self) -> (request: Request)
        ensures
            request == request_in(self@.phase),
    {
        match self.phase {
            Phase::Pending | Phase::ContentRead => Request::CheckSignal,
            Phase::AwaitingMetadata => Request::QueryMetadata,
            Phase::AwaitingContent => Request::ReadContent,
            Phase::Cancelled | Phase::MetadataFailed | Phase::ReadFailed | Phase::Analyzed => {
                Request::Done
            },
        }
    }

    /// Whether the analysis has ended.
    pub fn is_finished(&self) -> (finished: bool)
        ensures
            finished == is_terminal(self@.phase),
    {
        match self.phase {
            Phase::Cancelled | Phase::MetadataFailed | Phase::ReadFailed | Phase::Analyzed => true,
            _ => false,
        }
    }

    /// Ends the analysis in `phase` with `error` as one more error.
    fn fail(&mut self, phase: Phase, error: ProcessingError)
        ensures
            final(self)@ == old(self)@.failed(phase, error@),
    {
        self.phase = phase;
        self.content = String::new();
        self.errors.push(error);
        assert(error_views(self.errors@) =~= error_views(old(self).errors@).push(error@));
    }

    /// Takes in what the host found and names the next request.
    pub fn observe(&mut self, observation: Observation) -> (next: Request)
        ensures
            final(self)@ == old(self)@.step(observation@),
            next == request_in(final(self)@.phase),
    {
        match (self.phase, observation) {
            (Phase::Pending, Observation::Signal(set)) => {
                if set {
                    self.fail(Phase::Cancelled, ProcessingError::Cancelled);
                } else {
                    self.phase = Phase::AwaitingMetadata;
                }
            },
            (Phase::AwaitingMetadata, Observation::Metadata(Ok(size))) => {
                self.phase = Phase::AwaitingContent;
                self.stats = FileStats::sized(size);
            },
            (Phase::AwaitingMetadata, Observation::Metadata(Err(why))) => {
                let mut message = "Metadata error: ".to_owned();
                message.append(why.as_str());
                self.fail(Phase::MetadataFailed, ProcessingError::IoError(message));
            },
            (Phase::AwaitingContent, Observation::Content(Ok(bytes))) => {
                match text_of(bytes) {
                    Some(text) => {
                        self.phase = Phase::ContentRead;
                        self.content = text;
                    },
                    None => {
                        let message = "Read error: stream did not contain valid UTF-8".to_owned();
                        self.fail(Phase::ReadFailed, ProcessingError::EncodingError(message));
                    },
                }
            },
            (Phase::AwaitingContent, Observation::Content(Err(why))) => {
                let mut message = "Read error: ".to_owned();
                message.append(why.as_str());
                self.fail(Phase::ReadFailed, ProcessingError::IoError(message));
            },
            (Phase::ContentRead, Observation::Signal(set)) => {
                if set {
                    self.fail(Phase::Cancelled, ProcessingError::Cancelled);
                } else {
                    let (line_count, word_count) = analyze_text_counts(self.content.as_str());
                    let char_frequencies = analyze_char_frequencies(self.content.as_str());
                    self.stats = FileStats {
                        word_count,
                        line_count,
                        char_frequencies,
                        size_bytes: self.stats.size_bytes,
                    };
                    self.phase = Phase::Analyzed;
                    self.content = String::new();
                }
            },
            _ => {},
        }
        self.request()
    }

    /// The record of the analysis, with `processing_time` as the time it
    /// took, once the analysis has ended; `None` before that.
    pub fn finish(self, processing_time: Elapsed) -> (record: Option<FileAnalysis>)
        ensures
            record is Some <==> is_terminal(self@.phase),
            record matches Some(analysis) ==> analysis@ == self@.record(processing_time@),
    {
        if self.is_finished() {
            Some(
                FileAnalysis {
                    filename: self.filename,
                    stats: self.stats,
                    errors: self.errors,
                    processing_time,
                },
            )
        } else {
            None
        }
    }
}

/// Whether `analysis` looks as an analysis does that was started and then
/// only observed: it holds an error exactly when it has ended otherwise
/// than well, then exactly one, and its statistics hold what its phase has
/// measured.
pub open spec fn is_sound(analysis: AnalyzerView) -> bool {
    &&& analysis.errors.len() <= 1
    &&& analysis.errors.len() == 1 <==> analysis.phase == Phase::Cancelled || analysis.phase
        == Phase::MetadataFailed || analysis.phase == Phase::ReadFailed
    &&& analysis.phase == Phase::Cancelled ==> analysis.errors[0] is Cancelled
    &&& analysis.phase == Phase::MetadataFailed ==> analysis.errors[0] is IoError
    &&& analysis.phase == Phase::ReadFailed ==> analysis.errors[0] is IoError
        || analysis.errors[0] is EncodingError
    &&& analysis.phase == Phase::Pending || analysis.phase == Phase::AwaitingMetadata
        || analysis.phase == Phase::MetadataFailed ==> analysis.stats == FileStatsView::zero()
    &&& analysis.phase != Phase::Analyzed ==> analysis.stats == FileStatsView::sized(
        analysis.stats.size_bytes,
    )
    &&& analysis.phase != Phase::ContentRead ==> analysis.content == Seq::<char>::empty()
}

/// Once an analysis has ended nothing changes it, and an observation that
/// does not answer the open request changes nothing either.
pub proof fn lemma_only_answers_count(analysis: AnalyzerView, observation: ObservationView)
    requires
        !answers(request_in(analysis.phase), observation),
    ensures
        analysis.step(observation) == analysis,
{
}

/// Each answer to the open request brings the analysis nearer to its end:
/// no analysis takes more than four.
pub proof fn lemma_answer_advances(analysis: AnalyzerView, observation: ObservationView)
    requires
        answers(request_in(analysis.phase), observation),
    ensures
        requests_left(analysis.step(observation).phase) < requests_left(analysis.phase),
        requests_left(analysis.phase) <= 4,
        requests_left(analysis.phase) == 0 <==> is_terminal(analysis.phase),
{
}

/// Whatever is observed, and in whatever order, an analysis holds at most
/// one error, holds one exactly when it has ended otherwise than well, and
/// never holds counts of a text that it did not count.
pub proof fn lemma_analysis_stays_sound(filename: Seq<char>, observations: Seq<ObservationView>)
    ensures
        is_sound(AnalyzerView::start(filename).run(observations)),
        AnalyzerView::start(filename).run(observations).filename == filename,
    decreases observations.len(),
{
    if observations.len() > 0 {
        lemma_analysis_stays_sound(filename, observations.drop_last());
    }
}

/// With the signal set before any work, the analysis ends at once: its
/// record holds the one error `Cancelled` and statistics that are all
/// zero.
pub proof fn lemma_cancelled_before_work(filename: Seq<char>, processing_time: nat)
    ensures
        AnalyzerView::start(filename).step(ObservationView::Signal(true)).phase
            == Phase::Cancelled,
        AnalyzerView::start(filename).step(ObservationView::Signal(true)).record(processing_time)
            == (FileAnalysisView {
            filename,
            stats: FileStatsView::zero(),
            errors: seq![ProcessingErrorView::Cancelled],
            processing_time,
        }),
{
}

/// Where the metadata cannot be had, the analysis ends without a read: its
/// record holds one `IoError` and statistics that are all zero.
pub proof fn lemma_metadata_failure(filename: Seq<char>, why: Seq<char>, processing_time: nat)
    ensures
        AnalyzerView::start(filename).step(ObservationView::Signal(false)).step(
            ObservationView::Metadata(Err(why)),
        ).phase == Phase::MetadataFailed,
        AnalyzerView::start(filename).step(ObservationView::Signal(false)).step(
            ObservationView::Metadata(Err(why)),
        ).record(processing_time) == (FileAnalysisView {
            filename,
            stats: FileStatsView::zero(),
            errors: seq![ProcessingErrorView::IoError(metadata_failure(why))],
            processing_time,
        }),
{
}

/// Where the size is had and the read fails, the record holds one
/// `IoError` and, of the statistics, the size alone.
pub proof fn lemma_read_failure(
    filename: Seq<char>,
    size: u64,
    why: Seq<char>,
    processing_time: nat,
)
    ensures
        AnalyzerView::start(filename).step(ObservationView::Signal(false)).step(
            ObservationView::Metadata(Ok(size)),
        ).step(ObservationView::Content(Err(why))).phase == Phase::ReadFailed,
        AnalyzerView::start(filename).step(ObservationView::Signal(false)).step(
            ObservationView::Metadata(Ok(size)),
        ).step(ObservationView::Content(Err(why))).record(processing_time) == (FileAnalysisView {
            filename,
            stats: FileStatsView::sized(size as nat),
            errors: seq![ProcessingErrorView::IoError(read_failure(why))],
            processing_time,
        }),
{
}

/// Where the size is had and the bytes read are not UTF-8, the record
/// holds one `EncodingError` and, of the statistics, the size alone.
pub proof fn lemma_encoding_failure(
    filename: Seq<char>,
    size: u64,
    bytes: Seq<u8>,
    processing_time: nat,
)
    requires
        !valid_utf8(bytes),
    ensures
        AnalyzerView::start(filename).step(ObservationView::Signal(false)).step(
            ObservationView::Metadata(Ok(size)),
        ).step(ObservationView::Content(Ok(bytes))).phase == Phase::ReadFailed,
        AnalyzerView::start(filename).step(ObservationView::Signal(false)).step(
            ObservationView::Metadata(Ok(size)),
        ).step(ObservationView::Content(Ok(bytes))).record(processing_time) == (FileAnalysisView {
            filename,
            stats: FileStatsView::sized(size as nat),
            errors: seq![ProcessingErrorView::EncodingError(encoding_failure())],
            processing_time,
        }),
{
}

/// Where the text is read and the signal is found set after the read, the
/// record holds the one error `Cancelled` and, of the statistics, the size
/// alone: the text is not counted.
pub proof fn lemma_cancelled_after_read(
    filename: Seq<char>,
    size: u64,
    bytes: Seq<u8>,
    processing_time: nat,
)
    requires
        valid_utf8(bytes),
    ensures
        AnalyzerView::start(filename).step(ObservationView::Signal(false)).step(
            ObservationView::Metadata(Ok(size)),
        ).step(ObservationView::Content(Ok(bytes))).step(ObservationView::Signal(true)).phase
            == Phase::Cancelled,
        AnalyzerView::start(filename).step(ObservationView::Signal(false)).step(
            ObservationView::Metadata(Ok(size)),
        ).step(ObservationView::Content(Ok(bytes))).step(ObservationView::Signal(true)).record(
            processing_time,
        ) == (FileAnalysisView {
            filename,
            stats: FileStatsView::sized(size as nat),
            errors: seq![ProcessingErrorView::Cancelled],
            processing_time,
        }),
{
}

/// Where nothing fails and the signal stays clear, the record holds no
/// error, the size, and the counts of the text that the bytes encode.
pub proof fn lemma_analyzed(filename: Seq<char>, size: u64, bytes: Seq<u8>, processing_time: nat)
    requires
        valid_utf8(bytes),
    ensures
        AnalyzerView::start(filename).step(ObservationView::Signal(false)).step(
            ObservationView::Metadata(Ok(size)),
        ).step(ObservationView::Content(Ok(bytes))).step(ObservationView::Signal(false)).phase
            == Phase::Analyzed,
        AnalyzerView::start(filename).step(ObservationView::Signal(false)).step(
            ObservationView::Metadata(Ok(size)),
        ).step(ObservationView::Content(Ok(bytes))).step(ObservationView::Signal(false)).record(
            processing_time,
        ) == (FileAnalysisView {
            filename,
            stats: FileStatsView::of_content(size as nat, decode_utf8(bytes)),
            errors: Seq::empty(),
            processing_time,
        }),
{
}

} // verus!
