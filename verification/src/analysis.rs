//! What an analysis of one file yields, and the two passes over its text.

use crate::elapsed::Elapsed;
use crate::frequencies::{frequencies, lemma_occurrences_bounded, CharFrequencies};
use crate::text::{
    byte_len, char_is_whitespace, is_whitespace, lemma_counts_of_lines, line_feeds_before, lines,
    word_starts_before, words_in,
};
use vstd::prelude::*;

verus! {

/// Why the analysis of a file stopped short.
#[derive(Debug)]
pub enum ProcessingError {
    /// The file's metadata or content could not be read.
    IoError(String),
    /// The content is not text.
    EncodingError(String),
    /// The cancellation signal was set.
    Cancelled,
}

/// A [`ProcessingError`] with its message as a sequence of characters.
pub enum ProcessingErrorView {
    IoError(Seq<char>),
    EncodingError(Seq<char>),
    Cancelled,
}

impl View for ProcessingError {
    type V = ProcessingErrorView;

    open spec fn view(&self) -> ProcessingErrorView {
        match self {
            ProcessingError::IoError(message) => ProcessingErrorView::IoError(message@),
            ProcessingError::EncodingError(message) => ProcessingErrorView::EncodingError(
                message@,
            ),
            ProcessingError::Cancelled => ProcessingErrorView::Cancelled,
        }
    }
}

/// Statistics of one file.
#[derive(Debug)]
pub struct FileStats {
    /// Words in all lines together.
    pub word_count: usize,
    /// Logical lines.
    pub line_count: usize,
    /// Occurrences of each character that occurs.
    pub char_frequencies: CharFrequencies,
    /// Size as the file system reports it, 0 where it reports none.
    pub size_bytes: u64,
}

/// [`FileStats`] as mathematical values.
pub struct FileStatsView {
    pub word_count: nat,
    pub line_count: nat,
    pub char_frequencies: Map<char, nat>,
    pub size_bytes: nat,
}

impl FileStatsView {
    /// Statistics of a file of which only its size is known.
    pub open spec fn sized(size_bytes: nat) -> FileStatsView {
        FileStatsView { word_count: 0, line_count: 0, char_frequencies: Map::empty(), size_bytes }
    }

    /// Statistics of a file of which nothing is known: all zero.
    pub open spec fn zero() -> FileStatsView {
        FileStatsView::sized(0)
    }

    /// Statistics of a file of `size_bytes` bytes that holds `content`.
    pub open spec fn of_content(size_bytes: nat, content: Seq<char>) -> FileStatsView {
        FileStatsView {
            word_count: words_in(lines(content)),
            line_count: lines(content).len(),
            char_frequencies: frequencies(content),
            size_bytes,
        }
    }
}

impl View for FileStats {
    type V = FileStatsView;

    open spec fn view(&self) -> FileStatsView {
        FileStatsView {
            word_count: self.word_count as nat,
            line_count: self.line_count as nat,
            char_frequencies: self.char_frequencies@,
            size_bytes: self.size_bytes as nat,
        }
    }
}

impl FileStats {
    /// Statistics of a file of which only its size is known.
    pub fn sized(size_bytes: u64) -> (stats: FileStats)
        ensures
            stats@ == FileStatsView::sized(size_bytes as nat),
    {
        FileStats {
            word_count: 0,
            line_count: 0,
            char_frequencies: CharFrequencies::new(),
            size_bytes,
        }
    }

    /// Statistics of a file of which nothing is known: all zero.
    pub fn zero() -> (stats: FileStats)
        ensures
            stats@ == FileStatsView::zero(),
    {
        FileStats::sized(0)
    }
}

/// The record of one attempt to analyse a file.
#[derive(Debug)]
pub struct FileAnalysis {
    /// The name the file is shown under.
    pub filename: String,
    /// What was measured before the attempt ended.
    pub stats: FileStats,
    /// What went wrong, in the order in which it did.
    pub errors: Vec<ProcessingError>,
    /// How long the attempt took.
    pub processing_time: Elapsed,
}

/// A [`FileAnalysis`] as mathematical values.
pub struct FileAnalysisView {
    pub filename: Seq<char>,
    pub stats: FileStatsView,
    pub errors: Seq<ProcessingErrorView>,
    pub processing_time: nat,
}

/// The views of `errors`, in order.
pub open spec fn error_views(errors: Seq<ProcessingError>) -> Seq<ProcessingErrorView> {
    errors.map_values(|e: ProcessingError| e@)
}

impl View for FileAnalysis {
    type V = FileAnalysisView;

    open spec fn view(&self) -> FileAnalysisView {
        FileAnalysisView {
            filename: self.filename@,
            stats: self.stats@,
            errors: error_views(self.errors@),
            processing_time: self.processing_time@,
        }
    }
}

impl FileAnalysis {
    /// Whether the attempt failed: the record holds at least one error.
    pub fn has_errors(&self) -> (failed: bool)
        ensures
            failed == (self@.errors.len() > 0),
    {
        self.errors.len() > 0
    }
}

/// The number of logical lines of `content` and the number of words in
/// them, in that order.
pub fn analyze_text_counts(content: &str) -> (counts: (usize, usize))
    ensures
        counts.0 == lines(content@).len(),
        counts.1 == words_in(lines(content@)),
{
    let limit = byte_len(content);
    let mut line_feeds: usize = 0;
    let mut words: usize = 0;
    let mut after_whitespace = true;
    let mut open: bool = false;
    for c in it: content.chars()
        invariant
            it.seq() == content@,
            content@.len() <= limit,
            line_feeds == line_feeds_before(content@, it.index() as int),
            words == word_starts_before(content@, it.index() as int),
            words <= it.index(),
            line_feeds + (if open { 1int } else { 0int }) <= it.index(),
            after_whitespace == (it.index() == 0 || is_whitespace(content@[it.index() - 1])),
            open == (it.index() > 0 && content@[it.index() - 1] != '\n'),
    {
        let whitespace = char_is_whitespace(c);
        if !whitespace && after_whitespace {
            words = words + 1;
        }
        if c == '\n' {
            line_feeds = line_feeds + 1;
            open = false;
        } else {
            open = true;
        }
        after_whitespace = whitespace;
    }
    proof {
        lemma_counts_of_lines(content@);
    }
    if open {
        (line_feeds + 1, words)
    } else {
        (line_feeds, words)
    }
}

/// How often each character of `content` occurs in it. Every character
/// counts, whitespace and punctuation too.
pub fn analyze_char_frequencies(content: &str) -> (found: CharFrequencies)
    ensures
        found@ == frequencies(content@),
{
    let limit = byte_len(content);
    let mut found = CharFrequencies::new();
    for c in it: content.chars()
        invariant
            it.seq() == content@,
            content@.len() <= limit,
            found@ == frequencies(content@.take(it.index() as int)),
    {
        let ghost before = content@.take(it.index() as int);
        let ghost after = content@.take(it.index() + 1);
        proof {
            assert(after.drop_last() =~= before);
            lemma_occurrences_bounded(before, c);
        }
        found.record(c);
    }
    assert(content@.take(content@.len() as int) =~= content@);
    found
}

} // verus!
