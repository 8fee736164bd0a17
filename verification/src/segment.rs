//! The segment parser: from one line of input to the ordered segments of a
//! pipeline, each with its optional redirection and its command tokens.

use crate::text::{
    chars_of, contains, find, first_index, law_split_joins, lemma_first_index_is, split, split_on,
    string_of, strings, texts, trim, trimmed, words, words_of,
};
use vstd::prelude::*;
use vstd::slice::slice_subrange;

verus! {

/// A redirection of a segment to a file, with the file's path.
#[derive(Debug, PartialEq, Eq)]
pub enum FilePipe {
    /// The command reads its input from the file.
    ReadFile(String),
    /// The command writes its output to the file.
    WriteFile(String),
}

/// The mathematical value of a `FilePipe`.
pub enum FilePipeView {
    ReadFile(Seq<char>),
    WriteFile(Seq<char>),
}

impl View for FilePipe {
    type V = FilePipeView;

    open spec fn view(&self) -> FilePipeView {
        match self {
            FilePipe::ReadFile(path) => FilePipeView::ReadFile(path@),
            FilePipe::WriteFile(path) => FilePipeView::WriteFile(path@),
        }
    }
}

/// One stage of a pipeline: an optional redirection, and the tokens of the
/// command. The first token, if there is one, is the command's name; the
/// others are its arguments.
#[derive(Debug, PartialEq, Eq)]
pub struct Segment {
    pub file: Option<FilePipe>,
    pub parts: Vec<String>,
}

/// The mathematical value of a `Segment`.
pub struct SegmentView {
    pub file: Option<FilePipeView>,
    pub parts: Seq<Seq<char>>,
}

impl View for Segment {
    type V = SegmentView;

    open spec fn view(&self) -> SegmentView {
        SegmentView {
            file: match self.file {
                Some(f) => Some(f@),
                None => None,
            },
            parts: strings(self.parts@),
        }
    }
}

/// The view of each segment of `v`.
pub open spec fn segment_views(v: Seq<Segment>) -> Seq<SegmentView> {
    Seq::new(v.len(), |i: int| v[i]@)
}

/// The text that separates two segments of a pipeline: a bar with one space
/// on each side.
pub open spec fn separator() -> Seq<char> {
    " | "@
}

/// The operator that redirects a command's input.
pub open spec fn read_operator() -> Seq<char> {
    "<<"@
}

/// The operator that redirects a command's output.
pub open spec fn write_operator() -> Seq<char> {
    ">>"@
}

/// The words of `text` that stand before the leftmost occurrence of `op`.
pub open spec fn command_before(text: Seq<char>, op: Seq<char>) -> Seq<Seq<char>> {
    words(text.take(first_index(text, op)))
}

/// The trimmed text that follows the leftmost occurrence of `op` in `text`.
pub open spec fn path_after(text: Seq<char>, op: Seq<char>) -> Seq<char> {
    trim(text.skip(first_index(text, op) + op.len()))
}

/// The segment that `text` spells out. A read operator is looked for first,
/// then a write operator; only the one found first is honoured, and the
/// other, if present, is ordinary text.
pub open spec fn segment_of(text: Seq<char>) -> SegmentView {
    if contains(text, read_operator()) {
        SegmentView {
            file: Some(FilePipeView::ReadFile(path_after(text, read_operator()))),
            parts: command_before(text, read_operator()),
        }
    } else if contains(text, write_operator()) {
        SegmentView {
            file: Some(FilePipeView::WriteFile(path_after(text, write_operator()))),
            parts: command_before(text, write_operator()),
        }
    } else {
        SegmentView { file: None, parts: words(text) }
    }
}

/// The pipeline that `line` spells out: the trimmed line is split at each
/// separator, and every piece is read as a segment.
pub open spec fn pipeline_of(line: Seq<char>) -> Seq<SegmentView> {
    split(trim(line), separator()).map_values(|text: Seq<char>| segment_of(text))
}

/// Reads the characters of one segment.
pub fn parse_chars(text: &[char]) -> (r: Segment)
    ensures
        r@ == segment_of(text@),
{
    let read_op = chars_of("<<");
    let write_op = chars_of(">>");
    let end = text.len();
    match find(text, read_op.as_slice()) {
        Some(i) => {
            proof {
                lemma_first_index_is(text@, read_op@, i as int);
            }
            let parts = words_of(slice_subrange(text, 0, i));
            let rest = slice_subrange(text, i + read_op.len(), end);
            Segment { file: Some(FilePipe::ReadFile(string_of(trimmed(rest)))), parts }
        },
        None => match find(text, write_op.as_slice()) {
            Some(i) => {
                proof {
                    lemma_first_index_is(text@, write_op@, i as int);
                }
                let parts = words_of(slice_subrange(text, 0, i));
                let rest = slice_subrange(text, i + write_op.len(), end);
                Segment { file: Some(FilePipe::WriteFile(string_of(trimmed(rest)))), parts }
            },
            None => Segment { file: None, parts: words_of(text) },
        },
    }
}

/// Reads one segment of a pipeline.
pub fn parse_segment(text: &str) -> (r: Segment)
    ensures
        r@ == segment_of(text@),
{
    let chars = chars_of(text);
    parse_chars(chars.as_slice())
}

/// Reads one line of input as a pipeline. The pipeline has at least one
/// segment; an empty line gives one segment without tokens.
pub fn parse_line(input: &str) -> (r: Vec<Segment>)
    ensures
        segment_views(r@) == pipeline_of(input@),
        r.len() >= 1,
{
    let chars = chars_of(input);
    let sep = chars_of(" | ");
    let pieces = split_on(trimmed(chars.as_slice()), sep.as_slice());
    proof {
        law_split_joins(trim(input@), separator());
    }
    let mut out: Vec<Segment> = Vec::new();
    let mut i: usize = 0;
    while i < pieces.len()
        invariant
            i <= pieces.len(),
            texts(pieces@) == split(trim(input@), separator()),
            out.len() == i,
            segment_views(out@) == pipeline_of(input@).take(i as int),
        decreases pieces.len() - i,
    {
        let segment = parse_chars(pieces[i]);
        out.push(segment);
        i += 1;
    }
    out
}

} // verus!
