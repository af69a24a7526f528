//! Search results, as plain values.

use vstd::prelude::*;

verus! {

/// A relevance score. `text` is the score with four decimals, as it is shown.
/// `rank` orders the scores: of two results, the one with the larger score has
/// the larger rank, and equal scores have equal ranks. The lowest rank stands
/// for a score below all numbers, or for none at all.
#[derive(Debug)]
pub struct Score {
    pub text: String,
    pub rank: i64,
}

/// A line of a chunk that matches the query.
#[derive(Debug)]
pub struct MatchLine {
    pub line: usize,
    pub content: String,
}

/// A piece of a source file, with the lines that it spans.
#[derive(Debug)]
pub struct Chunk {
    pub content: String,
    pub file_path: String,
    pub start_line: usize,
    pub end_line: usize,
    pub language: Option<String>,
}

impl Chunk {
    pub fn new(
        content: String,
        file_path: String,
        start_line: usize,
        end_line: usize,
        language: Option<String>,
    ) -> (r: Self)
        ensures
            r.content@ == content@,
            r.file_path@ == file_path@,
            r.start_line == start_line,
            r.end_line == end_line,
            r.language.deep_view() == language.deep_view(),
    {
        Chunk { content, file_path, start_line, end_line, language }
    }
}

/// A chunk that a search has found. `signature` is the signature line that
/// stands for the chunk in an outline, where one was recognised near the
/// matching lines.
#[derive(Debug)]
pub struct SearchResult {
    pub chunk: Chunk,
    pub score: Score,
    pub match_lines: Vec<MatchLine>,
    pub signature: Option<String>,
}

/// Whether `b` is `a` with another body.
pub open spec fn differs_in_body(a: SearchResult, b: SearchResult, body: Seq<char>) -> bool {
    &&& b.chunk.content@ == body
    &&& b.chunk.file_path@ == a.chunk.file_path@
    &&& b.chunk.start_line == a.chunk.start_line
    &&& b.chunk.end_line == a.chunk.end_line
    &&& b.chunk.language.deep_view() == a.chunk.language.deep_view()
    &&& b.score.text@ == a.score.text@
    &&& b.score.rank == a.score.rank
    &&& same_lines(a.match_lines@, b.match_lines@)
    &&& b.signature.deep_view() == a.signature.deep_view()
}

/// Whether two lists hold the same match lines.
pub open spec fn same_lines(a: Seq<MatchLine>, b: Seq<MatchLine>) -> bool {
    &&& a.len() == b.len()
    &&& forall|i: int|
        0 <= i < a.len() ==> (#[trigger] a[i]).line == b[i].line && a[i].content@ == b[i].content@
}

fn copied_text(o: &Option<String>) -> (r: Option<String>)
    ensures
        r.deep_view() == o.deep_view(),
{
    match o {
        Some(s) => Some(s.clone()),
        None => None,
    }
}

fn copied_lines(lines: &Vec<MatchLine>) -> (r: Vec<MatchLine>)
    ensures
        same_lines(lines@, r@),
{
    let mut r: Vec<MatchLine> = Vec::new();
    for i in 0..lines.len()
        invariant
            r.len() == i,
            forall|j: int|
                0 <= j < i ==> (#[trigger] lines[j]).line == r[j].line && lines[j].content@
                    == r[j].content@,
    {
        r.push(MatchLine { line: lines[i].line, content: lines[i].content.clone() });
    }
    r
}

/// The results with other chunk bodies, one for each of them.
pub fn with_bodies(results: &[SearchResult], bodies: &Vec<String>) -> (r: Vec<SearchResult>)
    requires
        results@.len() == bodies@.len(),
    ensures
        r@.len() == results@.len(),
        forall|i: int|
            0 <= i < results@.len() ==> differs_in_body(results@[i], #[trigger] r@[i], bodies@[i]@),
{
    let mut r: Vec<SearchResult> = Vec::new();
    for i in 0..results.len()
        invariant
            results@.len() == bodies@.len(),
            r.len() == i,
            forall|j: int|
                0 <= j < i ==> differs_in_body(results@[j], #[trigger] r@[j], bodies@[j]@),
    {
        let result = &results[i];
        let chunk = Chunk::new(
            bodies[i].clone(),
            result.chunk.file_path.clone(),
            result.chunk.start_line,
            result.chunk.end_line,
            copied_text(&result.chunk.language),
        );
        let score = Score { text: result.score.text.clone(), rank: result.score.rank };
        r.push(
            SearchResult {
                chunk,
                score,
                match_lines: copied_lines(&result.match_lines),
                signature: copied_text(&result.signature),
            },
        );
    }
    r
}

/// A result with another body differs from it in nothing else: neither in its
/// path, its lines, its language or its score, nor in its match lines or its
/// signature.
pub proof fn another_body_changes_nothing_else(
    a: SearchResult,
    b: SearchResult,
    body: Seq<char>,
    i: int,
)
    requires
        differs_in_body(a, b, body),
    ensures
        b.chunk.content@ == body,
        b.chunk.file_path@ == a.chunk.file_path@,
        b.chunk.start_line == a.chunk.start_line,
        b.chunk.end_line == a.chunk.end_line,
        b.chunk.language is Some <==> a.chunk.language is Some,
        a.chunk.language is Some ==> b.chunk.language->Some_0@ == a.chunk.language->Some_0@,
        b.score.text@ == a.score.text@,
        b.score.rank == a.score.rank,
        b.match_lines@.len() == a.match_lines@.len(),
        0 <= i < a.match_lines@.len() ==> b.match_lines@[i].line == a.match_lines@[i].line
            && b.match_lines@[i].content@ == a.match_lines@[i].content@,
        b.signature is Some <==> a.signature is Some,
        a.signature is Some ==> b.signature->Some_0@ == a.signature->Some_0@,
{
    assert(0 <= i < a.match_lines@.len() ==> a.match_lines@[i].line == b.match_lines@[i].line);
    assert(a.chunk.language.deep_view() is Some <==> a.chunk.language is Some);
    assert(b.chunk.language.deep_view() is Some <==> b.chunk.language is Some);
    assert(a.signature.deep_view() is Some <==> a.signature is Some);
    assert(b.signature.deep_view() is Some <==> b.signature is Some);
}

} // verus!
