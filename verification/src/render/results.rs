//! Search results, one after another: the compact and the outline format.

use vstd::prelude::*;
use vstd::string::*;

use crate::text::{number, truncate_line};
use crate::types::{Chunk, MatchLine, SearchResult};

verus! {

/// The longest match line of the compact format.
pub const COMPACT_WIDTH: usize = 120;

/// `path:start-end`.
pub open spec fn span(chunk: Chunk) -> Seq<char> {
    chunk.file_path@ + ":"@ + crate::text::decimal(chunk.start_line as nat) + "-"@
        + crate::text::decimal(chunk.end_line as nat)
}

/// The place of a chunk: its path and the lines that it spans.
pub fn place(chunk: &Chunk) -> (r: String)
    ensures
        r@ == span(*chunk),
{
    let mut r = chunk.file_path.clone();
    r.append(":");
    r.append(&number(chunk.start_line));
    r.append("-");
    r.append(&number(chunk.end_line));
    r
}

/// A match line in the compact format.
pub open spec fn compact_line(m: MatchLine) -> Seq<char> {
    "  L"@ + crate::text::decimal(m.line as nat) + ":\t"@ + crate::text::truncated(
        m.content@,
        COMPACT_WIDTH as nat,
    ) + "\n"@
}

pub open spec fn compact_lines(lines: Seq<MatchLine>) -> Seq<char>
    decreases lines.len(),
{
    if lines.len() == 0 {
        Seq::empty()
    } else {
        compact_lines(lines.drop_last()) + compact_line(lines.last())
    }
}

/// A result in the compact format: score and place, then the match lines.
pub open spec fn compact_entry(r: SearchResult) -> Seq<char> {
    r.score.text@ + "\t"@ + span(r.chunk) + "\n"@ + compact_lines(r.match_lines@)
}

/// The compact format: one entry after another.
pub open spec fn compact_text(results: Seq<SearchResult>) -> Seq<char>
    decreases results.len(),
{
    if results.len() == 0 {
        Seq::empty()
    } else {
        compact_text(results.drop_last()) + compact_entry(results.last())
    }
}

/// Compact search output: score, location, and matching lines.
pub fn compact(results: &[SearchResult]) -> (r: String)
    ensures
        r@ == compact_text(results@),
{
    let mut out = String::new();
    assert(results@.take(0) == Seq::<SearchResult>::empty());
    for i in 0..results.len()
        invariant
            out@ == compact_text(results@.take(i as int)),
    {
        let result = &results[i];
        let mut entry = result.score.text.clone();
        entry.append("\t");
        entry.append(&place(&result.chunk));
        entry.append("\n");
        let ghost head = entry@;
        assert(result.match_lines@.take(0) == Seq::<MatchLine>::empty());
        assert(entry@ == head + compact_lines(result.match_lines@.take(0)));
        for j in 0..result.match_lines.len()
            invariant
                entry@ == head + compact_lines(result.match_lines@.take(j as int)),
        {
            let m = &result.match_lines[j];
            let ghost before = compact_lines(result.match_lines@.take(j as int));
            let mut line = "  L".to_owned();
            line.append(&number(m.line));
            line.append(":\t");
            line.append(&truncate_line(&m.content, COMPACT_WIDTH));
            line.append("\n");
            entry.append(&line);
            assert(result.match_lines@.take(j + 1).drop_last() == result.match_lines@.take(j as int));
            assert(head + before + line@ == head + (before + line@));
        }
        assert(result.match_lines@.take(result.match_lines.len() as int) == result.match_lines@);
        out.append(&entry);
        assert(results@.take(i + 1).drop_last() == results@.take(i as int));
    }
    assert(results@.take(results.len() as int) == results@);
    out
}

/// The line that stands for a chunk: its signature, or the lines that it spans.
pub open spec fn headline(r: SearchResult) -> Seq<char> {
    match r.signature {
        Some(signature) => signature@,
        None => "(lines "@ + crate::text::decimal(r.chunk.start_line as nat) + "-"@
            + crate::text::decimal(r.chunk.end_line as nat) + ")"@,
    }
}

/// The number of match lines, where there are any.
pub open spec fn match_count(n: nat) -> Seq<char> {
    if n == 0 {
        Seq::empty()
    } else {
        " ["@ + crate::text::decimal(n) + "m]"@
    }
}

/// A result in the outline format: score, place and number of matches, and
/// below them the headline.
pub open spec fn outline_entry(r: SearchResult) -> Seq<char> {
    r.score.text@ + " "@ + span(r.chunk) + match_count(r.match_lines@.len()) + "\n  "@ + headline(r)
        + "\n"@
}

/// The outline format: one entry after another.
pub open spec fn outline_text(results: Seq<SearchResult>) -> Seq<char>
    decreases results.len(),
{
    if results.len() == 0 {
        Seq::empty()
    } else {
        outline_text(results.drop_last()) + outline_entry(results.last())
    }
}

/// Outline search output: one signature line per chunk (smallest footprint).
pub fn outline(results: &[SearchResult]) -> (r: String)
    ensures
        r@ == outline_text(results@),
{
    let mut out = String::new();
    assert(results@.take(0) == Seq::<SearchResult>::empty());
    for i in 0..results.len()
        invariant
            out@ == outline_text(results@.take(i as int)),
    {
        let result = &results[i];
        let signature = match &result.signature {
            Some(signature) => signature.clone(),
            None => {
                let mut lines = "(lines ".to_owned();
                lines.append(&number(result.chunk.start_line));
                lines.append("-");
                lines.append(&number(result.chunk.end_line));
                lines.append(")");
                lines
            },
        };
        let suffix = if result.match_lines.len() == 0 {
            String::new()
        } else {
            let mut count = " [".to_owned();
            count.append(&number(result.match_lines.len()));
            count.append("m]");
            count
        };
        let mut entry = result.score.text.clone();
        entry.append(" ");
        entry.append(&place(&result.chunk));
        entry.append(&suffix);
        entry.append("\n  ");
        entry.append(&signature);
        entry.append("\n");
        out.append(&entry);
        assert(results@.take(i + 1).drop_last() == results@.take(i as int));
    }
    assert(results@.take(results.len() as int) == results@);
    out
}

/// Both formats show every result once and in order: what stands for two lists
/// of results, one after the other, stands for the joined list.
pub proof fn results_are_shown_one_by_one(a: Seq<SearchResult>, b: Seq<SearchResult>)
    ensures
        compact_text(a + b) == compact_text(a) + compact_text(b),
        outline_text(a + b) == outline_text(a) + outline_text(b),
    decreases b.len(),
{
    if b.len() == 0 {
        assert(a + b == a);
        assert(compact_text(a) + compact_text(b) == compact_text(a));
        assert(outline_text(a) + outline_text(b) == outline_text(a));
    } else {
        results_are_shown_one_by_one(a, b.drop_last());
        assert((a + b).drop_last() == a + b.drop_last());
        assert(compact_text(a) + compact_text(b.drop_last()) + compact_entry(b.last())
            == compact_text(a) + (compact_text(b.drop_last()) + compact_entry(b.last())));
        assert(outline_text(a) + outline_text(b.drop_last()) + outline_entry(b.last())
            == outline_text(a) + (outline_text(b.drop_last()) + outline_entry(b.last())));
    }
}

/// A result in the compact format begins with its score, a tab, its path and the
/// numbers of its first and its last line.
pub proof fn a_compact_entry_tells_score_and_place(r: SearchResult)
    ensures
        ({
            let chunk = r.chunk;
            let head = r.score.text@ + "\t"@ + chunk.file_path@ + ":"@ + crate::text::decimal(
                chunk.start_line as nat,
            ) + "-"@ + crate::text::decimal(chunk.end_line as nat) + "\n"@;
            compact_text(seq![r]) == head + compact_lines(r.match_lines@)
        }),
{
    reveal_with_fuel(compact_text, 2);
    let all = seq![r];
    let chunk = r.chunk;
    let head = r.score.text@ + "\t"@ + chunk.file_path@ + ":"@ + crate::text::decimal(
        chunk.start_line as nat,
    ) + "-"@ + crate::text::decimal(chunk.end_line as nat) + "\n"@;
    assert(all.drop_last() == Seq::<SearchResult>::empty());
    assert(r.score.text@ + "\t"@ + span(chunk) + "\n"@ =~= head);
    assert(compact_text(all) =~= head + compact_lines(r.match_lines@));
}

/// Every match line of a result is shown, in order: its number, and what is left
/// of it when it is cut to 120.
pub proof fn every_match_line_is_shown(a: Seq<MatchLine>, m: MatchLine, b: Seq<MatchLine>)
    ensures
        compact_lines(a + b) == compact_lines(a) + compact_lines(b),
        compact_lines(Seq::empty()).len() == 0,
        compact_lines(seq![m]) == "  L"@ + crate::text::decimal(m.line as nat) + ":\t"@
            + crate::text::truncated(m.content@, 120) + "\n"@,
    decreases b.len(),
{
    reveal_with_fuel(compact_lines, 2);
    assert(seq![m].drop_last() == Seq::<MatchLine>::empty());
    assert(Seq::<char>::empty() + compact_line(m) == compact_line(m));
    if b.len() == 0 {
        assert(a + b == a);
        assert(compact_lines(a) + compact_lines(b) == compact_lines(a));
    } else {
        every_match_line_is_shown(a, m, b.drop_last());
        assert((a + b).drop_last() == a + b.drop_last());
        assert(compact_lines(a) + compact_lines(b.drop_last()) + compact_line(b.last())
            == compact_lines(a) + (compact_lines(b.drop_last()) + compact_line(b.last())));
    }
}

/// A result in the outline format is two lines: its score, its path, the numbers
/// of its first and its last line and, where there are any, how many lines match;
/// then its signature, or where it has none the numbers of the lines.
pub proof fn an_outline_entry_tells_score_place_and_signature(r: SearchResult)
    ensures
        ({
            let first = crate::text::decimal(r.chunk.start_line as nat);
            let last = crate::text::decimal(r.chunk.end_line as nat);
            let place = r.score.text@ + " "@ + r.chunk.file_path@ + ":"@ + first + "-"@ + last;
            let counted = if r.match_lines@.len() > 0 {
                place + " ["@ + crate::text::decimal(r.match_lines@.len()) + "m]"@
            } else {
                place
            };
            match r.signature {
                Some(signature) => outline_text(seq![r]) == counted + "\n  "@ + signature@ + "\n"@,
                None => outline_text(seq![r]) == counted + "\n  (lines "@ + first + "-"@ + last
                    + ")\n"@,
            }
        }),
{
    reveal_with_fuel(outline_text, 2);
    let all = seq![r];
    let first = crate::text::decimal(r.chunk.start_line as nat);
    let last = crate::text::decimal(r.chunk.end_line as nat);
    let place = r.score.text@ + " "@ + r.chunk.file_path@ + ":"@ + first + "-"@ + last;
    let counted = if r.match_lines@.len() > 0 {
        place + " ["@ + crate::text::decimal(r.match_lines@.len()) + "m]"@
    } else {
        place
    };
    assert(all.drop_last() == Seq::<SearchResult>::empty());
    assert(r.score.text@ + " "@ + span(r.chunk) =~= place);
    assert(place + match_count(r.match_lines@.len()) =~= counted);
    assert(outline_text(all) =~= counted + "\n  "@ + headline(r) + "\n"@);
    if r.signature is None {
        reveal_strlit("\n  ");
        reveal_strlit("(lines ");
        reveal_strlit("\n  (lines ");
        reveal_strlit(")");
        reveal_strlit("\n");
        reveal_strlit(")\n");
        assert("\n  "@ + "(lines "@ == "\n  (lines "@);
        assert(")"@ + "\n"@ == ")\n"@);
        assert(counted + "\n  "@ + ("(lines "@ + first + "-"@ + last + ")"@) + "\n"@ =~= counted + (
        "\n  "@ + "(lines "@) + first + "-"@ + last + (")"@ + "\n"@));
    }
}

/// Without results there is nothing to show.
pub proof fn no_results_make_no_text()
    ensures
        compact_text(Seq::empty()).len() == 0,
        outline_text(Seq::empty()).len() == 0,
{
}

} // verus!
