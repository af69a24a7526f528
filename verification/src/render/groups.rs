//! Search results grouped by directory.

use vstd::prelude::*;
use vstd::string::*;

use crate::text::{less, number, same, truncate_line};
use crate::types::{MatchLine, SearchResult};

verus! {

/// The longest match line of the grouped format.
pub const GROUP_WIDTH: usize = 100;

/// How many match lines of a chunk the grouped format shows.
pub const MAX_MATCH_LINES: usize = 3;

// ---------------------------------------------------------------------------
// Directory and file name of a path
// ---------------------------------------------------------------------------
/// Whether the part at position `i` of a path is one of its components. Empty
/// parts are not: a slash at an end, or next to another slash, parts nothing. A
/// single dot is one at the beginning of the path only.
pub open spec fn is_component(parts: Seq<Seq<char>>, i: int) -> bool {
    parts[i].len() > 0 && (i == 0 || parts[i] != seq!['.'])
}

/// The position of the last component among the first `n` parts, or a negative
/// number if there is none.
pub open spec fn last_component(parts: Seq<Seq<char>>, n: int) -> int
    decreases n,
{
    if n <= 0 {
        -1
    } else if is_component(parts, n - 1) {
        n - 1
    } else {
        last_component(parts, n - 1)
    }
}

/// Where the part at position `i` ends in the path.
pub open spec fn end_of(parts: Seq<Seq<char>>, i: int) -> int
    decreases i,
{
    if i <= 0 {
        parts[0].len() as int
    } else {
        end_of(parts, i - 1) + 1 + parts[i].len()
    }
}

/// The path without its final component: what stands before it, up to the end of
/// the component before, or the root alone, or nothing. A path without a
/// component, be it empty or the root, has no such part.
pub open spec fn directory_in(path: Seq<char>) -> Option<Seq<char>> {
    let parts = crate::text::pieces(path, '/');
    let last = last_component(parts, parts.len() as int);
    let above = last_component(parts, last);
    if last < 0 {
        None
    } else if above >= 0 {
        Some(path.take(end_of(parts, above)))
    } else if path[0] == '/' {
        Some(seq!['/'])
    } else {
        Some(Seq::empty())
    }
}

/// The final component of a path, unless there is none or the path goes upwards
/// at its end.
pub open spec fn name_in(path: Seq<char>) -> Option<Seq<char>> {
    let parts = crate::text::pieces(path, '/');
    let last = last_component(parts, parts.len() as int);
    if last < 0 || parts[last] == seq!['.', '.'] {
        None
    } else {
        Some(parts[last])
    }
}

/// Whether a path is the current directory, with nothing but slashes and dots
/// behind it.
pub open spec fn is_here(path: Seq<char>) -> bool {
    let parts = crate::text::pieces(path, '/');
    parts[0] == seq!['.'] && last_component(parts, parts.len() as int) == 0
}

/// Whether every platform reads a path alike: it holds no character that some
/// platform takes for a separator or for the mark of a drive, and does not begin
/// like the name of a host. Of the current directory alone nothing is said.
pub open spec fn ordinary(path: Seq<char>) -> bool {
    &&& !path.contains('\\')
    &&& !path.contains(':')
    &&& !(path.len() >= 2 && path[0] == '/' && path[1] == '/')
    &&& !is_here(path)
}

/// `std::path::Path::parent`: the path without its final component, which is
/// none where the path is empty or ends in the root. Components are what
/// `std::path::Path::components` documents: repeated and trailing slashes count
/// for nothing, nor do single dots but at the beginning, and nothing else is
/// normalised. Backslashes, colons and two slashes in front are a matter of the
/// platform: the contract speaks of the paths that every platform reads alike,
/// and says nothing of the others.
#[verifier::external_body]
fn parent_of(path: &str) -> (r: Option<String>)
    ensures
        ordinary(path@) ==> r.deep_view() == directory_in(path@),
{
    std::path::Path::new(path).parent().and_then(|p| p.to_str()).map(|p| p.to_owned())
}

/// `std::path::Path::file_name`: the final component of the path, which is none
/// where the path ends in the root or in two dots. The contract speaks of the
/// paths that every platform reads alike, and says nothing of the others.
#[verifier::external_body]
fn file_name_of(path: &str) -> (r: Option<String>)
    ensures
        ordinary(path@) ==> r.deep_view() == name_in(path@),
{
    std::path::Path::new(path).file_name().and_then(|n| n.to_str()).map(|n| n.to_owned())
}

/// Where a file lies: its directory, and the name that it is shown under.
pub struct Place<S = String> {
    pub directory: S,
    pub name: S,
}

impl DeepView for Place<String> {
    type V = Place<Seq<char>>;

    open spec fn deep_view(&self) -> Place<Seq<char>> {
        Place { directory: self.directory@, name: self.name@ }
    }
}

/// The place of a path with that parent and that name, where it has them. A path
/// without a parent lies in the empty directory, and one without a name is shown
/// whole.
pub open spec fn place_with(
    path: Seq<char>,
    parent: Option<Seq<char>>,
    name: Option<Seq<char>>,
) -> Place<Seq<char>> {
    Place {
        directory: match parent {
            Some(directory) => directory,
            None => Seq::empty(),
        },
        name: match name {
            Some(name) => name,
            None => path,
        },
    }
}

/// Puts a path with that parent and that name, where it has them, into its
/// place.
pub fn place_from(path: &str, parent: Option<String>, name: Option<String>) -> (r: Place)
    ensures
        r.deep_view() == place_with(path@, parent.deep_view(), name.deep_view()),
        r.directory@ == (match parent {
            Some(directory) => directory@,
            None => Seq::empty(),
        }),
        r.name@ == (match name {
            Some(name) => name@,
            None => path@,
        }),
{
    let directory = match parent {
        Some(directory) => directory,
        None => String::new(),
    };
    let name = match name {
        Some(name) => name,
        None => path.to_owned(),
    };
    Place { directory, name }
}

/// The place of a path.
pub open spec fn place_of(path: Seq<char>) -> Place<Seq<char>> {
    place_with(path, directory_in(path), name_in(path))
}

/// Splits a path.
pub fn locate(path: &str) -> (r: Place)
    ensures
        ordinary(path@) ==> r.deep_view() == place_of(path@),
{
    place_from(path, parent_of(path), file_name_of(path))
}

// ---------------------------------------------------------------------------
// One result
// ---------------------------------------------------------------------------
/// A match line in the grouped format.
pub open spec fn grouped_line(m: MatchLine, indent: Seq<char>) -> Seq<char> {
    indent + "  L"@ + crate::text::decimal(m.line as nat) + ": "@ + crate::text::truncated(
        m.content@,
        GROUP_WIDTH as nat,
    ) + "\n"@
}

pub open spec fn grouped_lines(lines: Seq<MatchLine>, indent: Seq<char>) -> Seq<char>
    decreases lines.len(),
{
    if lines.len() == 0 {
        Seq::empty()
    } else {
        grouped_lines(lines.drop_last(), indent) + grouped_line(lines.last(), indent)
    }
}

/// The match lines that are shown: at most the first [`MAX_MATCH_LINES`].
pub open spec fn shown(lines: Seq<MatchLine>) -> Seq<MatchLine> {
    if lines.len() <= MAX_MATCH_LINES {
        lines
    } else {
        lines.take(MAX_MATCH_LINES as int)
    }
}

/// The note on the match lines that are not shown.
pub open spec fn rest_note(total: nat, indent: Seq<char>) -> Seq<char> {
    if total <= MAX_MATCH_LINES {
        Seq::empty()
    } else {
        indent + "  ... (+"@ + crate::text::decimal((total - MAX_MATCH_LINES) as nat) + ")\n"@
    }
}

/// A result in the grouped format: score, name and lines, then the first match
/// lines and the number of the others.
pub open spec fn grouped_entry(r: SearchResult, name: Seq<char>, indent: Seq<char>) -> Seq<char> {
    indent + r.score.text@ + " "@ + name + ":"@ + crate::text::decimal(r.chunk.start_line as nat)
        + "-"@ + crate::text::decimal(r.chunk.end_line as nat) + "\n"@ + grouped_lines(
        shown(r.match_lines@),
        indent,
    ) + rest_note(r.match_lines@.len(), indent)
}

fn group_member(result: &SearchResult, name: &str, indent: &str) -> (r: String)
    ensures
        r@ == grouped_entry(*result, name@, indent@),
{
    let mut entry = indent.to_owned();
    entry.append(&result.score.text);
    entry.append(" ");
    entry.append(name);
    entry.append(":");
    entry.append(&number(result.chunk.start_line));
    entry.append("-");
    entry.append(&number(result.chunk.end_line));
    entry.append("\n");
    let ghost head = entry@;
    let lines = &result.match_lines;
    let total = lines.len();
    let count: usize = if total <= MAX_MATCH_LINES {
        total
    } else {
        MAX_MATCH_LINES
    };
    assert(shown(lines@) == lines@.take(count as int));
    assert(lines@.take(0) == Seq::<MatchLine>::empty());
    assert(entry@ == head + grouped_lines(lines@.take(0), indent@));
    for j in 0..count
        invariant
            count <= lines.len(),
            entry@ == head + grouped_lines(lines@.take(j as int), indent@),
    {
        let m = &lines[j];
        let ghost before = grouped_lines(lines@.take(j as int), indent@);
        let mut line = indent.to_owned();
        line.append("  L");
        line.append(&number(m.line));
        line.append(": ");
        line.append(&truncate_line(&m.content, GROUP_WIDTH));
        line.append("\n");
        entry.append(&line);
        assert(lines@.take(j + 1).drop_last() == lines@.take(j as int));
        assert(head + before + line@ == head + (before + line@));
    }
    let ghost upper = entry@;
    if total > MAX_MATCH_LINES {
        let mut note = indent.to_owned();
        note.append("  ... (+");
        note.append(&number(total - MAX_MATCH_LINES));
        note.append(")\n");
        entry.append(&note);
    }
    assert(entry@ == upper + rest_note(total as nat, indent@));
    entry
}

// ---------------------------------------------------------------------------
// One directory
// ---------------------------------------------------------------------------
/// The best rank among the results in `directory`.
pub open spec fn best_rank(
    results: Seq<SearchResult>,
    places: Seq<Place<Seq<char>>>,
    directory: Seq<char>,
) -> i64
    decreases results.len(),
{
    if results.len() == 0 {
        i64::MIN
    } else {
        let before = best_rank(results.drop_last(), places.drop_last(), directory);
        if places.last().directory == directory && results.last().score.rank > before {
            results.last().score.rank
        } else {
            before
        }
    }
}

/// How far the entries of a directory are indented below its name.
pub open spec fn indent_in(directory: Seq<char>) -> Seq<char> {
    if directory.len() == 0 {
        Seq::empty()
    } else {
        "  "@
    }
}

/// The entries of the results in `directory`, in the order of the results.
pub open spec fn members(
    results: Seq<SearchResult>,
    places: Seq<Place<Seq<char>>>,
    directory: Seq<char>,
) -> Seq<char>
    decreases results.len(),
{
    if results.len() == 0 {
        Seq::empty()
    } else {
        let before = members(results.drop_last(), places.drop_last(), directory);
        if places.last().directory == directory {
            before + grouped_entry(results.last(), places.last().name, indent_in(directory))
        } else {
            before
        }
    }
}

/// A directory with its results. The empty directory has no heading.
pub open spec fn group(
    results: Seq<SearchResult>,
    places: Seq<Place<Seq<char>>>,
    directory: Seq<char>,
) -> Seq<char> {
    if directory.len() == 0 {
        members(results, places, directory)
    } else {
        directory + "/\n"@ + members(results, places, directory)
    }
}

/// Several directories, one after another.
pub open spec fn groups(
    results: Seq<SearchResult>,
    places: Seq<Place<Seq<char>>>,
    order: Seq<Seq<char>>,
) -> Seq<char>
    decreases order.len(),
{
    if order.len() == 0 {
        Seq::empty()
    } else {
        groups(results, places, order.drop_last()) + group(results, places, order.last())
    }
}

fn render_group(results: &[SearchResult], places: &Vec<Place>, directory: &str) -> (r: String)
    requires
        results@.len() == places@.len(),
    ensures
        r@ == group(results@, places.deep_view(), directory@),
{
    let ghost spots = places.deep_view();
    let top = directory.is_empty();
    let indent = if top {
        ""
    } else {
        "  "
    };
    proof {
        reveal_strlit("");
        assert(""@ == Seq::<char>::empty());
    }
    let mut out = String::new();
    if !top {
        out = directory.to_owned();
        out.append("/\n");
    }
    let ghost head = out@;
    assert(out@ == head + members(results@.take(0), spots.take(0), directory@));
    for i in 0..results.len()
        invariant
            results@.len() == places@.len(),
            spots == places.deep_view(),
            indent@ == indent_in(directory@),
            out@ == head + members(results@.take(i as int), spots.take(i as int), directory@),
    {
        let ghost before = members(results@.take(i as int), spots.take(i as int), directory@);
        assert(results@.take(i + 1).drop_last() == results@.take(i as int));
        assert(spots.take(i + 1).drop_last() == spots.take(i as int));
        if same(&places[i].directory, directory) {
            let entry = group_member(&results[i], &places[i].name, indent);
            out.append(&entry);
            assert(head + before + entry@ == head + (before + entry@));
        }
    }
    assert(results@.take(results.len() as int) == results@);
    assert(spots.take(results.len() as int) == spots);
    assert(top ==> Seq::<char>::empty() + members(results@, spots, directory@) == members(
        results@,
        spots,
        directory@,
    ));
    out
}

// ---------------------------------------------------------------------------
// The order of the directories
// ---------------------------------------------------------------------------
/// The directory with the better result comes first, and of two with equally
/// good results the one with the smaller name.
pub open spec fn comes_before(
    results: Seq<SearchResult>,
    places: Seq<Place<Seq<char>>>,
    a: Seq<char>,
    b: Seq<char>,
) -> bool {
    let x = best_rank(results, places, a);
    let y = best_rank(results, places, b);
    x > y || x == y && crate::text::text_less(a, b)
}

/// Whether `directory` holds one of the results.
pub open spec fn is_used(places: Seq<Place<Seq<char>>>, directory: Seq<char>) -> bool {
    exists|i: int| 0 <= i < places.len() && (#[trigger] places[i]).directory == directory
}

/// Whether `order` lists each directory with results once, best first.
pub open spec fn is_listing(
    results: Seq<SearchResult>,
    places: Seq<Place<Seq<char>>>,
    order: Seq<Seq<char>>,
) -> bool {
    &&& forall|d: Seq<char>| #[trigger] order.contains(d) <==> is_used(places, d)
    &&& forall|i: int, j: int|
        0 <= i < j < order.len() ==> comes_before(
            results,
            places,
            #[trigger] order[i],
            #[trigger] order[j],
        )
}

/// Whether `text` shows the results by directory.
pub open spec fn shows_groups(
    results: Seq<SearchResult>,
    places: Seq<Place<Seq<char>>>,
    text: Seq<char>,
) -> bool {
    exists|order: Seq<Seq<char>>|
        #[trigger] is_listing(results, places, order) && text == groups(results, places, order)
}

proof fn comes_before_is_strict(
    results: Seq<SearchResult>,
    places: Seq<Place<Seq<char>>>,
    a: Seq<char>,
    b: Seq<char>,
)
    requires
        comes_before(results, places, a, b),
    ensures
        !comes_before(results, places, b, a),
        a != b,
{
    if crate::text::text_less(a, b) {
        crate::text::text_less_is_asymmetric(a, b);
    }
    if crate::text::text_less(b, a) {
        crate::text::text_less_is_asymmetric(b, a);
    }
}

proof fn listings_agree(
    results: Seq<SearchResult>,
    places: Seq<Place<Seq<char>>>,
    a: Seq<Seq<char>>,
    b: Seq<Seq<char>>,
    n: int,
)
    requires
        is_listing(results, places, a),
        is_listing(results, places, b),
        0 <= n <= a.len(),
    ensures
        n <= b.len(),
        forall|i: int| 0 <= i < n ==> a[i] == b[i],
    decreases n,
{
    if n > 0 {
        let i = n - 1;
        listings_agree(results, places, a, b, i);
        assert(a.contains(a[i]));
        assert(b.contains(a[i]));
        let j = choose|j: int| 0 <= j < b.len() && b[j] == a[i];
        if j < i {
            assert(a[j] == b[j]);
            comes_before_is_strict(results, places, a[j], a[i]);
        } else if j > i {
            assert(b.contains(b[i]));
            assert(a.contains(b[i]));
            let k = choose|k: int| 0 <= k < a.len() && a[k] == b[i];
            if k < i {
                assert(a[k] == b[k]);
                comes_before_is_strict(results, places, b[k], b[i]);
            } else if k > i {
                assert(comes_before(results, places, a[i], a[k]));
                assert(comes_before(results, places, b[i], b[j]));
                comes_before_is_strict(results, places, a[i], a[k]);
            }
        }
    }
}

/// The results and their places leave no choice in the order of the
/// directories, and so none in the text.
pub proof fn the_grouped_text_is_determined(
    results: Seq<SearchResult>,
    places: Seq<Place<Seq<char>>>,
    a: Seq<char>,
    b: Seq<char>,
)
    requires
        shows_groups(results, places, a),
        shows_groups(results, places, b),
    ensures
        a == b,
{
    let x = choose|order: Seq<Seq<char>>|
        #[trigger] is_listing(results, places, order) && a == groups(results, places, order);
    let y = choose|order: Seq<Seq<char>>|
        #[trigger] is_listing(results, places, order) && b == groups(results, places, order);
    listings_agree(results, places, x, y, x.len() as int);
    listings_agree(results, places, y, x, y.len() as int);
    assert(x == y);
}

/// Every result stands under exactly one directory of a listing.
pub proof fn every_result_has_one_group(
    results: Seq<SearchResult>,
    places: Seq<Place<Seq<char>>>,
    order: Seq<Seq<char>>,
    i: int,
)
    requires
        is_listing(results, places, order),
        0 <= i < places.len(),
    ensures
        exists|k: int|
            0 <= k < order.len() && #[trigger] order[k] == places[i].directory && forall|m: int|
                0 <= m < order.len() && #[trigger] order[m] == places[i].directory ==> m == k,
{
    let d = places[i].directory;
    assert(is_used(places, d));
    assert(order.contains(d));
    let k = choose|k: int| 0 <= k < order.len() && order[k] == d;
    assert forall|m: int| 0 <= m < order.len() && #[trigger] order[m] == d implies m == k by {
        if m < k {
            comes_before_is_strict(results, places, order[m], order[k]);
        } else if k < m {
            comes_before_is_strict(results, places, order[k], order[m]);
        }
    }
    assert(order[k] == d);
}

/// The best rank of a directory is that of one of its results, and none of them
/// has a better one.
pub proof fn the_best_rank_is_the_largest(
    results: Seq<SearchResult>,
    places: Seq<Place<Seq<char>>>,
    directory: Seq<char>,
)
    requires
        results.len() == places.len(),
        is_used(places, directory),
    ensures
        forall|i: int|
            0 <= i < results.len() && (#[trigger] places[i]).directory == directory
                ==> results[i].score.rank <= best_rank(results, places, directory),
        exists|i: int|
            0 <= i < results.len() && (#[trigger] places[i]).directory == directory
                && results[i].score.rank == best_rank(results, places, directory),
    decreases results.len(),
{
    let n = results.len() - 1;
    let before_results = results.drop_last();
    let before_places = places.drop_last();
    assert(forall|i: int| 0 <= i < n ==> before_places[i] == places[i]);
    assert(forall|i: int| 0 <= i < n ==> before_results[i] == results[i]);
    if is_used(before_places, directory) {
        the_best_rank_is_the_largest(before_results, before_places, directory);
        let i = choose|i: int|
            0 <= i < before_results.len() && (#[trigger] before_places[i]).directory == directory
                && before_results[i].score.rank == best_rank(
                before_results,
                before_places,
                directory,
            );
        assert(places[i].directory == directory);
        assert(places[n].directory == directory ==> places.last() == places[n]);
    } else {
        an_unused_directory_has_the_lowest_rank(before_results, before_places, directory);
        let i = choose|i: int| 0 <= i < places.len() && (#[trigger] places[i]).directory == directory;
        if i < n {
            assert(before_places[i].directory == directory);
        }
        assert(places[n].directory == directory);
    }
}

/// At most three match lines are shown, and the note counts the others.
pub proof fn match_lines_are_capped(lines: Seq<MatchLine>, indent: Seq<char>)
    ensures
        shown(lines).len() <= MAX_MATCH_LINES,
        shown(lines) == lines || rest_note(lines.len(), indent) == indent + "  ... (+"@
            + crate::text::decimal((lines.len() - shown(lines).len()) as nat) + ")\n"@,
{
}

/// A directory with the best rank in it.
struct Found {
    directory: String,
    best: i64,
}

/// The position of `directory` in `found`.
fn position(found: &Vec<Found>, directory: &str) -> (r: Option<usize>)
    ensures
        match r {
            Some(i) => i < found.len() && found[i as int].directory@ == directory@,
            None => forall|i: int| 0 <= i < found.len() ==> found[i].directory@ != directory@,
        },
{
    for i in 0..found.len()
        invariant
            forall|j: int| 0 <= j < i ==> found[j].directory@ != directory@,
    {
        if same(&found[i].directory, directory) {
            return Some(i);
        }
    }
    None
}

/// Whether `found` lists the directories of `places`, each once and with its
/// best rank.
spec fn is_collected(
    results: Seq<SearchResult>,
    places: Seq<Place<Seq<char>>>,
    found: Seq<Found>,
) -> bool {
    &&& forall|i: int|
        0 <= i < found.len() ==> is_used(places, (#[trigger] found[i]).directory@)
            && found[i].best == best_rank(results, places, found[i].directory@)
    &&& forall|i: int|
        0 <= i < places.len() ==> exists|j: int|
            0 <= j < found.len() && (#[trigger] found[j]).directory@ == (
            #[trigger] places[i]).directory
    &&& forall|i: int, j: int|
        0 <= i < j < found.len() ==> (#[trigger] found[i]).directory@ != (
        #[trigger] found[j]).directory@
}

proof fn an_unused_directory_has_the_lowest_rank(
    results: Seq<SearchResult>,
    places: Seq<Place<Seq<char>>>,
    directory: Seq<char>,
)
    requires
        results.len() == places.len(),
        !is_used(places, directory),
    ensures
        best_rank(results, places, directory) == i64::MIN,
    decreases results.len(),
{
    if results.len() > 0 {
        assert(places.last() == places[places.len() - 1]);
        assert(places.last().directory != directory);
        assert forall|i: int| 0 <= i < places.len() - 1 implies (
        #[trigger] places.drop_last()[i]).directory != directory by {
            assert(places.drop_last()[i] == places[i]);
        }
        an_unused_directory_has_the_lowest_rank(
            results.drop_last(),
            places.drop_last(),
            directory,
        );
    }
}

/// Collects the directories of the results with their best ranks.
fn collect(results: &[SearchResult], places: &Vec<Place>) -> (found: Vec<Found>)
    requires
        results@.len() == places@.len(),
    ensures
        is_collected(results@, places.deep_view(), found@),
{
    let ghost spots = places.deep_view();
    let mut found: Vec<Found> = Vec::new();
    for i in 0..results.len()
        invariant
            results@.len() == places@.len(),
            spots == places.deep_view(),
            is_collected(results@.take(i as int), spots.take(i as int), found@),
    {
        let ghost old_results = results@.take(i as int);
        let ghost old_spots = spots.take(i as int);
        let ghost new_results = results@.take(i + 1);
        let ghost new_spots = spots.take(i + 1);
        let ghost before = found@;
        assert(new_results.drop_last() == old_results);
        assert(new_spots.drop_last() == old_spots);
        assert(forall|j: int| 0 <= j < i ==> new_spots[j] == old_spots[j]);
        assert forall|d: Seq<char>| is_used(old_spots, d) implies is_used(new_spots, d) by {
            let j = choose|j: int| 0 <= j < old_spots.len() && old_spots[j].directory == d;
            assert(new_spots[j].directory == d);
        }
        let rank = results[i].score.rank;
        let directory = &places[i].directory;
        assert(new_spots[i as int].directory == directory@);
        match position(&found, directory) {
            Some(k) => {
                if rank > found[k].best {
                    found[k].best = rank;
                }
                assert(found@.len() == before.len());
                assert(forall|j: int|
                    0 <= j < found.len() ==> found@[j].directory == before[j].directory);
                assert forall|j: int| 0 <= j < new_spots.len() implies exists|l: int|
                    0 <= l < found@.len() && (#[trigger] found@[l]).directory@ == (
                    #[trigger] new_spots[j]).directory by {
                    if j < i {
                        let l = choose|l: int|
                            0 <= l < before.len() && (#[trigger] before[l]).directory@
                                == old_spots[j].directory;
                        assert(found@[l].directory@ == new_spots[j].directory);
                    } else {
                        assert(found@[k as int].directory@ == new_spots[j].directory);
                    }
                }
                assert forall|j: int| 0 <= j < found@.len() implies is_used(
                    new_spots,
                    (#[trigger] found@[j]).directory@,
                ) && found@[j].best == best_rank(new_results, new_spots, found@[j].directory@) by {
                    assert(is_used(old_spots, before[j].directory@));
                    if j != k {
                        assert(found@[j] == before[j]);
                        assert(before[j].directory@ != before[k as int].directory@);
                    }
                }
            },
            None => {
                proof {
                    if is_used(old_spots, directory@) {
                        let j = choose|j: int|
                            0 <= j < old_spots.len() && old_spots[j].directory == directory@;
                        let l = choose|l: int|
                            0 <= l < before.len() && (#[trigger] before[l]).directory@
                                == old_spots[j].directory;
                        assert(before[l].directory@ != directory@);
                    }
                    an_unused_directory_has_the_lowest_rank(old_results, old_spots, directory@);
                }
                found.push(Found { directory: directory.clone(), best: rank });
                assert forall|j: int| 0 <= j < new_spots.len() implies exists|l: int|
                    0 <= l < found@.len() && (#[trigger] found@[l]).directory@ == (
                    #[trigger] new_spots[j]).directory by {
                    if j < i {
                        let l = choose|l: int|
                            0 <= l < before.len() && (#[trigger] before[l]).directory@
                                == old_spots[j].directory;
                        assert(found@[l].directory@ == new_spots[j].directory);
                    } else {
                        assert(found@[before.len() as int].directory@ == new_spots[j].directory);
                    }
                }
                assert forall|j: int| 0 <= j < found@.len() implies is_used(
                    new_spots,
                    (#[trigger] found@[j]).directory@,
                ) && found@[j].best == best_rank(new_results, new_spots, found@[j].directory@) by {
                    if j < before.len() {
                        assert(found@[j] == before[j]);
                        assert(is_used(old_spots, before[j].directory@));
                    }
                }
            },
        }
    }
    assert(results@.take(results.len() as int) == results@);
    assert(spots.take(results.len() as int) == spots);
    found
}

spec fn found_before(a: Found, b: Found) -> bool {
    a.best > b.best || a.best == b.best && crate::text::text_less(a.directory@, b.directory@)
}

spec fn is_arranged(found: Seq<Found>) -> bool {
    forall|i: int, j: int|
        0 <= i < j < found.len() ==> found_before(#[trigger] found[i], #[trigger] found[j])
}

fn is_before(a: &Found, b: &Found) -> (r: bool)
    ensures
        r == found_before(*a, *b),
        !r && a.directory@ != b.directory@ ==> found_before(*b, *a),
{
    a.best > b.best || a.best == b.best && less(&a.directory, &b.directory)
}

/// Puts `item` into its place among `sorted`.
fn place_in(sorted: &mut Vec<Found>, item: Found)
    requires
        is_arranged(old(sorted)@),
        forall|i: int|
            0 <= i < old(sorted)@.len() ==> (#[trigger] old(sorted)@[i]).directory@
                != item.directory@,
    ensures
        is_arranged(final(sorted)@),
        exists|p: int|
            0 <= p <= old(sorted)@.len() && final(sorted)@ == #[trigger] old(sorted)@.insert(
                p,
                item,
            ),
{
    let ghost before = sorted@;
    let mut p: usize = 0;
    while p < sorted.len() && !is_before(&item, &sorted[p])
        invariant
            sorted@ == before,
            p <= sorted.len(),
            forall|i: int|
                0 <= i < before.len() ==> (#[trigger] before[i]).directory@ != item.directory@,
            forall|i: int| 0 <= i < p ==> found_before(#[trigger] before[i], item),
        decreases sorted.len() - p,
    {
        assert(before[p as int].directory@ != item.directory@);
        p += 1;
    }
    sorted.insert(p, item);
    let ghost after = sorted@;
    assert(after == before.insert(p as int, item));
    assert forall|i: int, j: int| 0 <= i < j < after.len() implies found_before(
        #[trigger] after[i],
        #[trigger] after[j],
    ) by {
        if i == p {
            let next = before[p as int];
            assert(found_before(item, next));
            assert(after[j] == before[j - 1]);
            if j - 1 > p {
                assert(found_before(next, before[j - 1]));
                if item.best == next.best && next.best == before[j - 1].best {
                    crate::text::text_less_is_transitive(
                        item.directory@,
                        next.directory@,
                        before[j - 1].directory@,
                    );
                }
            }
        }
    }
}

/// Sorts the directories: best rank first, then by name.
fn arrange(found: Vec<Found>) -> (sorted: Vec<Found>)
    requires
        forall|i: int, j: int|
            0 <= i < j < found.len() ==> (#[trigger] found[i]).directory@ != (
            #[trigger] found[j]).directory@,
    ensures
        is_arranged(sorted@),
        forall|x: Found| #[trigger] sorted@.contains(x) <==> found@.contains(x),
{
    let ghost all = found@;
    let mut sorted: Vec<Found> = Vec::new();
    for item in it: found
        invariant
            it.seq() == all,
            forall|i: int, j: int|
                0 <= i < j < all.len() ==> (#[trigger] all[i]).directory@ != (
                #[trigger] all[j]).directory@,
            is_arranged(sorted@),
            forall|x: Found| #[trigger] sorted@.contains(x) <==> all.take(it.index()).contains(x),
    {
        let ghost before = sorted@;
        let ghost n = it.index();
        assert(item == all[n]);
        assert forall|i: int| 0 <= i < before.len() implies (#[trigger] before[i]).directory@
            != item.directory@ by {
            assert(before.contains(before[i]));
            let j = choose|j: int| 0 <= j < n && all.take(n)[j] == before[i];
            assert(all[j] == before[i]);
        }
        place_in(&mut sorted, item);
        proof {
            let p = choose|p: int|
                0 <= p <= before.len() && sorted@ == #[trigger] before.insert(p, item);
            assert forall|x: Found| #[trigger] sorted@.contains(x) <==> all.take(
                n + 1,
            ).contains(x) by {
                assert(all.take(n + 1) == all.take(n).push(item));
                if sorted@.contains(x) {
                    let i = choose|i: int| 0 <= i < sorted@.len() && sorted@[i] == x;
                    if i == p {
                        assert(all.take(n + 1)[n] == x);
                    } else {
                        assert(before[if i < p { i } else { i - 1 }] == x);
                        assert(before.contains(x));
                        let j = choose|j: int| 0 <= j < n && all.take(n)[j] == x;
                        assert(all.take(n + 1)[j] == x);
                    }
                }
                if all.take(n + 1).contains(x) {
                    let longer = all.take(n + 1);
                    let j = choose|j: int| 0 <= j < longer.len() && longer[j] == x;
                    if j == n {
                        assert(sorted@[p] == x);
                    } else {
                        assert(all.take(n)[j] == x);
                        assert(before.contains(x));
                        let i = choose|i: int| 0 <= i < before.len() && before[i] == x;
                        assert(sorted@[if i < p { i } else { i + 1 }] == x);
                    }
                }
            }
        }
    }
    assert(all.take(all.len() as int) == all);
    sorted
}

/// Groups results by directory, each result at its place.
pub fn grouped_at(results: &[SearchResult], places: &Vec<Place>) -> (r: String)
    requires
        results@.len() == places@.len(),
    ensures
        shows_groups(results@, places.deep_view(), r@),
{
    let ghost spots = places.deep_view();
    let found = collect(results, places);
    let ghost collected = found@;
    let sorted = arrange(found);
    let ghost order = sorted@.map_values(|f: Found| f.directory@);
    proof {
        assert forall|i: int| 0 <= i < sorted@.len() implies (#[trigger] sorted@[i]).best
            == best_rank(results@, spots, sorted@[i].directory@) && is_used(
            spots,
            sorted@[i].directory@,
        ) by {
            assert(sorted@.contains(sorted@[i]));
            let j = choose|j: int| 0 <= j < collected.len() && collected[j] == sorted@[i];
            assert(is_used(spots, collected[j].directory@));
        }
        assert forall|d: Seq<char>| #[trigger] order.contains(d) <==> is_used(spots, d) by {
            if order.contains(d) {
                let i = choose|i: int| 0 <= i < order.len() && order[i] == d;
                assert(sorted@[i].directory@ == d);
            }
            if is_used(spots, d) {
                let i = choose|i: int| 0 <= i < spots.len() && (#[trigger] spots[i]).directory == d;
                let j = choose|j: int|
                    0 <= j < collected.len() && (#[trigger] collected[j]).directory@
                        == spots[i].directory;
                assert(collected.contains(collected[j]));
                assert(sorted@.contains(collected[j]));
                let k = choose|k: int| 0 <= k < sorted@.len() && sorted@[k] == collected[j];
                assert(order[k] == d);
            }
        }
        assert(is_listing(results@, spots, order));
    }
    let mut out = String::new();
    assert(order.take(0) == Seq::<Seq<char>>::empty());
    for i in 0..sorted.len()
        invariant
            results@.len() == places@.len(),
            spots == places.deep_view(),
            order == sorted@.map_values(|f: Found| f.directory@),
            out@ == groups(results@, spots, order.take(i as int)),
    {
        out.append(&render_group(results, places, &sorted[i].directory));
        assert(order.take(i + 1).drop_last() == order.take(i as int));
    }
    assert(order.take(sorted.len() as int) == order);
    out
}

/// Whether `places` gives each result a place, and the ordinary paths theirs.
pub open spec fn are_places(
    results: Seq<SearchResult>,
    places: Seq<Place<Seq<char>>>,
) -> bool {
    &&& places.len() == results.len()
    &&& forall|i: int|
        0 <= i < results.len() && ordinary(results[i].chunk.file_path@) ==> (#[trigger] places[i])
            == place_of(results[i].chunk.file_path@)
}

/// Whether `text` shows the results by directory, each at its place.
pub open spec fn is_grouped_text(results: Seq<SearchResult>, text: Seq<char>) -> bool {
    exists|places: Seq<Place<Seq<char>>>|
        #[trigger] are_places(results, places) && shows_groups(results, places, text)
}

/// Directory-grouped search output with match lines capped at 3 per chunk. How
/// a path splits into directory and name is stated for ordinary paths; for
/// others it is up to the platform.
pub fn grouped(results: &[SearchResult]) -> (r: String)
    ensures
        is_grouped_text(results@, r@),
{
    let mut places: Vec<Place> = Vec::new();
    for i in 0..results.len()
        invariant
            are_places(results@.take(i as int), places.deep_view()),
    {
        let ghost before = places.deep_view();
        let place = locate(&results[i].chunk.file_path);
        places.push(place);
        assert(places.deep_view() == before.push(place.deep_view()));
    }
    assert(results@.take(results.len() as int) == results@);
    grouped_at(results, &places)
}

/// Where every platform reads the paths of the results alike, there is only one
/// grouped text.
pub proof fn ordinary_paths_leave_no_choice(
    results: Seq<SearchResult>,
    a: Seq<char>,
    b: Seq<char>,
)
    requires
        forall|i: int|
            0 <= i < results.len() ==> ordinary((#[trigger] results[i]).chunk.file_path@),
        is_grouped_text(results, a),
        is_grouped_text(results, b),
    ensures
        a == b,
{
    let x = choose|places: Seq<Place<Seq<char>>>|
        #[trigger] are_places(results, places) && shows_groups(results, places, a);
    let y = choose|places: Seq<Place<Seq<char>>>|
        #[trigger] are_places(results, places) && shows_groups(results, places, b);
    assert forall|i: int| 0 <= i < results.len() implies x[i] == y[i] by {
        assert(ordinary(results[i].chunk.file_path@));
    }
    assert(x == y);
    the_grouped_text_is_determined(results, x, a, b);
}

/// The results in `directory` with the names that they are shown under.
pub open spec fn within(
    results: Seq<SearchResult>,
    places: Seq<Place<Seq<char>>>,
    directory: Seq<char>,
) -> Seq<(SearchResult, Seq<char>)>
    decreases results.len(),
{
    if results.len() == 0 {
        Seq::empty()
    } else {
        let before = within(results.drop_last(), places.drop_last(), directory);
        if places.last().directory == directory {
            before.push((results.last(), places.last().name))
        } else {
            before
        }
    }
}

/// What the last result adds to what is within a directory, to its entries and
/// to its best rank.
proof fn one_more_result_unfolds(
    results: Seq<SearchResult>,
    places: Seq<Place<Seq<char>>>,
    directory: Seq<char>,
)
    ensures
        results.len() == 0 ==> within(results, places, directory).len() == 0,
        results.len() > 0 ==> ({
            let r = results.drop_last();
            let p = places.drop_last();
            let counts = places.last().directory == directory;
            let rank = results.last().score.rank;
            let name = places.last().name;
            let best = best_rank(r, p, directory);
            &&& within(results, places, directory) == (if counts {
                within(r, p, directory).push((results.last(), name))
            } else {
                within(r, p, directory)
            })
            &&& members(results, places, directory) == (if counts {
                members(r, p, directory) + grouped_entry(results.last(), name, indent_in(directory))
            } else {
                members(r, p, directory)
            })
            &&& best_rank(results, places, directory) == (if counts && rank > best {
                rank
            } else {
                best
            })
        }),
{
}

#[verifier::spinoff_prover]
proof fn a_group_is_made_of_what_is_within(
    a_results: Seq<SearchResult>,
    a_places: Seq<Place<Seq<char>>>,
    b_results: Seq<SearchResult>,
    b_places: Seq<Place<Seq<char>>>,
    directory: Seq<char>,
)
    requires
        within(a_results, a_places, directory) == within(b_results, b_places, directory),
    ensures
        members(a_results, a_places, directory) == members(b_results, b_places, directory),
        best_rank(a_results, a_places, directory) == best_rank(b_results, b_places, directory),
    decreases a_results.len() + b_results.len(),
{
    let a = within(a_results, a_places, directory);
    let b = within(b_results, b_places, directory);
    let a_counts = a_results.len() > 0 && a_places.last().directory == directory;
    let b_counts = b_results.len() > 0 && b_places.last().directory == directory;
    one_more_result_unfolds(a_results, a_places, directory);
    one_more_result_unfolds(b_results, b_places, directory);
    if a_results.len() > 0 && !a_counts {
        a_group_is_made_of_what_is_within(
            a_results.drop_last(),
            a_places.drop_last(),
            b_results,
            b_places,
            directory,
        );
    } else if b_results.len() > 0 && !b_counts {
        a_group_is_made_of_what_is_within(
            a_results,
            a_places,
            b_results.drop_last(),
            b_places.drop_last(),
            directory,
        );
    } else if a_counts && b_counts {
        assert(a.last() == b.last());
        assert(a.drop_last() == within(a_results.drop_last(), a_places.drop_last(), directory));
        assert(b.drop_last() == within(b_results.drop_last(), b_places.drop_last(), directory));
        a_group_is_made_of_what_is_within(
            a_results.drop_last(),
            a_places.drop_last(),
            b_results.drop_last(),
            b_places.drop_last(),
            directory,
        );
    } else {
        assert(a.len() == b.len());
        assert(a_results.len() == 0 && b_results.len() == 0);
    }
}

/// How a directory is shown, and how good its best result is, depends on its own
/// results and their order alone: not on how those of others stand between them.
pub proof fn a_group_depends_on_its_own_results(
    a_results: Seq<SearchResult>,
    a_places: Seq<Place<Seq<char>>>,
    b_results: Seq<SearchResult>,
    b_places: Seq<Place<Seq<char>>>,
    directory: Seq<char>,
)
    requires
        within(a_results, a_places, directory) == within(b_results, b_places, directory),
    ensures
        group(a_results, a_places, directory) == group(b_results, b_places, directory),
        best_rank(a_results, a_places, directory) == best_rank(b_results, b_places, directory),
{
    a_group_is_made_of_what_is_within(a_results, a_places, b_results, b_places, directory);
}

proof fn a_used_directory_has_something_within(
    results: Seq<SearchResult>,
    places: Seq<Place<Seq<char>>>,
    directory: Seq<char>,
)
    requires
        results.len() == places.len(),
    ensures
        is_used(places, directory) <==> within(results, places, directory).len() > 0,
    decreases results.len(),
{
    if results.len() > 0 {
        let n = places.len() - 1;
        let before = places.drop_last();
        a_used_directory_has_something_within(results.drop_last(), before, directory);
        assert(places.last() == places[n]);
        if is_used(before, directory) {
            let i = choose|i: int|
                0 <= i < before.len() && (#[trigger] before[i]).directory == directory;
            assert(places[i].directory == directory);
        }
        if is_used(places, directory) {
            let i = choose|i: int|
                0 <= i < places.len() && (#[trigger] places[i]).directory == directory;
            if i < n {
                assert(before[i].directory == directory);
            }
        }
    }
}

proof fn like_groups_have_like_texts(
    a_results: Seq<SearchResult>,
    a_places: Seq<Place<Seq<char>>>,
    b_results: Seq<SearchResult>,
    b_places: Seq<Place<Seq<char>>>,
    order: Seq<Seq<char>>,
)
    requires
        forall|d: Seq<char>| #[trigger]
            within(a_results, a_places, d) == within(b_results, b_places, d),
    ensures
        groups(a_results, a_places, order) == groups(b_results, b_places, order),
    decreases order.len(),
{
    if order.len() > 0 {
        like_groups_have_like_texts(a_results, a_places, b_results, b_places, order.drop_last());
        a_group_depends_on_its_own_results(
            a_results,
            a_places,
            b_results,
            b_places,
            order.last(),
        );
    }
}

/// The grouped text depends on nothing but the results within each directory and
/// their order there: not on how those of different directories are interleaved.
pub proof fn interleaving_does_not_matter(
    a_results: Seq<SearchResult>,
    a_places: Seq<Place<Seq<char>>>,
    b_results: Seq<SearchResult>,
    b_places: Seq<Place<Seq<char>>>,
    a: Seq<char>,
    b: Seq<char>,
)
    requires
        a_results.len() == a_places.len(),
        b_results.len() == b_places.len(),
        forall|d: Seq<char>| #[trigger]
            within(a_results, a_places, d) == within(b_results, b_places, d),
        shows_groups(a_results, a_places, a),
        shows_groups(b_results, b_places, b),
    ensures
        a == b,
{
    let order = choose|order: Seq<Seq<char>>|
        #[trigger] is_listing(a_results, a_places, order) && a == groups(
            a_results,
            a_places,
            order,
        );
    assert forall|d: Seq<char>|
        best_rank(a_results, a_places, d) == #[trigger] best_rank(b_results, b_places, d) by {
        a_group_depends_on_its_own_results(a_results, a_places, b_results, b_places, d);
    }
    assert forall|d: Seq<char>| #[trigger] order.contains(d) <==> is_used(b_places, d) by {
        a_used_directory_has_something_within(a_results, a_places, d);
        a_used_directory_has_something_within(b_results, b_places, d);
        assert(within(a_results, a_places, d) == within(b_results, b_places, d));
    }
    assert forall|i: int, j: int| 0 <= i < j < order.len() implies comes_before(
        b_results,
        b_places,
        #[trigger] order[i],
        #[trigger] order[j],
    ) by {
        assert(comes_before(a_results, a_places, order[i], order[j]));
    }
    assert(is_listing(b_results, b_places, order));
    like_groups_have_like_texts(a_results, a_places, b_results, b_places, order);
    the_grouped_text_is_determined(b_results, b_places, a, b);
}

// ---------------------------------------------------------------------------
// What a grouped text tells
// ---------------------------------------------------------------------------
/// The directories of a listing stand in the order of their best results: the
/// better one first, and of two that are equally good the one with the smaller
/// name. For each result in the later one there is one in the earlier one that
/// is at least as good.
pub proof fn better_directories_come_first(
    results: Seq<SearchResult>,
    places: Seq<Place<Seq<char>>>,
    order: Seq<Seq<char>>,
    i: int,
    j: int,
)
    requires
        results.len() == places.len(),
        is_listing(results, places, order),
        0 <= i < j < order.len(),
    ensures
        best_rank(results, places, order[i]) >= best_rank(results, places, order[j]),
        best_rank(results, places, order[i]) == best_rank(results, places, order[j])
            ==> crate::text::text_less(order[i], order[j]),
        forall|y: int|
            0 <= y < results.len() && (#[trigger] places[y]).directory == order[j] ==> exists|x: int|
                0 <= x < results.len() && (#[trigger] places[x]).directory == order[i]
                    && results[x].score.rank >= results[y].score.rank,
{
    assert(comes_before(results, places, order[i], order[j]));
    assert(order.contains(order[i]));
    assert(order.contains(order[j]));
    the_best_rank_is_the_largest(results, places, order[i]);
    the_best_rank_is_the_largest(results, places, order[j]);
    let x = choose|x: int|
        0 <= x < results.len() && (#[trigger] places[x]).directory == order[i]
            && results[x].score.rank == best_rank(results, places, order[i]);
    assert forall|y: int|
        0 <= y < results.len() && (#[trigger] places[y]).directory == order[j] implies exists|x: int|
        0 <= x < results.len() && (#[trigger] places[x]).directory == order[i]
            && results[x].score.rank >= results[y].score.rank by {
        assert(places[x].directory == order[i]);
    }
}

/// A directory with a result that is better than all results of another one
/// stands before it.
pub proof fn the_best_result_puts_its_directory_first(
    results: Seq<SearchResult>,
    places: Seq<Place<Seq<char>>>,
    order: Seq<Seq<char>>,
    i: int,
    j: int,
    x: int,
)
    requires
        results.len() == places.len(),
        is_listing(results, places, order),
        0 <= i < order.len(),
        0 <= j < order.len(),
        0 <= x < results.len(),
        places[x].directory == order[i],
        forall|y: int|
            0 <= y < results.len() && (#[trigger] places[y]).directory == order[j]
                ==> results[y].score.rank < results[x].score.rank,
    ensures
        i < j,
{
    if j < i {
        better_directories_come_first(results, places, order, j, i);
    }
}

/// Where the best results of two directories are equally good, the directory
/// with the smaller name stands before the other.
pub proof fn equally_good_directories_stand_by_name(
    results: Seq<SearchResult>,
    places: Seq<Place<Seq<char>>>,
    order: Seq<Seq<char>>,
    i: int,
    j: int,
    x: int,
    y: int,
)
    requires
        results.len() == places.len(),
        is_listing(results, places, order),
        0 <= i < order.len(),
        0 <= j < order.len(),
        0 <= x < results.len(),
        0 <= y < results.len(),
        places[x].directory == order[i],
        places[y].directory == order[j],
        results[x].score.rank == results[y].score.rank,
        forall|z: int|
            0 <= z < results.len() && ((#[trigger] places[z]).directory == order[i]
                || places[z].directory == order[j]) ==> results[z].score.rank
                <= results[x].score.rank,
        crate::text::text_less(order[i], order[j]),
    ensures
        i < j,
{
    assert(order.contains(order[i]));
    assert(order.contains(order[j]));
    the_best_rank_is_the_largest(results, places, order[i]);
    the_best_rank_is_the_largest(results, places, order[j]);
    crate::text::text_less_is_asymmetric(order[i], order[j]);
    if j < i {
        better_directories_come_first(results, places, order, j, i);
    }
}

/// A listing holds the directory of each result, and no other directory.
pub proof fn a_listing_holds_the_directories_of_the_results(
    results: Seq<SearchResult>,
    places: Seq<Place<Seq<char>>>,
    order: Seq<Seq<char>>,
    d: Seq<char>,
)
    requires
        is_listing(results, places, order),
    ensures
        (exists|k: int| 0 <= k < order.len() && #[trigger] order[k] == d) <==> (exists|i: int|
            0 <= i < places.len() && (#[trigger] places[i]).directory == d),
{
    assert(order.contains(d) <==> is_used(places, d));
    if exists|k: int| 0 <= k < order.len() && #[trigger] order[k] == d {
        let k = choose|k: int| 0 <= k < order.len() && #[trigger] order[k] == d;
        assert(order.contains(order[k]));
    }
    if order.contains(d) {
        let k = choose|k: int| 0 <= k < order.len() && order[k] == d;
        assert(order[k] == d);
    }
}

/// A grouped text shows the directories of a listing, one after another, and
/// each with its results.
pub proof fn a_grouped_text_shows_a_listing(
    results: Seq<SearchResult>,
    places: Seq<Place<Seq<char>>>,
    text: Seq<char>,
    a: Seq<Seq<char>>,
    d: Seq<char>,
)
    ensures
        shows_groups(results, places, text) ==> exists|order: Seq<Seq<char>>|
            #[trigger] is_listing(results, places, order) && text == groups(
                results,
                places,
                order,
            ),
        groups(results, places, Seq::empty()).len() == 0,
        groups(results, places, a.push(d)) == groups(results, places, a) + group(
            results,
            places,
            d,
        ),
{
    assert(a.push(d).drop_last() == a);
}

/// The name of a directory stands on a line of its own, with a slash, and its
/// results are indented below it. Results without a directory have neither.
pub proof fn a_directory_stands_above_its_results(
    results: Seq<SearchResult>,
    places: Seq<Place<Seq<char>>>,
    d: Seq<char>,
)
    ensures
        d.len() > 0 ==> group(results, places, d) == d + "/\n"@ + members(results, places, d),
        d.len() == 0 ==> group(results, places, d) == members(results, places, d),
{
}

/// Each result stands in the group of its directory and in no other, behind the
/// results that come before it: its score, its name and the numbers of its first
/// and its last line, then its match lines.
pub proof fn a_result_stands_in_the_group_of_its_directory(
    results: Seq<SearchResult>,
    places: Seq<Place<Seq<char>>>,
    r: SearchResult,
    place: Place<Seq<char>>,
    d: Seq<char>,
)
    ensures
        members(Seq::empty(), Seq::empty(), d).len() == 0,
        place.directory != d ==> members(results.push(r), places.push(place), d) == members(
            results,
            places,
            d,
        ),
        place.directory == d ==> ({
            let indent = if d.len() > 0 {
                "  "@
            } else {
                Seq::empty()
            };
            let head = indent + r.score.text@ + " "@ + place.name + ":"@ + crate::text::decimal(
                r.chunk.start_line as nat,
            ) + "-"@ + crate::text::decimal(r.chunk.end_line as nat) + "\n"@;
            let lines = r.match_lines@;
            let shown = if lines.len() > 3 {
                grouped_lines(lines.take(3), indent) + (indent + "  ... (+"@
                    + crate::text::decimal((lines.len() - 3) as nat) + ")\n"@)
            } else {
                grouped_lines(lines, indent)
            };
            members(results.push(r), places.push(place), d) == members(results, places, d) + (head
                + shown)
        }),
{
    assert(results.push(r).drop_last() == results);
    assert(places.push(place).drop_last() == places);
    if place.directory == d {
        let indent = indent_in(d);
        let lines = r.match_lines@;
        let head = indent + r.score.text@ + " "@ + place.name + ":"@ + crate::text::decimal(
            r.chunk.start_line as nat,
        ) + "-"@ + crate::text::decimal(r.chunk.end_line as nat) + "\n"@;
        let part = grouped_lines(shown(lines), indent);
        let note = rest_note(lines.len(), indent);
        assert(head + part + note == head + (part + note));
        if lines.len() <= 3 {
            assert(part + note == part);
        }
    }
}

/// The match lines of two lists are shown one after the other, each with its
/// number and what is left of it when it is cut to 100.
pub proof fn grouped_lines_are_shown_one_by_one(
    a: Seq<MatchLine>,
    m: MatchLine,
    b: Seq<MatchLine>,
    indent: Seq<char>,
)
    ensures
        grouped_lines(a + b, indent) == grouped_lines(a, indent) + grouped_lines(b, indent),
        grouped_lines(Seq::empty(), indent).len() == 0,
        grouped_lines(seq![m], indent) == indent + "  L"@ + crate::text::decimal(m.line as nat)
            + ": "@ + crate::text::truncated(m.content@, 100) + "\n"@,
    decreases b.len(),
{
    reveal_with_fuel(grouped_lines, 2);
    assert(seq![m].drop_last() == Seq::<MatchLine>::empty());
    assert(Seq::<char>::empty() + grouped_line(m, indent) == grouped_line(m, indent));
    if b.len() == 0 {
        assert(a + b == a);
        assert(grouped_lines(a, indent) + grouped_lines(b, indent) == grouped_lines(a, indent));
    } else {
        grouped_lines_are_shown_one_by_one(a, m, b.drop_last(), indent);
        assert((a + b).drop_last() == a + b.drop_last());
        let line = grouped_line(b.last(), indent);
        assert(grouped_lines(a, indent) + grouped_lines(b.drop_last(), indent) + line
            == grouped_lines(a, indent) + (grouped_lines(b.drop_last(), indent) + line));
    }
}

/// A grouped text puts each result with an ordinary path into its place.
pub proof fn a_grouped_text_puts_results_into_their_places(
    results: Seq<SearchResult>,
    text: Seq<char>,
)
    requires
        is_grouped_text(results, text),
    ensures
        exists|places: Seq<Place<Seq<char>>>|
            places.len() == results.len() && #[trigger] shows_groups(results, places, text) && (
            forall|i: int|
                0 <= i < results.len() && ordinary((#[trigger] results[i]).chunk.file_path@)
                    ==> places[i] == place_of(results[i].chunk.file_path@)),
{
    let places = choose|places: Seq<Place<Seq<char>>>|
        #[trigger] are_places(results, places) && shows_groups(results, places, text);
    assert forall|i: int|
        0 <= i < results.len() && ordinary(
            (#[trigger] results[i]).chunk.file_path@,
        ) implies places[i] == place_of(results[i].chunk.file_path@) by {
        assert(places[i] == places[i]);
    }
    assert(shows_groups(results, places, text));
}

/// A path without a parent lies in the empty directory and one without a name is
/// shown whole; else a path lies in its parent, under its name.
pub proof fn a_path_lies_in_its_parent(
    path: Seq<char>,
    parent: Option<Seq<char>>,
    name: Option<Seq<char>>,
)
    ensures
        ({
            let place = place_with(path, parent, name);
            &&& parent matches Some(d) ==> place.directory == d
            &&& parent is None ==> place.directory.len() == 0
            &&& name matches Some(n) ==> place.name == n
            &&& name is None ==> place.name == path
        }),
        place_of(path) == place_with(path, directory_in(path), name_in(path)),
{
}

proof fn the_last_piece_ends_the_text(s: Seq<char>)
    ensures
        end_of(crate::text::pieces(s, '/'), crate::text::pieces(s, '/').len() - 1) == s.len(),
    decreases s.len(),
{
    let parts = crate::text::pieces(s, '/');
    crate::text::pieces_make_the_text_again(s, '/');
    if s.len() > 0 {
        let before = crate::text::pieces(s.drop_last(), '/');
        crate::text::pieces_make_the_text_again(s.drop_last(), '/');
        the_last_piece_ends_the_text(s.drop_last());
        if s.last() == '/' {
            like_pieces_end_alike(parts, before, before.len() - 1);
        } else if before.len() > 1 {
            like_pieces_end_alike(parts, before, before.len() - 2);
        }
    }
}

proof fn like_pieces_end_alike(a: Seq<Seq<char>>, b: Seq<Seq<char>>, i: int)
    requires
        0 <= i < a.len(),
        i < b.len(),
        forall|k: int| 0 <= k <= i ==> #[trigger] a[k] == b[k],
    ensures
        end_of(a, i) == end_of(b, i),
    decreases i,
{
    assert(a[i] == b[i]);
    if i > 0 {
        like_pieces_end_alike(a, b, i - 1);
    }
}

/// A file in a directory is found in that directory, under its name.
pub proof fn a_file_lies_in_its_directory(directory: Seq<char>, name: Seq<char>)
    requires
        directory.len() > 0,
        directory.last() != '/',
        directory.last() != '.',
        name.len() > 0,
        !name.contains('/'),
        name != seq!['.'],
        name != seq!['.', '.'],
    ensures
        place_of(directory.push('/') + name) == (Place { directory, name }),
        place_of(name) == (Place { directory: Seq::<char>::empty(), name }),
        place_of(seq!['/'] + name) == (Place { directory: seq!['/'], name }),
{
    let path = directory.push('/') + name;
    let above = crate::text::pieces(directory, '/');
    let parts = crate::text::pieces(path, '/');
    let n = above.len();
    crate::text::pieces_make_the_text_again(directory, '/');
    crate::text::without_a_separator_there_is_one_piece(name, '/');
    crate::text::a_separator_parts_the_pieces(directory, name, '/');
    assert(parts == above.push(name));
    the_last_piece_ends_the_text(directory);
    like_pieces_end_alike(parts, above, n - 1);
    assert(parts[n - 1] == above.last());
    assert(above.last().len() > 0 && above.last().last() == directory.last());
    assert(path.take(directory.len() as int) == directory);
    reveal_with_fuel(last_component, 3);
    assert(last_component(parts, parts.len() as int) == n);
    assert(last_component(parts, n as int) == n - 1);
    let none = Seq::<char>::empty();
    let rooted = seq!['/'] + name;
    crate::text::a_separator_parts_the_pieces(none, name, '/');
    assert(none.push('/') + name == rooted);
    let pieces = crate::text::pieces(rooted, '/');
    assert(crate::text::pieces(none, '/') == seq![none]);
    assert(pieces == seq![none, name]);
    assert(last_component(pieces, 2) == 1);
    assert(last_component(pieces, 1) == -1);
    assert(last_component(seq![name], 1) == 0);
    assert(name[0] != '/') by {
        if name[0] == '/' {
            assert(name.contains('/'));
        }
    }
}

/// A place shows its directory and its name.
pub proof fn a_place_shows_its_parts(place: Place)
    ensures
        place.deep_view().directory == place.directory@,
        place.deep_view().name == place.name@,
{
}

} // verus!
