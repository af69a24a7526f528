//! From what the work of a tool has found to the answer.

use vstd::prelude::*;
use vstd::string::*;

use crate::graph::DependencyGraph;
use crate::mcp::errors::{ErrorView, ToolError};
use crate::render::{compact, dep_tree, deps_summary, grouped, impact_summary, outline};
use crate::text::{is_blank, number, quote, same, trim};
use crate::types::SearchResult;

verus! {

/// An answer: a text, or the full listing of the results under a heading.
#[derive(Debug, PartialEq)]
pub enum Output<S = String> {
    Text(S),
    Listing(S),
}

impl View for Output<String> {
    type V = Output<Seq<char>>;

    open spec fn view(&self) -> Output<Seq<char>> {
        match *self {
            Output::Text(s) => Output::Text(s@),
            Output::Listing(heading) => Output::Listing(heading@),
        }
    }
}

/// An answer or an error, by its views.
pub open spec fn answered(r: Result<Output, ToolError>) -> Result<Output<Seq<char>>, ErrorView> {
    match r {
        Ok(output) => Ok(output@),
        Err(e) => Err(e@),
    }
}

/// A text or an error, by its views.
pub open spec fn told(r: Result<String, ToolError>) -> Result<Seq<char>, ErrorView> {
    match r {
        Ok(s) => Ok(s@),
        Err(e) => Err(e@),
    }
}

/// The heading over the full listing of search results.
pub open spec fn search_heading(query: Seq<char>) -> Seq<char> {
    "Search results for: "@ + crate::text::quoted(query)
}

/// Writes the heading over the full listing of search results.
pub fn heading_for_search(query: &str) -> (r: String)
    ensures
        r@ == search_heading(query@),
{
    let mut r = "Search results for: ".to_owned();
    r.append(&quote(query));
    r
}

/// Whether `answer` is right for a search that found `results`. Without results
/// the mode does not matter.
pub open spec fn answers_search(
    query: Seq<char>,
    mode: Seq<char>,
    results: Seq<SearchResult>,
    answer: Result<Output<Seq<char>>, ErrorView>,
) -> bool {
    if results.len() == 0 {
        answer == Ok::<_, ErrorView>(Output::Text("No results found."@))
    } else if mode == "outline"@ {
        answer == Ok::<_, ErrorView>(Output::Text(crate::render::results::outline_text(results)))
    } else if mode == "compact"@ {
        answer == Ok::<_, ErrorView>(Output::Text(crate::render::results::compact_text(results)))
    } else if mode == "group"@ {
        answer matches Ok(Output::Text(text)) && crate::render::groups::is_grouped_text(
            results,
            text,
        )
    } else if mode == "full"@ {
        answer == Ok::<_, ErrorView>(Output::Listing(search_heading(query)))
    } else {
        answer == Err::<Output<Seq<char>>, ErrorView>(ToolError::UnknownSearchMode(mode))
    }
}

/// Answers a search.
pub fn search_answer(query: &str, mode: &str, results: &[SearchResult]) -> (r: Result<
    Output,
    ToolError,
>)
    ensures
        answers_search(query@, mode@, results@, answered(r)),
{
    if results.len() == 0 {
        Ok(Output::Text("No results found.".to_owned()))
    } else if same(mode, "outline") {
        Ok(Output::Text(outline(results)))
    } else if same(mode, "compact") {
        Ok(Output::Text(compact(results)))
    } else if same(mode, "group") {
        Ok(Output::Text(grouped(results)))
    } else if same(mode, "full") {
        Ok(Output::Listing(heading_for_search(query)))
    } else {
        Err(ToolError::UnknownSearchMode(mode.to_owned()))
    }
}

/// The answer to a dependency report. Both modes need an indexed file.
pub open spec fn deps_told(
    graph: DependencyGraph,
    file: Seq<char>,
    mode: Seq<char>,
    max_depth: Option<usize>,
) -> Result<Seq<char>, ErrorView> {
    if mode == "tree"@ || mode == "summary"@ {
        match graph.node_of(file) {
            None => Err(ToolError::UnknownFile(file)),
            Some(node) => Ok(
                if mode == "tree"@ {
                    crate::render::tree::tree_text(graph, file, max_depth, false)
                } else {
                    crate::render::summary::report(file, node, graph.dependents_of(file))
                },
            ),
        }
    } else {
        Err(ToolError::UnknownGraphMode(mode))
    }
}

/// Answers a dependency report.
pub fn deps_answer(
    graph: &DependencyGraph,
    file: &str,
    mode: &str,
    max_depth: Option<usize>,
) -> (r: Result<String, ToolError>)
    ensures
        told(r) == deps_told(*graph, file@, mode@, max_depth),
{
    if same(mode, "tree") {
        if graph.deps(file).is_none() {
            return Err(ToolError::UnknownFile(file.to_owned()));
        }
        Ok(dep_tree(graph, file, max_depth, false))
    } else if same(mode, "summary") {
        match deps_summary(graph, file) {
            Some(summary) => Ok(summary),
            None => Err(ToolError::UnknownFile(file.to_owned())),
        }
    } else {
        Err(ToolError::UnknownGraphMode(mode.to_owned()))
    }
}

/// Whether the graph knows nothing of `file`: it is not indexed, and no file
/// imports it.
pub open spec fn is_stray(graph: DependencyGraph, file: Seq<char>) -> bool {
    graph.node_of(file) is None && graph.dependents_of(file).len() == 0
}

/// The answer to an impact report. The tree needs a file that the graph knows;
/// the summary does not.
pub open spec fn impact_told(
    graph: DependencyGraph,
    file: Seq<char>,
    mode: Seq<char>,
    max_depth: Option<usize>,
) -> Result<Seq<char>, ErrorView> {
    if mode == "tree"@ {
        if is_stray(graph, file) {
            Err(ToolError::UnknownFile(file))
        } else {
            Ok(crate::render::tree::tree_text(graph, file, max_depth, true))
        }
    } else if mode == "summary"@ {
        Ok(crate::render::summary::impact_text(file, graph.impact_of(file)))
    } else {
        Err(ToolError::UnknownGraphMode(mode))
    }
}

/// Answers an impact report.
pub fn impact_answer(
    graph: &DependencyGraph,
    file: &str,
    mode: &str,
    max_depth: Option<usize>,
) -> (r: Result<String, ToolError>)
    ensures
        told(r) == impact_told(*graph, file@, mode@, max_depth),
{
    if same(mode, "tree") {
        if graph.deps(file).is_none() && graph.dependents(file).len() == 0 {
            return Err(ToolError::UnknownFile(file.to_owned()));
        }
        Ok(dep_tree(graph, file, max_depth, true))
    } else if same(mode, "summary") {
        Ok(impact_summary(graph, file))
    } else {
        Err(ToolError::UnknownGraphMode(mode.to_owned()))
    }
}

// ---------------------------------------------------------------------------
// Pattern search
// ---------------------------------------------------------------------------
/// The arguments for the pattern search program.
pub open spec fn command_line(
    pattern: Seq<char>,
    path: Seq<char>,
    lang: Option<Seq<char>>,
    compact: bool,
) -> Seq<Seq<char>> {
    seq!["--pattern"@, pattern, path] + (match lang {
        Some(l) => seq!["--lang"@, l],
        None => Seq::empty(),
    }) + (if compact {
        seq!["--json=stream"@]
    } else {
        Seq::empty()
    })
}

/// Puts together the arguments for the pattern search program.
pub fn pattern_command(pattern: &str, path: &str, lang: Option<&str>, compact: bool) -> (r: Vec<
    String,
>)
    ensures
        r.deep_view() == command_line(pattern@, path@, lang.deep_view(), compact),
{
    let mut r: Vec<String> = Vec::new();
    r.push("--pattern".to_owned());
    r.push(pattern.to_owned());
    r.push(path.to_owned());
    if let Some(l) = lang {
        r.push("--lang".to_owned());
        r.push(l.to_owned());
    }
    if compact {
        r.push("--json=stream".to_owned());
    }
    assert(r.deep_view() =~= command_line(pattern@, path@, lang.deep_view(), compact));
    r
}

/// How the pattern search program ended: it could not be started, or it ran and
/// left its output.
#[derive(Debug, PartialEq)]
pub enum PatternRun<S = String> {
    NotStarted,
    Ended { success: bool, stdout: S, stderr: S },
}

impl View for PatternRun<String> {
    type V = PatternRun<Seq<char>>;

    open spec fn view(&self) -> PatternRun<Seq<char>> {
        match *self {
            PatternRun::NotStarted => PatternRun::NotStarted,
            PatternRun::Ended { success, stdout, stderr } => PatternRun::Ended {
                success,
                stdout: stdout@,
                stderr: stderr@,
            },
        }
    }
}

/// The answer to a pattern search. The program ends without success where
/// nothing matches; only with a complaint and no output that is an error.
pub open spec fn pattern_told(run: PatternRun<Seq<char>>) -> Result<Seq<char>, ErrorView> {
    match run {
        PatternRun::NotStarted => Err(ToolError::NotInstalled),
        PatternRun::Ended { success, stdout, stderr } => {
            let silent = crate::text::trimmed(stdout).len() == 0;
            let complaint = crate::text::trimmed(stderr);
            if silent && !success && complaint.len() > 0 {
                Err(ToolError::PatternFailed(complaint))
            } else if silent {
                Ok("No matches found."@)
            } else {
                Ok(stdout)
            }
        },
    }
}

/// Answers a pattern search.
pub fn pattern_answer(run: PatternRun) -> (r: Result<String, ToolError>)
    ensures
        told(r) == pattern_told(run@),
{
    match run {
        PatternRun::NotStarted => Err(ToolError::NotInstalled),
        PatternRun::Ended { success, stdout, stderr } => {
            if !success && is_blank(&stdout) && !is_blank(&stderr) {
                return Err(ToolError::PatternFailed(trim(&stderr).to_owned()));
            }
            if is_blank(&stdout) {
                Ok("No matches found.".to_owned())
            } else {
                Ok(stdout)
            }
        },
    }
}

// ---------------------------------------------------------------------------
// Related code
// ---------------------------------------------------------------------------
/// `file:line`.
pub open spec fn at_line(file: Seq<char>, line: nat) -> Seq<char> {
    file + ":"@ + crate::text::decimal(line)
}

/// The answer to a search for code that is related to a line. `found` is the
/// number of related chunks, where a chunk covers the line.
pub open spec fn related_told(file: Seq<char>, line: usize, found: Option<usize>) -> Result<
    Output<Seq<char>>,
    ErrorView,
> {
    match found {
        None => Err(ToolError::NoChunk { file, line }),
        Some(n) => if n == 0 {
            Ok(
                Output::Text(
                    "No related chunks found for "@ + at_line(file, line as nat) + "."@,
                ),
            )
        } else {
            Ok(Output::Listing("Chunks related to "@ + at_line(file, line as nat)))
        },
    }
}

/// Answers a search for related code.
pub fn related_answer(file: &str, line: usize, found: Option<usize>) -> (r: Result<
    Output,
    ToolError,
>)
    ensures
        answered(r) == related_told(file@, line, found),
{
    let mut place = file.to_owned();
    place.append(":");
    place.append(&number(line));
    match found {
        None => Err(ToolError::NoChunk { file: file.to_owned(), line }),
        Some(n) => {
            if n == 0 {
                let mut text = "No related chunks found for ".to_owned();
                text.append(&place);
                text.append(".");
                Ok(Output::Text(text))
            } else {
                let mut heading = "Chunks related to ".to_owned();
                heading.append(&place);
                Ok(Output::Listing(heading))
            }
        },
    }
}

// ---------------------------------------------------------------------------
// What the answers tell
// ---------------------------------------------------------------------------
proof fn modes_differ()
    ensures
        "outline"@.len() == 7,
        "compact"@.len() == 7,
        "outline"@[0] == 'o',
        "compact"@[0] == 'c',
        "group"@.len() == 5,
        "full"@.len() == 4,
        "full"@[0] == 'f',
        "tree"@.len() == 4,
        "tree"@[0] == 't',
        "summary"@.len() == 7,
        "summary"@[0] == 's',
{
    reveal_strlit("outline");
    reveal_strlit("compact");
    reveal_strlit("group");
    reveal_strlit("full");
    reveal_strlit("tree");
    reveal_strlit("summary");
}

/// A search with results is answered in the format that its mode names, and an
/// unknown mode is refused by its name. Without results there is only that to
/// say, in any mode.
pub proof fn a_search_is_answered_in_its_mode(
    query: Seq<char>,
    mode: Seq<char>,
    results: Seq<SearchResult>,
    answer: Result<Output<Seq<char>>, ErrorView>,
)
    requires
        answers_search(query, mode, results, answer),
    ensures
        results.len() == 0 ==> answer == Ok::<_, ErrorView>(Output::Text("No results found."@)),
        results.len() > 0 ==> {
            &&& mode == "outline"@ ==> answer == Ok::<_, ErrorView>(
                Output::Text(crate::render::results::outline_text(results)),
            )
            &&& mode == "compact"@ ==> answer == Ok::<_, ErrorView>(
                Output::Text(crate::render::results::compact_text(results)),
            )
            &&& mode == "group"@ ==> (answer matches Ok(Output::Text(text))
                && crate::render::groups::is_grouped_text(results, text))
            &&& mode == "full"@ ==> answer == Ok::<_, ErrorView>(
                Output::Listing("Search results for: "@ + crate::text::quoted(query)),
            )
            &&& mode != "outline"@ && mode != "compact"@ && mode != "group"@ && mode != "full"@
                ==> answer == Err::<Output<Seq<char>>, ErrorView>(ToolError::UnknownSearchMode(mode))
        },
{
    modes_differ();
}

/// A dependency report tells of an indexed file its tree of imports, or what it
/// defines, imports and is imported by. Another file is not found, and an
/// unknown mode is refused by its name.
pub proof fn a_dependency_report_tells_of_its_file(
    graph: DependencyGraph,
    i: int,
    file: Seq<char>,
    mode: Seq<char>,
    max_depth: Option<usize>,
)
    ensures
        ({
            let told = deps_told(graph, file, mode, max_depth);
            let known = crate::graph::is_first(graph, i) && graph.entries@[i].path@ == file;
            let unlisted = forall|j: int|
                0 <= j < graph.entries@.len() ==> (#[trigger] graph.entries@[j]).path@ != file;
            &&& mode == "tree"@ && known && graph.entries@[i].node is Some ==> told == Ok::<
                _,
                ErrorView,
            >(crate::render::tree::tree_text(graph, file, max_depth, false))
            &&& mode == "summary"@ && known && graph.entries@[i].node is Some ==> told == Ok::<
                _,
                ErrorView,
            >(
                crate::render::summary::report(
                    file,
                    graph.entries@[i].node->Some_0,
                    graph.entries@[i].dependents.deep_view(),
                ),
            )
            &&& (mode == "tree"@ || mode == "summary"@) && (unlisted || known
                && graph.entries@[i].node is None) ==> told == Err::<Seq<char>, ErrorView>(
                ToolError::UnknownFile(file),
            )
            &&& mode != "tree"@ && mode != "summary"@ ==> told == Err::<Seq<char>, ErrorView>(
                ToolError::UnknownGraphMode(mode),
            )
        }),
{
    modes_differ();
    if crate::graph::is_first(graph, i) && graph.entries@[i].path@ == file {
        crate::graph::the_first_entry_counts(graph, i);
        assert(graph.dependents_of(file) =~= graph.entries@[i].dependents.deep_view());
    }
    if forall|j: int| 0 <= j < graph.entries@.len() ==> (#[trigger] graph.entries@[j]).path@
        != file {
        crate::graph::an_unlisted_path_is_unknown(graph, file);
    }
}

/// An impact report tells of a file the tree of those that depend on it, or all
/// that a change reaches. Only for the tree the file must be indexed or have
/// dependents. An unknown mode is refused by its name.
pub proof fn an_impact_report_tells_of_its_file(
    graph: DependencyGraph,
    i: int,
    file: Seq<char>,
    mode: Seq<char>,
    max_depth: Option<usize>,
)
    ensures
        ({
            let told = impact_told(graph, file, mode, max_depth);
            let known = crate::graph::is_first(graph, i) && graph.entries@[i].path@ == file;
            let has_trace = graph.entries@[i].node is Some || graph.entries@[i].dependents@.len()
                > 0;
            let unlisted = forall|j: int|
                0 <= j < graph.entries@.len() ==> (#[trigger] graph.entries@[j]).path@ != file;
            &&& mode == "tree"@ && known && has_trace ==> told == Ok::<_, ErrorView>(
                crate::render::tree::tree_text(graph, file, max_depth, true),
            )
            &&& mode == "tree"@ && (unlisted || known && !has_trace) ==> told == Err::<
                Seq<char>,
                ErrorView,
            >(ToolError::UnknownFile(file))
            &&& mode == "summary"@ && known ==> told == Ok::<_, ErrorView>(
                crate::render::summary::impact_text(file, graph.entries@[i].impact.deep_view()),
            )
            &&& mode == "summary"@ && unlisted ==> told == Ok::<_, ErrorView>(
                crate::render::summary::impact_text(file, Seq::empty()),
            )
            &&& mode != "tree"@ && mode != "summary"@ ==> told == Err::<Seq<char>, ErrorView>(
                ToolError::UnknownGraphMode(mode),
            )
        }),
{
    modes_differ();
    if crate::graph::is_first(graph, i) && graph.entries@[i].path@ == file {
        crate::graph::the_first_entry_counts(graph, i);
        assert(graph.impact_of(file) =~= graph.entries@[i].impact.deep_view());
    }
    if forall|j: int| 0 <= j < graph.entries@.len() ==> (#[trigger] graph.entries@[j]).path@
        != file {
        crate::graph::an_unlisted_path_is_unknown(graph, file);
        assert(graph.impact_of(file) =~= Seq::empty());
    }
}

/// The arguments for the pattern search program are the pattern and the path,
/// whatever else is asked for. A language is passed on whatever the output is:
/// it adds its flag and itself behind the path, and nothing else. Compact output
/// adds its flag at the end, and nothing else.
pub proof fn language_and_output_are_asked_for_independently(
    pattern: Seq<char>,
    path: Seq<char>,
    lang: Option<Seq<char>>,
    l: Seq<char>,
    compact: bool,
)
    ensures
        command_line(pattern, path, None, false) == seq!["--pattern"@, pattern, path],
        command_line(pattern, path, lang, true) == command_line(pattern, path, lang, false).push(
            "--json=stream"@,
        ),
        ({
            let without = command_line(pattern, path, None, compact);
            let with = command_line(pattern, path, Some(l), compact);
            &&& with.len() == without.len() + 2
            &&& with.take(3) == without.take(3)
            &&& with[3] == "--lang"@
            &&& with[4] == l
            &&& with.skip(5) == without.skip(3)
        }),
{
    let start = seq!["--pattern"@, pattern, path];
    assert(command_line(pattern, path, None, false) =~= start);
    assert(command_line(pattern, path, lang, true) =~= command_line(
        pattern,
        path,
        lang,
        false,
    ).push("--json=stream"@));
    let without = command_line(pattern, path, None, compact);
    let with = command_line(pattern, path, Some(l), compact);
    assert(with.take(3) =~= without.take(3));
    assert(with.skip(5) =~= without.skip(3));
}

/// Output of the pattern search program is handed on as it stands, however the
/// program ended. Without output there are no matches, unless the program failed
/// and says why. A program that could not be started is not installed.
pub proof fn a_pattern_search_tells_what_came_out(
    success: bool,
    stdout: Seq<char>,
    stderr: Seq<char>,
)
    ensures
        ({
            let told = pattern_told(PatternRun::Ended { success, stdout, stderr });
            let silent = crate::text::trimmed(stdout).len() == 0;
            let complaint = crate::text::trimmed(stderr);
            &&& !silent ==> told == Ok::<_, ErrorView>(stdout)
            &&& silent && (success || complaint.len() == 0) ==> told == Ok::<_, ErrorView>(
                "No matches found."@,
            )
            &&& silent && !success && complaint.len() > 0 ==> told == Err::<Seq<char>, ErrorView>(
                ToolError::PatternFailed(complaint),
            )
        }),
        pattern_told(PatternRun::NotStarted) == Err::<Seq<char>, ErrorView>(ToolError::NotInstalled),
{
}

/// Where no chunk covers the line, that is the error. Where one does, related
/// chunks are listed under a heading with file and line, or there are none.
pub proof fn related_code_is_told_of_its_line(file: Seq<char>, line: usize, n: usize)
    ensures
        related_told(file, line, None) == Err::<Output<Seq<char>>, ErrorView>(
            ToolError::NoChunk { file, line },
        ),
        n > 0 ==> related_told(file, line, Some(n)) == Ok::<_, ErrorView>(
            Output::Listing(
                "Chunks related to "@ + (file + ":"@ + crate::text::decimal(line as nat)),
            ),
        ),
        related_told(file, line, Some(0)) == Ok::<_, ErrorView>(
            Output::Text(
                "No related chunks found for "@ + (file + ":"@ + crate::text::decimal(
                    line as nat,
                )) + "."@,
            ),
        ),
{
}

/// An answer, and how the pattern search program ended, keep their texts.
pub proof fn answers_keep_their_texts(
    output: Output,
    run: PatternRun,
    answer: Result<Output, ToolError>,
    text: Result<String, ToolError>,
)
    ensures
        match output {
            Output::Text(s) => output@ == Output::Text(s@),
            Output::Listing(s) => output@ == Output::Listing(s@),
        },
        match run {
            PatternRun::NotStarted => run@ is NotStarted,
            PatternRun::Ended { success, stdout, stderr } => run@ == (PatternRun::Ended {
                success,
                stdout: stdout@,
                stderr: stderr@,
            }),
        },
        match answer {
            Ok(output) => answered(answer) == Ok::<_, ErrorView>(output@),
            Err(e) => answered(answer) == Err::<Output<Seq<char>>, ErrorView>(e@),
        },
        match text {
            Ok(s) => told(text) == Ok::<_, ErrorView>(s@),
            Err(e) => told(text) == Err::<Seq<char>, ErrorView>(e@),
        },
{
}

} // verus!
