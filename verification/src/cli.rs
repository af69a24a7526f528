//! What the commands of the program print.

use vstd::prelude::*;
use vstd::string::*;

use crate::graph::DependencyGraph;
use crate::mcp::answers::{deps_answer, heading_for_search, impact_answer, related_answer, Output};
use crate::mcp::errors::{ErrorView, ToolError};
use crate::render::{compact, grouped, outline};
use crate::text::nonblank_lines;
use crate::types::SearchResult;

verus! {

/// What a command prints about results: a text as it stands, the full listing
/// of the results under a heading, or the results in JSON, with comments or
/// without.
#[derive(Debug, PartialEq)]
pub enum Report<S = String> {
    Text(S),
    Listing(S),
    Json,
    StrippedJson,
}

impl View for Report<String> {
    type V = Report<Seq<char>>;

    open spec fn view(&self) -> Report<Seq<char>> {
        match *self {
            Report::Text(s) => Report::Text(s@),
            Report::Listing(heading) => Report::Listing(heading@),
            Report::Json => Report::Json,
            Report::StrippedJson => Report::StrippedJson,
        }
    }
}

/// A report or an error, by its views.
pub open spec fn reported(r: Result<Report, ToolError>) -> Result<Report<Seq<char>>, ErrorView> {
    match r {
        Ok(report) => Ok(report@),
        Err(e) => Err(e@),
    }
}

// ---------------------------------------------------------------------------
// Search
// ---------------------------------------------------------------------------
/// The output formats that a search is asked for.
#[derive(Debug, Clone, Copy)]
pub struct SearchFlags {
    pub outline: bool,
    pub group: bool,
    pub compact: bool,
    pub json: bool,
    pub strip: bool,
}

/// Whether `report` is right for a search that found `results`. Of several
/// formats the first one counts: outline, group, compact, JSON. Comments are
/// stripped in JSON alone.
pub open spec fn reports_search(
    flags: SearchFlags,
    query: Seq<char>,
    results: Seq<SearchResult>,
    report: Report<Seq<char>>,
) -> bool {
    if flags.outline {
        report == Report::Text(crate::render::results::outline_text(results))
    } else if flags.group {
        report matches Report::Text(text) && crate::render::groups::is_grouped_text(results, text)
    } else if flags.compact {
        report == Report::Text(crate::render::results::compact_text(results))
    } else if flags.json {
        report == (if flags.strip {
            Report::StrippedJson
        } else {
            Report::<Seq<char>>::Json
        })
    } else if results.len() == 0 {
        report == Report::Text("No results found.\n"@)
    } else {
        report == Report::Listing(crate::mcp::answers::search_heading(query))
    }
}

/// Reports what a search found.
pub fn search_report(flags: SearchFlags, query: &str, results: &[SearchResult]) -> (r: Report)
    ensures
        reports_search(flags, query@, results@, r@),
{
    if flags.outline {
        Report::Text(outline(results))
    } else if flags.group {
        Report::Text(grouped(results))
    } else if flags.compact {
        Report::Text(compact(results))
    } else if flags.json && flags.strip {
        Report::StrippedJson
    } else if flags.json {
        Report::Json
    } else if results.len() == 0 {
        Report::Text("No results found.\n".to_owned())
    } else {
        Report::Listing(heading_for_search(query))
    }
}

/// The report on code that is related to a line.
pub open spec fn related_reported(
    json: bool,
    file: Seq<char>,
    line: usize,
    found: Option<usize>,
) -> Result<Report<Seq<char>>, ErrorView> {
    match crate::mcp::answers::related_told(file, line, found) {
        Err(e) => Err(e),
        Ok(output) => Ok(
            if json {
                Report::Json
            } else {
                match output {
                    Output::Text(text) => Report::Text(text + "\n"@),
                    Output::Listing(heading) => Report::Listing(heading),
                }
            },
        ),
    }
}

/// Reports what code is related to a line. `found` is the number of related
/// chunks, where a chunk covers the line.
pub fn related_report(json: bool, file: &str, line: usize, found: Option<usize>) -> (r: Result<
    Report,
    ToolError,
>)
    ensures
        reported(r) == related_reported(json, file@, line, found),
{
    match related_answer(file, line, found) {
        Err(e) => Err(e),
        Ok(output) => Ok(
            if json {
                Report::Json
            } else {
                match output {
                    Output::Text(text) => {
                        let mut shown = text;
                        shown.append("\n");
                        Report::Text(shown)
                    },
                    Output::Listing(heading) => Report::Listing(heading),
                }
            },
        ),
    }
}

// ---------------------------------------------------------------------------
// Dependency graph
// ---------------------------------------------------------------------------
/// What a command prints about the dependency graph: a text as it stands, or
/// what it found in one of the machine-readable formats.
#[derive(Debug, PartialEq)]
pub enum GraphReport<S = String> {
    Text(S),
    Json,
    Dot,
}

impl View for GraphReport<String> {
    type V = GraphReport<Seq<char>>;

    open spec fn view(&self) -> GraphReport<Seq<char>> {
        match *self {
            GraphReport::Text(s) => GraphReport::Text(s@),
            GraphReport::Json => GraphReport::Json,
            GraphReport::Dot => GraphReport::Dot,
        }
    }
}

/// A report on the dependency graph or an error, by its views.
pub open spec fn graph_reported(r: Result<GraphReport, ToolError>) -> Result<
    GraphReport<Seq<char>>,
    ErrorView,
> {
    match r {
        Ok(report) => Ok(report@),
        Err(e) => Err(e@),
    }
}

/// The output formats that a report on the dependency graph is asked for.
#[derive(Debug, Clone, Copy)]
pub struct GraphFlags {
    pub dot: bool,
    pub tree: bool,
    pub json: bool,
    pub max_depth: Option<usize>,
}

/// The mode that the server has for a format.
pub open spec fn mode_of(flags: GraphFlags) -> Seq<char> {
    if flags.tree {
        "tree"@
    } else {
        "summary"@
    }
}

/// The text or the error that the server answers with.
pub open spec fn as_report(r: Result<Seq<char>, ErrorView>) -> Result<
    GraphReport<Seq<char>>,
    ErrorView,
> {
    match r {
        Ok(text) => Ok(GraphReport::Text(text)),
        Err(e) => Err(e),
    }
}

/// The report on the dependencies of a file. Of several formats the first one
/// counts: DOT, tree, JSON. In JSON a file that is not indexed is an empty
/// object.
pub open spec fn deps_reported(flags: GraphFlags, graph: DependencyGraph, file: Seq<char>) -> Result<
    GraphReport<Seq<char>>,
    ErrorView,
> {
    if flags.dot {
        Ok(GraphReport::Dot)
    } else if flags.json && !flags.tree {
        Ok(
            if graph.node_of(file) is Some {
                GraphReport::Json
            } else {
                GraphReport::Text("{}\n"@)
            },
        )
    } else {
        as_report(crate::mcp::answers::deps_told(graph, file, mode_of(flags), flags.max_depth))
    }
}

/// Reports the dependencies of a file.
pub fn deps_report(flags: GraphFlags, graph: &DependencyGraph, file: &str) -> (r: Result<
    GraphReport,
    ToolError,
>)
    ensures
        graph_reported(r) == deps_reported(flags, *graph, file@),
{
    if flags.dot {
        return Ok(GraphReport::Dot);
    }
    if flags.json && !flags.tree {
        return Ok(
            if graph.deps(file).is_some() {
                GraphReport::Json
            } else {
                GraphReport::Text("{}\n".to_owned())
            },
        );
    }
    let mode = if flags.tree {
        "tree"
    } else {
        "summary"
    };
    match deps_answer(graph, file, mode, flags.max_depth) {
        Ok(text) => Ok(GraphReport::Text(text)),
        Err(e) => Err(e),
    }
}

/// The report on the files that a change to a file reaches. Of several formats
/// the first one counts: DOT, tree, JSON.
pub open spec fn impact_reported(
    flags: GraphFlags,
    graph: DependencyGraph,
    file: Seq<char>,
) -> Result<GraphReport<Seq<char>>, ErrorView> {
    if flags.dot {
        Ok(GraphReport::Dot)
    } else if flags.json && !flags.tree {
        Ok(GraphReport::Json)
    } else {
        as_report(crate::mcp::answers::impact_told(graph, file, mode_of(flags), flags.max_depth))
    }
}

/// Reports the files that a change to a file reaches.
pub fn impact_report(flags: GraphFlags, graph: &DependencyGraph, file: &str) -> (r: Result<
    GraphReport,
    ToolError,
>)
    ensures
        graph_reported(r) == impact_reported(flags, *graph, file@),
{
    if flags.dot {
        return Ok(GraphReport::Dot);
    }
    if flags.json && !flags.tree {
        return Ok(GraphReport::Json);
    }
    let mode = if flags.tree {
        "tree"
    } else {
        "summary"
    };
    match impact_answer(graph, file, mode, flags.max_depth) {
        Ok(text) => Ok(GraphReport::Text(text)),
        Err(e) => Err(e),
    }
}

// ---------------------------------------------------------------------------
// Encoding
// ---------------------------------------------------------------------------
/// The sentences to encode: the lines of the input that hold more than white
/// space, if there are any.
pub fn sentences(input: &str) -> (r: Option<Vec<String>>)
    ensures
        r.deep_view() == ({
            let lines = crate::text::nonblank(crate::text::lines_of(input@));
            if lines.len() == 0 {
                None
            } else {
                Some(lines)
            }
        }),
{
    let lines = nonblank_lines(input);
    if lines.len() == 0 {
        None
    } else {
        Some(lines)
    }
}

/// The program and the server tell the same of a file: what a report prints as
/// text is what the tool of that name answers in the same mode.
pub proof fn reports_agree_with_tools(flags: GraphFlags, graph: DependencyGraph, file: Seq<char>)
    requires
        !flags.dot,
        flags.tree || !flags.json,
    ensures
        deps_reported(flags, graph, file) == as_report(
            crate::mcp::answers::deps_told(graph, file, mode_of(flags), flags.max_depth),
        ),
        impact_reported(flags, graph, file) == as_report(
            crate::mcp::answers::impact_told(graph, file, mode_of(flags), flags.max_depth),
        ),
{
}

// ---------------------------------------------------------------------------
// What the reports tell
// ---------------------------------------------------------------------------
/// A search is reported in the format that it is asked for: outline before
/// group, group before compact, compact before JSON. Only JSON heeds whether
/// comments are to be stripped, and only without a format it matters whether
/// there are results.
pub proof fn a_search_is_reported_in_its_format(
    flags: SearchFlags,
    query: Seq<char>,
    results: Seq<SearchResult>,
    report: Report<Seq<char>>,
)
    requires
        reports_search(flags, query, results, report),
    ensures
        flags.outline ==> report == Report::Text(
            crate::render::results::outline_text(results),
        ),
        !flags.outline && flags.group ==> (report matches Report::Text(text)
            && crate::render::groups::is_grouped_text(results, text)),
        !flags.outline && !flags.group && flags.compact ==> report == Report::Text(
            crate::render::results::compact_text(results),
        ),
        !flags.outline && !flags.group && !flags.compact && flags.json && flags.strip ==> report
            is StrippedJson,
        !flags.outline && !flags.group && !flags.compact && flags.json && !flags.strip ==> report
            is Json,
        !flags.outline && !flags.group && !flags.compact && !flags.json && results.len() == 0
            ==> report == Report::Text("No results found.\n"@),
        !flags.outline && !flags.group && !flags.compact && !flags.json && results.len() > 0
            ==> report == Report::Listing("Search results for: "@ + crate::text::quoted(query)),
{
}

/// Related code is reported as the tool answers, the text with the end of its
/// line; in JSON only a line without a chunk makes a difference.
pub proof fn related_code_is_reported(json: bool, file: Seq<char>, line: usize, n: usize)
    ensures
        ({
            let place = file + ":"@ + crate::text::decimal(line as nat);
            &&& related_reported(json, file, line, None) == Err::<Report<Seq<char>>, ErrorView>(
                ToolError::NoChunk { file, line },
            )
            &&& related_reported(true, file, line, Some(n)) == Ok::<_, ErrorView>(
                Report::<Seq<char>>::Json,
            )
            &&& n > 0 ==> related_reported(false, file, line, Some(n)) == Ok::<_, ErrorView>(
                Report::Listing("Chunks related to "@ + place),
            )
            &&& related_reported(false, file, line, Some(0)) == Ok::<_, ErrorView>(
                Report::Text("No related chunks found for "@ + place + "."@ + "\n"@),
            )
        }),
{
    crate::mcp::answers::related_code_is_told_of_its_line(file, line, n);
}

/// A report on the dependency graph is in the format that it is asked for: DOT
/// before tree, tree before JSON. Without a format it is a summary. In JSON a
/// file that is not indexed is an empty object.
pub proof fn a_graph_is_reported_in_its_format(
    flags: GraphFlags,
    graph: DependencyGraph,
    file: Seq<char>,
)
    ensures
        flags.dot ==> deps_reported(flags, graph, file) == Ok::<_, ErrorView>(
            GraphReport::<Seq<char>>::Dot,
        ) && impact_reported(flags, graph, file) == Ok::<_, ErrorView>(
            GraphReport::<Seq<char>>::Dot,
        ),
        !flags.dot && flags.tree ==> ({
            let deps = crate::mcp::answers::deps_told(graph, file, "tree"@, flags.max_depth);
            let impact = crate::mcp::answers::impact_told(graph, file, "tree"@, flags.max_depth);
            &&& deps matches Ok(text) ==> deps_reported(flags, graph, file) == Ok::<_, ErrorView>(
                GraphReport::Text(text),
            )
            &&& deps matches Err(e) ==> deps_reported(flags, graph, file) == Err::<
                GraphReport<Seq<char>>,
                _,
            >(e)
            &&& impact matches Ok(text) ==> impact_reported(flags, graph, file) == Ok::<
                _,
                ErrorView,
            >(GraphReport::Text(text))
            &&& impact matches Err(e) ==> impact_reported(flags, graph, file) == Err::<
                GraphReport<Seq<char>>,
                _,
            >(e)
        }),
        !flags.dot && !flags.tree && flags.json ==> ({
            &&& graph.node_of(file) is Some ==> deps_reported(flags, graph, file) == Ok::<
                _,
                ErrorView,
            >(GraphReport::<Seq<char>>::Json)
            &&& graph.node_of(file) is None ==> deps_reported(flags, graph, file) == Ok::<
                _,
                ErrorView,
            >(GraphReport::Text("{}\n"@))
            &&& impact_reported(flags, graph, file) == Ok::<_, ErrorView>(
                GraphReport::<Seq<char>>::Json,
            )
        }),
        !flags.dot && !flags.tree && !flags.json ==> ({
            let deps = crate::mcp::answers::deps_told(graph, file, "summary"@, flags.max_depth);
            let impact = crate::mcp::answers::impact_told(
                graph,
                file,
                "summary"@,
                flags.max_depth,
            );
            &&& deps matches Ok(text) ==> deps_reported(flags, graph, file) == Ok::<_, ErrorView>(
                GraphReport::Text(text),
            )
            &&& deps matches Err(e) ==> deps_reported(flags, graph, file) == Err::<
                GraphReport<Seq<char>>,
                _,
            >(e)
            &&& impact matches Ok(text) ==> impact_reported(flags, graph, file) == Ok::<
                _,
                ErrorView,
            >(GraphReport::Text(text))
            &&& impact matches Err(e) ==> impact_reported(flags, graph, file) == Err::<
                GraphReport<Seq<char>>,
                _,
            >(e)
        }),
{
}

/// Reports keep their texts.
pub proof fn reports_keep_their_texts(
    report: Report,
    graph_report: GraphReport,
    r: Result<Report, ToolError>,
    g: Result<GraphReport, ToolError>,
)
    ensures
        match report {
            Report::Text(s) => report@ == Report::Text(s@),
            Report::Listing(s) => report@ == Report::Listing(s@),
            Report::Json => report@ is Json,
            Report::StrippedJson => report@ is StrippedJson,
        },
        match graph_report {
            GraphReport::Text(s) => graph_report@ == GraphReport::Text(s@),
            GraphReport::Json => graph_report@ is Json,
            GraphReport::Dot => graph_report@ is Dot,
        },
        match r {
            Ok(x) => reported(r) == Ok::<_, ErrorView>(x@),
            Err(e) => reported(r) == Err::<Report<Seq<char>>, _>(e@),
        },
        match g {
            Ok(x) => graph_reported(g) == Ok::<_, ErrorView>(x@),
            Err(e) => graph_reported(g) == Err::<GraphReport<Seq<char>>, _>(e@),
        },
{
}

} // verus!
