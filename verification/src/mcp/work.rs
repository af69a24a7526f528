//! What each tool has to do: from its arguments to the work.

use vstd::prelude::*;
use vstd::string::*;

use crate::json::{Doc, Json};
use crate::mcp::args::{opt_bool, opt_str, opt_string_vec, opt_usize, req_str, req_usize};
use crate::mcp::errors::{ErrorView, ToolError};
use crate::text::same;

verus! {

/// The work that a tool call asks for. Every kind but the pattern search starts
/// with indexing `path` afresh.
#[derive(Debug, PartialEq)]
pub enum Work<S = String, L = Vec<String>> {
    Search { query: S, path: S, top_k: usize, mode: S, include_text_files: bool },
    Tree {
        path: S,
        symbols: bool,
        dirs_only: bool,
        max_depth: Option<usize>,
        include_text_files: bool,
        langs: Option<L>,
    },
    Deps { file: S, path: S, mode: S, max_depth: Option<usize> },
    Impact { file: S, path: S, mode: S, max_depth: Option<usize> },
    FindPattern { pattern: S, path: S, lang: Option<S>, compact: bool },
    FindRelated { file: S, line: usize, path: S, top_k: usize, include_text_files: bool },
    Plan { task: S, path: S, top_k: usize, include_text_files: bool },
}

/// A work by its views.
pub type WorkView = Work<Seq<char>, Seq<Seq<char>>>;

impl View for Work<String, Vec<String>> {
    type V = WorkView;

    open spec fn view(&self) -> WorkView {
        match *self {
            Work::Search { query, path, top_k, mode, include_text_files } => Work::Search {
                query: query@,
                path: path@,
                top_k,
                mode: mode@,
                include_text_files,
            },
            Work::Tree { path, symbols, dirs_only, max_depth, include_text_files, langs } => {
                Work::Tree {
                    path: path@,
                    symbols,
                    dirs_only,
                    max_depth,
                    include_text_files,
                    langs: langs.deep_view(),
                }
            },
            Work::Deps { file, path, mode, max_depth } => Work::Deps {
                file: file@,
                path: path@,
                mode: mode@,
                max_depth,
            },
            Work::Impact { file, path, mode, max_depth } => Work::Impact {
                file: file@,
                path: path@,
                mode: mode@,
                max_depth,
            },
            Work::FindPattern { pattern, path, lang, compact } => Work::FindPattern {
                pattern: pattern@,
                path: path@,
                lang: lang.deep_view(),
                compact,
            },
            Work::FindRelated { file, line, path, top_k, include_text_files } => {
                Work::FindRelated { file: file@, line, path: path@, top_k, include_text_files }
            },
            Work::Plan { task, path, top_k, include_text_files } => Work::Plan {
                task: task@,
                path: path@,
                top_k,
                include_text_files,
            },
        }
    }
}

/// The work, or the error, that a tool call leads to, by its views.
pub type StartedView = Result<WorkView, ErrorView>;

pub open spec fn started(r: Result<Work, ToolError>) -> StartedView {
    match r {
        Ok(work) => Ok(work@),
        Err(e) => Err(e@),
    }
}

/// What an absent argument stands for.
pub open spec fn or_default<T>(o: Option<T>, default: T) -> T {
    match o {
        Some(value) => value,
        None => default,
    }
}

/// An optional text, or the default.
fn or_text(o: Option<&str>, default: &str) -> (r: String)
    ensures
        r@ == or_default(o.deep_view(), default@),
{
    match o {
        Some(s) => s.to_owned(),
        None => default.to_owned(),
    }
}

// ---------------------------------------------------------------------------
// From arguments to work
// ---------------------------------------------------------------------------
/// The search that `args` ask for. Of several faulty arguments the first one is
/// reported.
pub open spec fn search_work(args: Doc) -> StartedView {
    match (
        crate::mcp::args::required_text(args, "query"@),
        crate::mcp::args::text_arg(args, "path"@),
        crate::mcp::args::natural_arg(args, "top_k"@),
        crate::mcp::args::text_arg(args, "mode"@),
        crate::mcp::args::flag_arg(args, "include_text_files"@),
    ) {
        (Err(e), _, _, _, _) => Err(e),
        (_, Err(e), _, _, _) => Err(e),
        (_, _, Err(e), _, _) => Err(e),
        (_, _, _, Err(e), _) => Err(e),
        (_, _, _, _, Err(e)) => Err(e),
        (Ok(query), Ok(path), Ok(top_k), Ok(mode), Ok(include_text_files)) => Ok(
            Work::Search {
                query,
                path: or_default(path, "."@),
                top_k: or_default(top_k, 10),
                mode: or_default(mode, "outline"@),
                include_text_files: or_default(include_text_files, false),
            },
        ),
    }
}

/// Reads the arguments of a search.
pub fn tool_search(args: &Json) -> (r: Result<Work, ToolError>)
    ensures
        started(r) == search_work(args@),
{
    let query = req_str(args, "query")?;
    let path = opt_str(args, "path")?;
    let top_k = opt_usize(args, "top_k")?;
    let mode = opt_str(args, "mode")?;
    let include_text_files = opt_bool(args, "include_text_files")?;
    Ok(
        Work::Search {
            query: query.to_owned(),
            path: or_text(path, "."),
            top_k: top_k.unwrap_or(10),
            mode: or_text(mode, "outline"),
            include_text_files: include_text_files.unwrap_or(false),
        },
    )
}

/// The file tree that `args` ask for.
pub open spec fn tree_work(args: Doc) -> StartedView {
    match (
        crate::mcp::args::text_arg(args, "path"@),
        crate::mcp::args::flag_arg(args, "symbols"@),
        crate::mcp::args::flag_arg(args, "dirs_only"@),
        crate::mcp::args::natural_arg(args, "max_depth"@),
        crate::mcp::args::flag_arg(args, "include_text_files"@),
        crate::mcp::args::texts_arg(args, "lang"@),
    ) {
        (Err(e), _, _, _, _, _) => Err(e),
        (_, Err(e), _, _, _, _) => Err(e),
        (_, _, Err(e), _, _, _) => Err(e),
        (_, _, _, Err(e), _, _) => Err(e),
        (_, _, _, _, Err(e), _) => Err(e),
        (_, _, _, _, _, Err(e)) => Err(e),
        (
            Ok(path),
            Ok(symbols),
            Ok(dirs_only),
            Ok(max_depth),
            Ok(include_text_files),
            Ok(langs),
        ) => Ok(
            Work::Tree {
                path: or_default(path, "."@),
                symbols: or_default(symbols, false),
                dirs_only: or_default(dirs_only, false),
                max_depth,
                include_text_files: or_default(include_text_files, false),
                langs,
            },
        ),
    }
}

/// Reads the arguments of a file tree.
pub fn tool_tree(args: &Json) -> (r: Result<Work, ToolError>)
    ensures
        started(r) == tree_work(args@),
{
    let path = opt_str(args, "path")?;
    let symbols = opt_bool(args, "symbols")?;
    let dirs_only = opt_bool(args, "dirs_only")?;
    let max_depth = opt_usize(args, "max_depth")?;
    let include_text_files = opt_bool(args, "include_text_files")?;
    let langs = opt_string_vec(args, "lang")?;
    Ok(
        Work::Tree {
            path: or_text(path, "."),
            symbols: symbols.unwrap_or(false),
            dirs_only: dirs_only.unwrap_or(false),
            max_depth,
            include_text_files: include_text_files.unwrap_or(false),
            langs,
        },
    )
}

/// The dependency report that `args` ask for.
pub open spec fn deps_work(args: Doc) -> StartedView {
    match (
        crate::mcp::args::required_text(args, "file"@),
        crate::mcp::args::text_arg(args, "path"@),
        crate::mcp::args::text_arg(args, "mode"@),
        crate::mcp::args::natural_arg(args, "max_depth"@),
    ) {
        (Err(e), _, _, _) => Err(e),
        (_, Err(e), _, _) => Err(e),
        (_, _, Err(e), _) => Err(e),
        (_, _, _, Err(e)) => Err(e),
        (Ok(file), Ok(path), Ok(mode), Ok(max_depth)) => Ok(
            Work::Deps {
                file,
                path: or_default(path, "."@),
                mode: or_default(mode, "summary"@),
                max_depth,
            },
        ),
    }
}

/// Reads the arguments of a dependency report.
pub fn tool_deps(args: &Json) -> (r: Result<Work, ToolError>)
    ensures
        started(r) == deps_work(args@),
{
    let file = req_str(args, "file")?;
    let path = opt_str(args, "path")?;
    let mode = opt_str(args, "mode")?;
    let max_depth = opt_usize(args, "max_depth")?;
    Ok(
        Work::Deps {
            file: file.to_owned(),
            path: or_text(path, "."),
            mode: or_text(mode, "summary"),
            max_depth,
        },
    )
}

/// The impact report that `args` ask for: its arguments are those of a
/// dependency report.
pub open spec fn impact_work(args: Doc) -> StartedView {
    match deps_work(args) {
        Ok(Work::Deps { file, path, mode, max_depth }) => Ok(
            Work::Impact { file, path, mode, max_depth },
        ),
        other => other,
    }
}

/// Reads the arguments of an impact report.
pub fn tool_impact(args: &Json) -> (r: Result<Work, ToolError>)
    ensures
        started(r) == impact_work(args@),
{
    let file = req_str(args, "file")?;
    let path = opt_str(args, "path")?;
    let mode = opt_str(args, "mode")?;
    let max_depth = opt_usize(args, "max_depth")?;
    Ok(
        Work::Impact {
            file: file.to_owned(),
            path: or_text(path, "."),
            mode: or_text(mode, "summary"),
            max_depth,
        },
    )
}

/// The pattern search that `args` ask for.
pub open spec fn pattern_work(args: Doc) -> StartedView {
    match (
        crate::mcp::args::required_text(args, "pattern"@),
        crate::mcp::args::text_arg(args, "path"@),
        crate::mcp::args::text_arg(args, "lang"@),
        crate::mcp::args::flag_arg(args, "compact"@),
    ) {
        (Err(e), _, _, _) => Err(e),
        (_, Err(e), _, _) => Err(e),
        (_, _, Err(e), _) => Err(e),
        (_, _, _, Err(e)) => Err(e),
        (Ok(pattern), Ok(path), Ok(lang), Ok(compact)) => Ok(
            Work::FindPattern {
                pattern,
                path: or_default(path, "."@),
                lang,
                compact: or_default(compact, false),
            },
        ),
    }
}

/// Reads the arguments of a pattern search.
pub fn tool_find_pattern(args: &Json) -> (r: Result<Work, ToolError>)
    ensures
        started(r) == pattern_work(args@),
{
    let pattern = req_str(args, "pattern")?;
    let path = opt_str(args, "path")?;
    let lang = opt_str(args, "lang")?;
    let compact = opt_bool(args, "compact")?;
    Ok(
        Work::FindPattern {
            pattern: pattern.to_owned(),
            path: or_text(path, "."),
            lang: match lang {
                Some(s) => Some(s.to_owned()),
                None => None,
            },
            compact: compact.unwrap_or(false),
        },
    )
}

/// The search for related code that `args` ask for.
pub open spec fn related_work(args: Doc) -> StartedView {
    match (
        crate::mcp::args::required_text(args, "file"@),
        crate::mcp::args::required_natural(args, "line"@),
        crate::mcp::args::text_arg(args, "path"@),
        crate::mcp::args::natural_arg(args, "top_k"@),
        crate::mcp::args::flag_arg(args, "include_text_files"@),
    ) {
        (Err(e), _, _, _, _) => Err(e),
        (_, Err(e), _, _, _) => Err(e),
        (_, _, Err(e), _, _) => Err(e),
        (_, _, _, Err(e), _) => Err(e),
        (_, _, _, _, Err(e)) => Err(e),
        (Ok(file), Ok(line), Ok(path), Ok(top_k), Ok(include_text_files)) => Ok(
            Work::FindRelated {
                file,
                line,
                path: or_default(path, "."@),
                top_k: or_default(top_k, 10),
                include_text_files: or_default(include_text_files, false),
            },
        ),
    }
}

/// Reads the arguments of a search for related code.
pub fn tool_find_related(args: &Json) -> (r: Result<Work, ToolError>)
    ensures
        started(r) == related_work(args@),
{
    let file = req_str(args, "file")?;
    let line = req_usize(args, "line")?;
    let path = opt_str(args, "path")?;
    let top_k = opt_usize(args, "top_k")?;
    let include_text_files = opt_bool(args, "include_text_files")?;
    Ok(
        Work::FindRelated {
            file: file.to_owned(),
            line,
            path: or_text(path, "."),
            top_k: top_k.unwrap_or(10),
            include_text_files: include_text_files.unwrap_or(false),
        },
    )
}

/// The exploration plan that `args` ask for.
pub open spec fn plan_work(args: Doc) -> StartedView {
    match (
        crate::mcp::args::required_text(args, "task"@),
        crate::mcp::args::text_arg(args, "path"@),
        crate::mcp::args::natural_arg(args, "top_k"@),
        crate::mcp::args::flag_arg(args, "include_text_files"@),
    ) {
        (Err(e), _, _, _) => Err(e),
        (_, Err(e), _, _) => Err(e),
        (_, _, Err(e), _) => Err(e),
        (_, _, _, Err(e)) => Err(e),
        (Ok(task), Ok(path), Ok(top_k), Ok(include_text_files)) => Ok(
            Work::Plan {
                task,
                path: or_default(path, "."@),
                top_k: or_default(top_k, 8),
                include_text_files: or_default(include_text_files, false),
            },
        ),
    }
}

/// Reads the arguments of an exploration plan.
pub fn tool_plan(args: &Json) -> (r: Result<Work, ToolError>)
    ensures
        started(r) == plan_work(args@),
{
    let task = req_str(args, "task")?;
    let path = opt_str(args, "path")?;
    let top_k = opt_usize(args, "top_k")?;
    let include_text_files = opt_bool(args, "include_text_files")?;
    Ok(
        Work::Plan {
            task: task.to_owned(),
            path: or_text(path, "."),
            top_k: top_k.unwrap_or(8),
            include_text_files: include_text_files.unwrap_or(false),
        },
    )
}

/// The work that the tool `name` has to do with `args`.
pub open spec fn work_of(name: Seq<char>, args: Doc) -> StartedView {
    if name == "search"@ {
        search_work(args)
    } else if name == "tree"@ {
        tree_work(args)
    } else if name == "deps"@ {
        deps_work(args)
    } else if name == "impact"@ {
        impact_work(args)
    } else if name == "find_pattern"@ {
        pattern_work(args)
    } else if name == "find_related"@ {
        related_work(args)
    } else if name == "plan"@ {
        plan_work(args)
    } else {
        Err(ToolError::UnknownTool(name))
    }
}

/// Starts the tool `name`: reads its arguments and says what there is to do.
pub fn run_tool(name: &str, args: &Json) -> (r: Result<Work, ToolError>)
    ensures
        started(r) == work_of(name@, args@),
{
    if same(name, "search") {
        tool_search(args)
    } else if same(name, "tree") {
        tool_tree(args)
    } else if same(name, "deps") {
        tool_deps(args)
    } else if same(name, "impact") {
        tool_impact(args)
    } else if same(name, "find_pattern") {
        tool_find_pattern(args)
    } else if same(name, "find_related") {
        tool_find_related(args)
    } else if same(name, "plan") {
        tool_plan(args)
    } else {
        Err(ToolError::UnknownTool(name.to_owned()))
    }
}

} // verus!
