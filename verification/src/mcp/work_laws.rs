//! What the work of each tool carries: the arguments that were given, and the
//! defaults of those that were not.

use vstd::prelude::*;
use vstd::string::*;

use crate::json::{Doc, Num};
use crate::mcp::errors::{ErrorView, ToolError};
use crate::mcp::work::{Work, WorkView};

verus! {

/// Whether an argument is not there.
pub open spec fn is_absent(given: Option<Doc>) -> bool {
    given is None || given == Some(Doc::Null)
}

/// Whether `got` is the text that was given, or the default of one that was not.
pub open spec fn carries_text(given: Option<Doc>, got: Seq<char>, default: Seq<char>) -> bool {
    given == Some(Doc::Text(got)) || is_absent(given) && got == default
}

/// Whether `got` is the number that was given, or the default of one that was
/// not.
pub open spec fn carries_number(given: Option<Doc>, got: usize, default: usize) -> bool {
    ||| given matches Some(Doc::Number(Num::Natural(n))) && got == n as usize
    ||| is_absent(given) && got == default
}

/// Whether `got` is the flag that was given; one that was not is not set.
pub open spec fn carries_flag(given: Option<Doc>, got: bool) -> bool {
    given == Some(Doc::Bool(got)) || is_absent(given) && !got
}

/// Whether `got` is the text that was given, if one was.
pub open spec fn carries_any_text(given: Option<Doc>, got: Option<Seq<char>>) -> bool {
    match got {
        Some(s) => given == Some(Doc::Text(s)),
        None => is_absent(given),
    }
}

/// Whether `got` is the number that was given, if one was.
pub open spec fn carries_any_number(given: Option<Doc>, got: Option<usize>) -> bool {
    match got {
        Some(n) => given matches Some(Doc::Number(Num::Natural(m))) && n == m as usize,
        None => is_absent(given),
    }
}

/// Whether `got` is the list that was given, if one was: the items of an array,
/// or the filled items between the commas of a string.
pub open spec fn carries_any_texts(given: Option<Doc>, got: Option<Seq<Seq<char>>>) -> bool {
    match got {
        Some(texts) => {
            ||| given matches Some(Doc::Array(items)) && items.len() == texts.len() && forall|j: int|
                0 <= j < items.len() ==> #[trigger] items[j] == Doc::Text(texts[j])
            ||| given matches Some(Doc::Text(s)) && texts == crate::text::filled(
                crate::text::pieces(s, ','),
            )
        },
        None => is_absent(given),
    }
}

proof fn tools_differ()
    ensures
        "search"@ != "tree"@ && "search"@ != "deps"@ && "search"@ != "impact"@,
        "search"@ != "find_pattern"@ && "search"@ != "find_related"@ && "search"@ != "plan"@,
        "tree"@ != "deps"@ && "tree"@ != "impact"@ && "tree"@ != "find_pattern"@,
        "tree"@ != "find_related"@ && "tree"@ != "plan"@,
        "deps"@ != "impact"@ && "deps"@ != "find_pattern"@ && "deps"@ != "find_related"@,
        "deps"@ != "plan"@ && "impact"@ != "find_pattern"@ && "impact"@ != "find_related"@,
        "impact"@ != "plan"@ && "find_pattern"@ != "find_related"@ && "find_pattern"@ != "plan"@,
        "find_related"@ != "plan"@,
{
    crate::mcp::tool_laws::tool_names_differ();
    let names = crate::mcp::definitions::names();
    assert(names[0] == "search"@ && names[1] == "tree"@ && names[2] == "deps"@);
    assert(names[3] == "impact"@ && names[4] == "find_pattern"@);
    assert(names[5] == "find_related"@ && names[6] == "plan"@);
}

/// A search carries the query, the path, the number of results, the mode and the
/// flag that were given.
pub proof fn a_search_carries_its_arguments(args: Doc)
    ensures
        crate::mcp::work::work_of("search"@, args) matches Ok(work) ==> {
            &&& work matches Work::Search { query, path, top_k, mode, include_text_files }
            &&& args.member("query"@) == Some(Doc::Text(query))
            &&& carries_text(args.member("path"@), path, "."@)
            &&& carries_number(args.member("top_k"@), top_k, 10)
            &&& carries_text(args.member("mode"@), mode, "outline"@)
            &&& carries_flag(args.member("include_text_files"@), include_text_files)
        },
{
    tools_differ();
}

/// A file tree carries the path, the flags, the depth and the languages that were
/// given.
pub proof fn a_tree_carries_its_arguments(args: Doc)
    ensures
        crate::mcp::work::work_of("tree"@, args) matches Ok(work) ==> {
            &&& work matches Work::Tree {
                path,
                symbols,
                dirs_only,
                max_depth,
                include_text_files,
                langs,
            }
            &&& carries_text(args.member("path"@), path, "."@)
            &&& carries_flag(args.member("symbols"@), symbols)
            &&& carries_flag(args.member("dirs_only"@), dirs_only)
            &&& carries_any_number(args.member("max_depth"@), max_depth)
            &&& carries_flag(args.member("include_text_files"@), include_text_files)
            &&& carries_any_texts(args.member("lang"@), langs)
        },
{
    tools_differ();
}

/// A dependency report carries the file, the path, the mode and the depth that
/// were given.
pub proof fn a_dependency_report_carries_its_arguments(args: Doc)
    ensures
        crate::mcp::work::work_of("deps"@, args) matches Ok(work) ==> {
            &&& work matches Work::Deps { file, path, mode, max_depth }
            &&& args.member("file"@) == Some(Doc::Text(file))
            &&& carries_text(args.member("path"@), path, "."@)
            &&& carries_text(args.member("mode"@), mode, "summary"@)
            &&& carries_any_number(args.member("max_depth"@), max_depth)
        },
{
    tools_differ();
}

/// An impact report carries the file, the path, the mode and the depth that were
/// given.
pub proof fn an_impact_report_carries_its_arguments(args: Doc)
    ensures
        crate::mcp::work::work_of("impact"@, args) matches Ok(work) ==> {
            &&& work matches Work::Impact { file, path, mode, max_depth }
            &&& args.member("file"@) == Some(Doc::Text(file))
            &&& carries_text(args.member("path"@), path, "."@)
            &&& carries_text(args.member("mode"@), mode, "summary"@)
            &&& carries_any_number(args.member("max_depth"@), max_depth)
        },
{
    tools_differ();
}

/// A pattern search carries the pattern, the path, the language and the flag that
/// were given.
pub proof fn a_pattern_search_carries_its_arguments(args: Doc)
    ensures
        crate::mcp::work::work_of("find_pattern"@, args) matches Ok(work) ==> {
            &&& work matches Work::FindPattern { pattern, path, lang, compact }
            &&& args.member("pattern"@) == Some(Doc::Text(pattern))
            &&& carries_text(args.member("path"@), path, "."@)
            &&& carries_any_text(args.member("lang"@), lang)
            &&& carries_flag(args.member("compact"@), compact)
        },
{
    tools_differ();
}

/// A search for related code carries the file, the line, the path, the number of
/// results and the flag that were given.
pub proof fn a_related_search_carries_its_arguments(args: Doc)
    ensures
        crate::mcp::work::work_of("find_related"@, args) matches Ok(work) ==> {
            &&& work matches Work::FindRelated { file, line, path, top_k, include_text_files }
            &&& args.member("file"@) == Some(Doc::Text(file))
            &&& args.member("line"@) matches Some(Doc::Number(Num::Natural(n)))
            &&& line == n as usize
            &&& carries_text(args.member("path"@), path, "."@)
            &&& carries_number(args.member("top_k"@), top_k, 10)
            &&& carries_flag(args.member("include_text_files"@), include_text_files)
        },
{
    tools_differ();
}

/// A plan carries the task, the path, the number of candidates and the flag that
/// were given.
pub proof fn a_plan_carries_its_arguments(args: Doc)
    ensures
        crate::mcp::work::work_of("plan"@, args) matches Ok(work) ==> {
            &&& work matches Work::Plan { task, path, top_k, include_text_files }
            &&& args.member("task"@) == Some(Doc::Text(task))
            &&& carries_text(args.member("path"@), path, "."@)
            &&& carries_number(args.member("top_k"@), top_k, 8)
            &&& carries_flag(args.member("include_text_files"@), include_text_files)
        },
{
    tools_differ();
}

// ---------------------------------------------------------------------------
// Faults
// ---------------------------------------------------------------------------
/// What is wrong with an argument that is to be a string.
pub open spec fn text_fault(args: Doc, key: Seq<char>, required: bool) -> Option<ErrorView> {
    let given = args.member(key);
    if is_absent(given) {
        if required {
            Some(ToolError::Missing(key))
        } else {
            None
        }
    } else if given->Some_0 is Text {
        None
    } else {
        Some(ToolError::NotText { key, got: given->Some_0 })
    }
}

/// What is wrong with an argument that is to be a natural number.
pub open spec fn number_fault(args: Doc, key: Seq<char>, required: bool) -> Option<ErrorView> {
    let given = args.member(key);
    if is_absent(given) {
        if required {
            Some(ToolError::Missing(key))
        } else {
            None
        }
    } else if given->Some_0 is Number && given->Some_0->Number_0 is Natural {
        None
    } else {
        Some(ToolError::NotNatural { key, got: given->Some_0 })
    }
}

/// What is wrong with an argument that is to be a boolean.
pub open spec fn flag_fault(args: Doc, key: Seq<char>) -> Option<ErrorView> {
    let given = args.member(key);
    if is_absent(given) || given->Some_0 is Bool {
        None
    } else {
        Some(ToolError::NotFlag { key, got: given->Some_0 })
    }
}

/// What is wrong with an argument that is to be a list of strings.
pub open spec fn texts_fault(args: Doc, key: Seq<char>) -> Option<ErrorView> {
    let given = args.member(key);
    if is_absent(given) || given->Some_0 is Text {
        None
    } else if given->Some_0 is Array {
        if forall|j: int|
            0 <= j < given->Some_0->Array_0.len() ==> (#[trigger] given->Some_0->Array_0[j])
                is Text {
            None
        } else {
            Some(ToolError::NotAllTexts(key))
        }
    } else {
        Some(ToolError::NotTexts { key, got: given->Some_0 })
    }
}

/// The first fault of several arguments, in the order in which they are read.
pub open spec fn first_fault(faults: Seq<Option<ErrorView>>) -> Option<ErrorView>
    decreases faults.len(),
{
    if faults.len() == 0 {
        None
    } else if faults[0] is Some {
        faults[0]
    } else {
        first_fault(faults.drop_first())
    }
}

/// Whether a call of a tool starts just where no argument is faulty, and else
/// fails with the first fault.
pub open spec fn fails_with_the_first(
    started: Result<WorkView, ErrorView>,
    faults: Seq<Option<ErrorView>>,
) -> bool {
    match first_fault(faults) {
        Some(e) => started == Err::<WorkView, _>(e),
        None => started is Ok,
    }
}

proof fn faults_are_tried_in_order(faults: Seq<Option<ErrorView>>)
    ensures
        faults.len() > 0 && faults[0] is Some ==> first_fault(faults) == faults[0],
        faults.len() > 1 && faults[0] is None && faults[1] is Some ==> first_fault(faults)
            == faults[1],
        faults.len() > 2 && faults[0] is None && faults[1] is None && faults[2] is Some
            ==> first_fault(faults) == faults[2],
        faults.len() > 3 && faults[0] is None && faults[1] is None && faults[2] is None
            && faults[3] is Some ==> first_fault(faults) == faults[3],
        faults.len() > 4 && faults[0] is None && faults[1] is None && faults[2] is None
            && faults[3] is None && faults[4] is Some ==> first_fault(faults) == faults[4],
        faults.len() > 5 && faults[0] is None && faults[1] is None && faults[2] is None
            && faults[3] is None && faults[4] is None && faults[5] is Some ==> first_fault(faults)
            == faults[5],
        faults.len() <= 6 && (forall|i: int|
            0 <= i < faults.len() ==> (#[trigger] faults[i]) is None) ==> first_fault(faults)
            is None,
{
    reveal_with_fuel(first_fault, 7);
    let a = faults.drop_first();
    let b = a.drop_first();
    let c = b.drop_first();
    let d = c.drop_first();
    let e = d.drop_first();
    if faults.len() > 1 {
        assert(a[0] == faults[1]);
    }
    if faults.len() > 2 {
        assert(b[0] == faults[2]);
    }
    if faults.len() > 3 {
        assert(c[0] == faults[3]);
    }
    if faults.len() > 4 {
        assert(d[0] == faults[4]);
    }
    if faults.len() > 5 {
        assert(e[0] == faults[5]);
    }
}

/// A call of each tool starts just where all its arguments are right: those that
/// it needs are there, and none is of the wrong type. Else the first that is
/// faulty is reported.
pub proof fn the_first_fault_is_reported(args: Doc)
    ensures
        fails_with_the_first(
            crate::mcp::work::work_of("search"@, args),
            seq![
                text_fault(args, "query"@, true),
                text_fault(args, "path"@, false),
                number_fault(args, "top_k"@, false),
                text_fault(args, "mode"@, false),
                flag_fault(args, "include_text_files"@),
            ],
        ),
        fails_with_the_first(
            crate::mcp::work::work_of("tree"@, args),
            seq![
                text_fault(args, "path"@, false),
                flag_fault(args, "symbols"@),
                flag_fault(args, "dirs_only"@),
                number_fault(args, "max_depth"@, false),
                flag_fault(args, "include_text_files"@),
                texts_fault(args, "lang"@),
            ],
        ),
        fails_with_the_first(
            crate::mcp::work::work_of("deps"@, args),
            seq![
                text_fault(args, "file"@, true),
                text_fault(args, "path"@, false),
                text_fault(args, "mode"@, false),
                number_fault(args, "max_depth"@, false),
            ],
        ),
        fails_with_the_first(
            crate::mcp::work::work_of("impact"@, args),
            seq![
                text_fault(args, "file"@, true),
                text_fault(args, "path"@, false),
                text_fault(args, "mode"@, false),
                number_fault(args, "max_depth"@, false),
            ],
        ),
        fails_with_the_first(
            crate::mcp::work::work_of("find_pattern"@, args),
            seq![
                text_fault(args, "pattern"@, true),
                text_fault(args, "path"@, false),
                text_fault(args, "lang"@, false),
                flag_fault(args, "compact"@),
            ],
        ),
        fails_with_the_first(
            crate::mcp::work::work_of("find_related"@, args),
            seq![
                text_fault(args, "file"@, true),
                number_fault(args, "line"@, true),
                text_fault(args, "path"@, false),
                number_fault(args, "top_k"@, false),
                flag_fault(args, "include_text_files"@),
            ],
        ),
        fails_with_the_first(
            crate::mcp::work::work_of("plan"@, args),
            seq![
                text_fault(args, "task"@, true),
                text_fault(args, "path"@, false),
                number_fault(args, "top_k"@, false),
                flag_fault(args, "include_text_files"@),
            ],
        ),
{
    search_faults(args);
    tree_faults(args);
    graph_faults(args);
    pattern_faults(args);
    related_faults(args);
    plan_faults(args);
}

proof fn search_faults(args: Doc)
    ensures
        fails_with_the_first(
            crate::mcp::work::work_of("search"@, args),
            seq![
                text_fault(args, "query"@, true),
                text_fault(args, "path"@, false),
                number_fault(args, "top_k"@, false),
                text_fault(args, "mode"@, false),
                flag_fault(args, "include_text_files"@),
            ],
        ),
{
    tools_differ();
    faults_are_tried_in_order(
        seq![
            text_fault(args, "query"@, true),
            text_fault(args, "path"@, false),
            number_fault(args, "top_k"@, false),
            text_fault(args, "mode"@, false),
            flag_fault(args, "include_text_files"@),
        ],
    );
}

proof fn tree_faults(args: Doc)
    ensures
        fails_with_the_first(
            crate::mcp::work::work_of("tree"@, args),
            seq![
                text_fault(args, "path"@, false),
                flag_fault(args, "symbols"@),
                flag_fault(args, "dirs_only"@),
                number_fault(args, "max_depth"@, false),
                flag_fault(args, "include_text_files"@),
                texts_fault(args, "lang"@),
            ],
        ),
{
    tools_differ();
    faults_are_tried_in_order(
        seq![
            text_fault(args, "path"@, false),
            flag_fault(args, "symbols"@),
            flag_fault(args, "dirs_only"@),
            number_fault(args, "max_depth"@, false),
            flag_fault(args, "include_text_files"@),
            texts_fault(args, "lang"@),
        ],
    );
}

proof fn graph_faults(args: Doc)
    ensures
        ({
            let faults = seq![
                text_fault(args, "file"@, true),
                text_fault(args, "path"@, false),
                text_fault(args, "mode"@, false),
                number_fault(args, "max_depth"@, false),
            ];
            &&& fails_with_the_first(crate::mcp::work::work_of("deps"@, args), faults)
            &&& fails_with_the_first(crate::mcp::work::work_of("impact"@, args), faults)
        }),
{
    tools_differ();
    faults_are_tried_in_order(
        seq![
            text_fault(args, "file"@, true),
            text_fault(args, "path"@, false),
            text_fault(args, "mode"@, false),
            number_fault(args, "max_depth"@, false),
        ],
    );
}

proof fn pattern_faults(args: Doc)
    ensures
        fails_with_the_first(
            crate::mcp::work::work_of("find_pattern"@, args),
            seq![
                text_fault(args, "pattern"@, true),
                text_fault(args, "path"@, false),
                text_fault(args, "lang"@, false),
                flag_fault(args, "compact"@),
            ],
        ),
{
    tools_differ();
    faults_are_tried_in_order(
        seq![
            text_fault(args, "pattern"@, true),
            text_fault(args, "path"@, false),
            text_fault(args, "lang"@, false),
            flag_fault(args, "compact"@),
        ],
    );
}

proof fn related_faults(args: Doc)
    ensures
        fails_with_the_first(
            crate::mcp::work::work_of("find_related"@, args),
            seq![
                text_fault(args, "file"@, true),
                number_fault(args, "line"@, true),
                text_fault(args, "path"@, false),
                number_fault(args, "top_k"@, false),
                flag_fault(args, "include_text_files"@),
            ],
        ),
{
    tools_differ();
    faults_are_tried_in_order(
        seq![
            text_fault(args, "file"@, true),
            number_fault(args, "line"@, true),
            text_fault(args, "path"@, false),
            number_fault(args, "top_k"@, false),
            flag_fault(args, "include_text_files"@),
        ],
    );
}

proof fn plan_faults(args: Doc)
    ensures
        fails_with_the_first(
            crate::mcp::work::work_of("plan"@, args),
            seq![
                text_fault(args, "task"@, true),
                text_fault(args, "path"@, false),
                number_fault(args, "top_k"@, false),
                flag_fault(args, "include_text_files"@),
            ],
        ),
{
    tools_differ();
    faults_are_tried_in_order(
        seq![
            text_fault(args, "task"@, true),
            text_fault(args, "path"@, false),
            number_fault(args, "top_k"@, false),
            flag_fault(args, "include_text_files"@),
        ],
    );
}

/// A name that is no tool's is an error that shows it.
pub proof fn another_name_is_unknown(name: Seq<char>, args: Doc)
    requires
        name != "search"@,
        name != "tree"@,
        name != "deps"@,
        name != "impact"@,
        name != "find_pattern"@,
        name != "find_related"@,
        name != "plan"@,
    ensures
        crate::mcp::work::work_of(name, args) == Err::<WorkView, ErrorView>(
            ToolError::UnknownTool(name),
        ),
        !crate::mcp::definitions::names().contains(name),
{
}

/// A work keeps what it carries.
pub proof fn a_work_keeps_what_it_carries(work: Work)
    ensures
        match work {
            Work::Search { query, path, top_k, mode, include_text_files } => work@ == (
            WorkView::Search {
                query: query@,
                path: path@,
                top_k,
                mode: mode@,
                include_text_files,
            }),
            Work::Tree { path, symbols, dirs_only, max_depth, include_text_files, langs } => {
                &&& work@ matches Work::Tree {
                    path: p,
                    symbols: s,
                    dirs_only: d,
                    max_depth: m,
                    include_text_files: t,
                    langs: l,
                }
                &&& p == path@ && s == symbols && d == dirs_only && m == max_depth && t
                    == include_text_files
                &&& langs is Some <==> l is Some
                &&& langs matches Some(list) ==> l->Some_0.len() == list@.len() && forall|j: int|
                    0 <= j < list@.len() ==> #[trigger] l->Some_0[j] == list@[j]@
            },
            Work::Deps { file, path, mode, max_depth } => work@ == (WorkView::Deps {
                file: file@,
                path: path@,
                mode: mode@,
                max_depth,
            }),
            Work::Impact { file, path, mode, max_depth } => work@ == (WorkView::Impact {
                file: file@,
                path: path@,
                mode: mode@,
                max_depth,
            }),
            Work::FindPattern { pattern, path, lang, compact } => {
                &&& work@ matches Work::FindPattern { pattern: p, path: q, lang: l, compact: c }
                &&& p == pattern@ && q == path@ && c == compact
                &&& lang is Some <==> l is Some
                &&& lang matches Some(s) ==> l == Some(s@)
            },
            Work::FindRelated { file, line, path, top_k, include_text_files } => work@ == (
            WorkView::FindRelated { file: file@, line, path: path@, top_k, include_text_files }),
            Work::Plan { task, path, top_k, include_text_files } => work@ == (WorkView::Plan {
                task: task@,
                path: path@,
                top_k,
                include_text_files,
            }),
        },
{
}

} // verus!
