//! The tools that the server offers, and the schema of their arguments.

use vstd::prelude::*;
use vstd::string::*;

use crate::json::{Doc, Items, Json, Members, Num};
use crate::text::same;

verus! {

/// The names of the tools, in the order in which they are listed.
pub open spec fn names() -> Seq<Seq<char>> {
    seq![
        "search"@,
        "tree"@,
        "deps"@,
        "impact"@,
        "find_pattern"@,
        "find_related"@,
        "plan"@,
    ]
}

/// The names of the tools.
pub fn tool_names() -> (r: Vec<String>)
    ensures
        r.deep_view() == names(),
{
    let mut r: Vec<String> = Vec::new();
    r.push("search".to_owned());
    r.push("tree".to_owned());
    r.push("deps".to_owned());
    r.push("impact".to_owned());
    r.push("find_pattern".to_owned());
    r.push("find_related".to_owned());
    r.push("plan".to_owned());
    assert(r.deep_view() =~= names());
    r
}

/// Whether there is a tool of that name.
pub fn tool_exists(name: &str) -> (r: bool)
    ensures
        r == names().contains(name@),
{
    let all = tool_names();
    for i in 0..all.len()
        invariant
            all.deep_view() == names(),
            forall|j: int| 0 <= j < i ==> all[j]@ != name@,
    {
        if same(&all[i], name) {
            assert(all.deep_view()[i as int] == name@);
            return true;
        }
    }
    assert forall|j: int| 0 <= j < names().len() implies names()[j] != name@ by {
        assert(all.deep_view()[j] == all[j]@);
    }
    false
}

// ---------------------------------------------------------------------------
// Descriptions
// ---------------------------------------------------------------------------
pub const SEARCH_TOOL: &'static str = "Hybrid lexical + semantic code search over AST chunks. Describe the feature or behavior in natural language (beats guessing symbol names). Returns a ranked, trimmed set of matches. Escalate mode only when the cheaper one is insufficient: outline -> compact -> group -> full.";

pub const SEARCH_QUERY: &'static str = "Natural-language feature description, symbol, or keyword";

pub const SEARCH_TOP_K: &'static str = "Max results";

pub const SEARCH_MODE: &'static str = "outline: one signature line per match (cheapest). compact: path + matching lines. group: directory-grouped, max 3 match lines per chunk. full: whole chunk bodies.";

pub const TREE_TOOL: &'static str = "Gitignore-aware codebase file tree at a fraction of `ls -R` tokens. Set symbols=true to append top-level symbols (fn, struct, class, ...) per file. Best first call on an unfamiliar repo.";

pub const TREE_SYMBOLS: &'static str = "Append top-level symbols per file";

pub const TREE_DIRS_ONLY: &'static str = "Show directories only";

pub const TREE_MAX_DEPTH: &'static str = "Limit tree depth";

pub const TREE_LANG: &'static str = "Filter to languages, e.g. [\"rust\", \"python\"]";

pub const DEPS_TOOL: &'static str = "Show what a file depends on: defined symbols, direct imports, and direct users. mode=tree renders the transitive import tree (cycle-aware). Use before editing shared files.";

pub const DEPS_FILE: &'static str = "File path relative to the indexed root, as shown in search results";

pub const DEPS_MODE: &'static str = "summary: symbols + direct imports + direct users. tree: transitive import tree.";

pub const DEPS_MAX_DEPTH: &'static str = "Max tree depth (mode=tree)";

pub const IMPACT_TOOL: &'static str = "Blast radius: all files transitively affected if the given file changes. mode=tree renders the reverse-dependency tree. Use before editing shared files.";

pub const IMPACT_MODE: &'static str = "summary: flat list of affected files. tree: reverse-dependency tree.";

pub const FIND_PATTERN_TOOL: &'static str = "Exhaustive structural AST pattern search via ast-grep (must be installed), e.g. pattern \"fn $NAME($$$)\" with lang \"rust\". Use for every-occurrence structural matches that ranked semantic search cannot express.";

pub const FIND_PATTERN_PATTERN: &'static str = "ast-grep pattern, e.g. \"fn $NAME($$$)\"";

pub const FIND_PATTERN_PATH: &'static str = "Directory to search (git URLs are not supported by this tool). Default: server working directory";

pub const FIND_PATTERN_LANG: &'static str = "Language hint (rust, python, javascript, ...)";

pub const FIND_PATTERN_COMPACT: &'static str = "One JSON object per match (ast-grep --json=stream)";

pub const FIND_RELATED_TOOL: &'static str = "Find code semantically similar to the chunk at a specific file:line (e.g. locate duplicated logic or sibling implementations).";

pub const FIND_RELATED_FILE: &'static str = "File path as shown in search results";

pub const FIND_RELATED_LINE: &'static str = "Line number (1-indexed)";

pub const PLAN_TOOL: &'static str = "Recommend a token-efficient exploration flow for a task: ranked candidate files plus a suggested command sequence. Use when unsure where to start; treat 'Confidence: low' candidates as leads, not facts.";

pub const PLAN_TASK: &'static str = "Natural-language task or feature to investigate";

pub const PLAN_TOP_K: &'static str = "Number of candidate chunks to use";

pub const PATH: &'static str = "Directory to index, or a git URL (shallow-cloned). Default: server working directory";

pub const INCLUDE_TEXT_FILES: &'static str = "Also index non-code text files (.md, .yaml, .json, ...)";

// ---------------------------------------------------------------------------
// Parts
// ---------------------------------------------------------------------------
/// The schema of a value: its type and what it means.
pub open spec fn property(kind: Seq<char>, description: Seq<char>) -> Seq<(Seq<char>, Doc)> {
    seq![("type"@, Doc::Text(kind)), ("description"@, Doc::Text(description))]
}

fn describe(kind: &str, description: &str) -> (r: Members)
    ensures
        r@ == property(kind@, description@),
{
    let r = Members::new().with("type", Json::text(kind)).with(
        "description",
        Json::text(description),
    );
    assert(r@ =~= property(kind@, description@));
    r
}

/// A value that has no default.
pub open spec fn described(kind: Seq<char>, description: Seq<char>) -> Doc {
    Doc::Object(property(kind, description))
}

/// A value with a default.
pub open spec fn defaulted(kind: Seq<char>, description: Seq<char>, default: Doc) -> Doc {
    Doc::Object(property(kind, description).push(("default"@, default)))
}

fn describe_defaulted(kind: &str, description: &str, default: Json) -> (r: Json)
    ensures
        r@ == defaulted(kind@, description@, default@),
{
    describe(kind, description).with("default", default).object()
}

/// A string that is one of `modes`, with a default.
pub open spec fn choice(description: Seq<char>, modes: Doc, default: Seq<char>) -> Doc {
    Doc::Object(
        property("string"@, description).push(("enum"@, modes)).push(
            ("default"@, Doc::Text(default)),
        ),
    )
}

fn describe_choice(description: &str, modes: Json, default: &str) -> (r: Json)
    ensures
        r@ == choice(description@, modes@, default@),
{
    describe("string", description).with("enum", modes).with(
        "default",
        Json::text(default),
    ).object()
}

/// The names of the search modes.
pub open spec fn search_modes() -> Doc {
    Doc::Array(
        seq![
            Doc::Text("outline"@),
            Doc::Text("compact"@),
            Doc::Text("group"@),
            Doc::Text("full"@),
        ],
    )
}

fn list_search_modes() -> (r: Json)
    ensures
        r@ == search_modes(),
{
    let modes = Items::new().with(Json::text("outline")).with(Json::text("compact")).with(
        Json::text("group"),
    ).with(Json::text("full"));
    assert(modes@ =~= search_modes()->Array_0);
    modes.array()
}

/// The names of the modes of the reports on the dependency graph.
pub open spec fn graph_modes() -> Doc {
    Doc::Array(seq![Doc::Text("summary"@), Doc::Text("tree"@)])
}

fn list_graph_modes() -> (r: Json)
    ensures
        r@ == graph_modes(),
{
    let modes = Items::new().with(Json::text("summary")).with(Json::text("tree"));
    assert(modes@ =~= graph_modes()->Array_0);
    modes.array()
}

/// The place to index.
pub open spec fn path_property() -> Doc {
    defaulted("string"@, PATH@, Doc::Text("."@))
}

fn describe_path() -> (r: Json)
    ensures
        r@ == path_property(),
{
    describe_defaulted("string", PATH, Json::text("."))
}

/// Whether to index text files too.
pub open spec fn include_text_files_property() -> Doc {
    defaulted("boolean"@, INCLUDE_TEXT_FILES@, Doc::Bool(false))
}

fn describe_include_text_files() -> (r: Json)
    ensures
        r@ == include_text_files_property(),
{
    describe_defaulted("boolean", INCLUDE_TEXT_FILES, Json::Bool(false))
}

/// The schema of the arguments of a tool.
pub open spec fn schema(properties: Seq<(Seq<char>, Doc)>, required: Seq<Doc>) -> Doc {
    Doc::Object(
        seq![
            ("type"@, Doc::Text("object"@)),
            ("properties"@, Doc::Object(properties)),
            ("required"@, Doc::Array(required)),
        ],
    )
}

/// The definition of a tool.
pub open spec fn tool(
    name: Seq<char>,
    description: Seq<char>,
    properties: Seq<(Seq<char>, Doc)>,
    required: Seq<Doc>,
) -> Doc {
    Doc::Object(
        seq![
            ("name"@, Doc::Text(name)),
            ("description"@, Doc::Text(description)),
            ("inputSchema"@, schema(properties, required)),
        ],
    )
}

fn describe_tool(name: &str, description: &str, properties: Members, required: Items) -> (r: Json)
    ensures
        r@ == tool(name@, description@, properties@, required@),
{
    let input = Members::new().with("type", Json::text("object")).with(
        "properties",
        properties.object(),
    ).with("required", required.array());
    assert(input@ =~= schema(properties@, required@)->Object_0);
    let r = Members::new().with("name", Json::text(name)).with(
        "description",
        Json::text(description),
    ).with("inputSchema", input.object());
    assert(r@ =~= tool(name@, description@, properties@, required@)->Object_0);
    r.object()
}

// ---------------------------------------------------------------------------
// The tools
// ---------------------------------------------------------------------------
/// The properties of the arguments of `search`.
pub open spec fn search_properties() -> Seq<(Seq<char>, Doc)> {
    seq![
        ("query"@, described("string"@, SEARCH_QUERY@)),
        ("path"@, path_property()),
        ("top_k"@, defaulted("integer"@, SEARCH_TOP_K@, Doc::Number(Num::Natural(10)))),
        ("mode"@, choice(SEARCH_MODE@, search_modes(), "outline"@)),
        ("include_text_files"@, include_text_files_property()),
    ]
}

fn describe_search_tool() -> (r: Json)
    ensures
        r@ == tool("search"@, SEARCH_TOOL@, search_properties(), seq![Doc::Text("query"@)]),
{
    let properties = Members::new()
        .with("query", describe("string", SEARCH_QUERY).object())
        .with("path", describe_path())
        .with("top_k", describe_defaulted("integer", SEARCH_TOP_K, Json::natural(10)))
        .with("mode", describe_choice(SEARCH_MODE, list_search_modes(), "outline"))
        .with("include_text_files", describe_include_text_files());
    let required = Items::new().with(Json::text("query"));
    assert(properties@ =~= search_properties());
    assert(required@ =~= seq![Doc::Text("query"@)]);
    describe_tool("search", SEARCH_TOOL, properties, required)
}

/// The properties of the arguments of `tree`.
pub open spec fn tree_properties() -> Seq<(Seq<char>, Doc)> {
    seq![
        ("path"@, path_property()),
        ("symbols"@, defaulted("boolean"@, TREE_SYMBOLS@, Doc::Bool(false))),
        ("dirs_only"@, defaulted("boolean"@, TREE_DIRS_ONLY@, Doc::Bool(false))),
        ("max_depth"@, described("integer"@, TREE_MAX_DEPTH@)),
        (
            "lang"@,
            Doc::Object(
                property("array"@, TREE_LANG@).push(
                    ("items"@, Doc::Object(seq![("type"@, Doc::Text("string"@))])),
                ),
            ),
        ),
        ("include_text_files"@, include_text_files_property()),
    ]
}

fn describe_tree_tool() -> (r: Json)
    ensures
        r@ == tool("tree"@, TREE_TOOL@, tree_properties(), seq![]),
{
    let items = Members::new().with("type", Json::text("string"));
    let properties = Members::new()
        .with("path", describe_path())
        .with("symbols", describe_defaulted("boolean", TREE_SYMBOLS, Json::Bool(false)))
        .with("dirs_only", describe_defaulted("boolean", TREE_DIRS_ONLY, Json::Bool(false)))
        .with("max_depth", describe("integer", TREE_MAX_DEPTH).object())
        .with("lang", describe("array", TREE_LANG).with("items", items.object()).object())
        .with("include_text_files", describe_include_text_files());
    let required = Items::new();
    assert(properties@ =~= tree_properties());
    assert(required@ =~= seq![]);
    describe_tool("tree", TREE_TOOL, properties, required)
}

/// The properties of the arguments of `deps`.
pub open spec fn deps_properties() -> Seq<(Seq<char>, Doc)> {
    seq![
        ("file"@, described("string"@, DEPS_FILE@)),
        ("path"@, path_property()),
        ("mode"@, choice(DEPS_MODE@, graph_modes(), "summary"@)),
        ("max_depth"@, described("integer"@, DEPS_MAX_DEPTH@)),
    ]
}

fn describe_deps_tool() -> (r: Json)
    ensures
        r@ == tool("deps"@, DEPS_TOOL@, deps_properties(), seq![Doc::Text("file"@)]),
{
    let properties = Members::new()
        .with("file", describe("string", DEPS_FILE).object())
        .with("path", describe_path())
        .with("mode", describe_choice(DEPS_MODE, list_graph_modes(), "summary"))
        .with("max_depth", describe("integer", DEPS_MAX_DEPTH).object());
    let required = Items::new().with(Json::text("file"));
    assert(properties@ =~= deps_properties());
    assert(required@ =~= seq![Doc::Text("file"@)]);
    describe_tool("deps", DEPS_TOOL, properties, required)
}

/// The properties of the arguments of `impact`.
pub open spec fn impact_properties() -> Seq<(Seq<char>, Doc)> {
    seq![
        ("file"@, described("string"@, DEPS_FILE@)),
        ("path"@, path_property()),
        ("mode"@, choice(IMPACT_MODE@, graph_modes(), "summary"@)),
        ("max_depth"@, described("integer"@, DEPS_MAX_DEPTH@)),
    ]
}

fn describe_impact_tool() -> (r: Json)
    ensures
        r@ == tool("impact"@, IMPACT_TOOL@, impact_properties(), seq![Doc::Text("file"@)]),
{
    let properties = Members::new()
        .with("file", describe("string", DEPS_FILE).object())
        .with("path", describe_path())
        .with("mode", describe_choice(IMPACT_MODE, list_graph_modes(), "summary"))
        .with("max_depth", describe("integer", DEPS_MAX_DEPTH).object());
    let required = Items::new().with(Json::text("file"));
    assert(properties@ =~= impact_properties());
    assert(required@ =~= seq![Doc::Text("file"@)]);
    describe_tool("impact", IMPACT_TOOL, properties, required)
}

/// The properties of the arguments of `find_pattern`.
pub open spec fn find_pattern_properties() -> Seq<(Seq<char>, Doc)> {
    seq![
        ("pattern"@, described("string"@, FIND_PATTERN_PATTERN@)),
        ("path"@, defaulted("string"@, FIND_PATTERN_PATH@, Doc::Text("."@))),
        ("lang"@, described("string"@, FIND_PATTERN_LANG@)),
        ("compact"@, defaulted("boolean"@, FIND_PATTERN_COMPACT@, Doc::Bool(false))),
    ]
}

fn describe_find_pattern_tool() -> (r: Json)
    ensures
        r@ == tool(
            "find_pattern"@,
            FIND_PATTERN_TOOL@,
            find_pattern_properties(),
            seq![Doc::Text("pattern"@)],
        ),
{
    let properties = Members::new()
        .with("pattern", describe("string", FIND_PATTERN_PATTERN).object())
        .with("path", describe_defaulted("string", FIND_PATTERN_PATH, Json::text(".")))
        .with("lang", describe("string", FIND_PATTERN_LANG).object())
        .with("compact", describe_defaulted("boolean", FIND_PATTERN_COMPACT, Json::Bool(false)));
    let required = Items::new().with(Json::text("pattern"));
    assert(properties@ =~= find_pattern_properties());
    assert(required@ =~= seq![Doc::Text("pattern"@)]);
    describe_tool("find_pattern", FIND_PATTERN_TOOL, properties, required)
}

/// The properties of the arguments of `find_related`.
pub open spec fn find_related_properties() -> Seq<(Seq<char>, Doc)> {
    seq![
        ("file"@, described("string"@, FIND_RELATED_FILE@)),
        ("line"@, described("integer"@, FIND_RELATED_LINE@)),
        ("path"@, path_property()),
        ("top_k"@, defaulted("integer"@, SEARCH_TOP_K@, Doc::Number(Num::Natural(10)))),
        ("include_text_files"@, include_text_files_property()),
    ]
}

fn describe_find_related_tool() -> (r: Json)
    ensures
        r@ == tool(
            "find_related"@,
            FIND_RELATED_TOOL@,
            find_related_properties(),
            seq![Doc::Text("file"@), Doc::Text("line"@)],
        ),
{
    let properties = Members::new()
        .with("file", describe("string", FIND_RELATED_FILE).object())
        .with("line", describe("integer", FIND_RELATED_LINE).object())
        .with("path", describe_path())
        .with("top_k", describe_defaulted("integer", SEARCH_TOP_K, Json::natural(10)))
        .with("include_text_files", describe_include_text_files());
    let required = Items::new().with(Json::text("file")).with(Json::text("line"));
    assert(properties@ =~= find_related_properties());
    assert(required@ =~= seq![Doc::Text("file"@), Doc::Text("line"@)]);
    describe_tool("find_related", FIND_RELATED_TOOL, properties, required)
}

/// The properties of the arguments of `plan`.
pub open spec fn plan_properties() -> Seq<(Seq<char>, Doc)> {
    seq![
        ("task"@, described("string"@, PLAN_TASK@)),
        ("path"@, path_property()),
        ("top_k"@, defaulted("integer"@, PLAN_TOP_K@, Doc::Number(Num::Natural(8)))),
        ("include_text_files"@, include_text_files_property()),
    ]
}

fn describe_plan_tool() -> (r: Json)
    ensures
        r@ == tool("plan"@, PLAN_TOOL@, plan_properties(), seq![Doc::Text("task"@)]),
{
    let properties = Members::new()
        .with("task", describe("string", PLAN_TASK).object())
        .with("path", describe_path())
        .with("top_k", describe_defaulted("integer", PLAN_TOP_K, Json::natural(8)))
        .with("include_text_files", describe_include_text_files());
    let required = Items::new().with(Json::text("task"));
    assert(properties@ =~= plan_properties());
    assert(required@ =~= seq![Doc::Text("task"@)]);
    describe_tool("plan", PLAN_TOOL, properties, required)
}

/// The definitions of all tools.
pub open spec fn definitions() -> Seq<Doc> {
    seq![
        tool("search"@, SEARCH_TOOL@, search_properties(), seq![Doc::Text("query"@)]),
        tool("tree"@, TREE_TOOL@, tree_properties(), seq![]),
        tool("deps"@, DEPS_TOOL@, deps_properties(), seq![Doc::Text("file"@)]),
        tool("impact"@, IMPACT_TOOL@, impact_properties(), seq![Doc::Text("file"@)]),
        tool(
            "find_pattern"@,
            FIND_PATTERN_TOOL@,
            find_pattern_properties(),
            seq![Doc::Text("pattern"@)],
        ),
        tool(
            "find_related"@,
            FIND_RELATED_TOOL@,
            find_related_properties(),
            seq![Doc::Text("file"@), Doc::Text("line"@)],
        ),
        tool("plan"@, PLAN_TOOL@, plan_properties(), seq![Doc::Text("task"@)]),
    ]
}

/// Describes all tools.
pub fn tool_definitions() -> (r: Json)
    ensures
        r@ == Doc::Array(definitions()),
{
    let tools = Items::new()
        .with(describe_search_tool())
        .with(describe_tree_tool())
        .with(describe_deps_tool())
        .with(describe_impact_tool())
        .with(describe_find_pattern_tool())
        .with(describe_find_related_tool())
        .with(describe_plan_tool());
    assert(tools@ =~= definitions());
    tools.array()
}

} // verus!
