//! What holds of the tools: their definitions, their arguments and their modes
//! agree with each other.

use vstd::prelude::*;
use vstd::string::*;

use crate::json::{Doc, Num};
use crate::mcp::definitions::{
    DEPS_TOOL, FIND_PATTERN_TOOL, FIND_RELATED_TOOL, IMPACT_TOOL, PLAN_TOOL, SEARCH_TOOL, TREE_TOOL,
};
use crate::mcp::errors::{ErrorView, ToolError};
use crate::types::SearchResult;

verus! {

proof fn descriptions_hold_something()
    ensures
        SEARCH_TOOL@.len() > 0,
        TREE_TOOL@.len() > 0,
        DEPS_TOOL@.len() > 0,
        IMPACT_TOOL@.len() > 0,
        FIND_PATTERN_TOOL@.len() > 0,
        FIND_RELATED_TOOL@.len() > 0,
        PLAN_TOOL@.len() > 0,
{
    reveal_strlit("Hybrid lexical + semantic code search over AST chunks. Describe the feature or behavior in natural language (beats guessing symbol names). Returns a ranked, trimmed set of matches. Escalate mode only when the cheaper one is insufficient: outline -> compact -> group -> full.");
    reveal_strlit("Gitignore-aware codebase file tree at a fraction of `ls -R` tokens. Set symbols=true to append top-level symbols (fn, struct, class, ...) per file. Best first call on an unfamiliar repo.");
    reveal_strlit("Show what a file depends on: defined symbols, direct imports, and direct users. mode=tree renders the transitive import tree (cycle-aware). Use before editing shared files.");
    reveal_strlit("Blast radius: all files transitively affected if the given file changes. mode=tree renders the reverse-dependency tree. Use before editing shared files.");
    reveal_strlit("Exhaustive structural AST pattern search via ast-grep (must be installed), e.g. pattern \"fn $NAME($$$)\" with lang \"rust\". Use for every-occurrence structural matches that ranked semantic search cannot express.");
    reveal_strlit("Find code semantically similar to the chunk at a specific file:line (e.g. locate duplicated logic or sibling implementations).");
    reveal_strlit("Recommend a token-efficient exploration flow for a task: ranked candidate files plus a suggested command sequence. Use when unsure where to start; treat 'Confidence: low' candidates as leads, not facts.");
}

/// The description of the tool at position `i`.
spec fn description_of(i: int) -> Seq<char> {
    if i == 0 {
        SEARCH_TOOL@
    } else if i == 1 {
        TREE_TOOL@
    } else if i == 2 {
        DEPS_TOOL@
    } else if i == 3 {
        IMPACT_TOOL@
    } else if i == 4 {
        FIND_PATTERN_TOOL@
    } else if i == 5 {
        FIND_RELATED_TOOL@
    } else {
        PLAN_TOOL@
    }
}

/// The arguments that the tool at position `i` requires.
spec fn required_of(i: int) -> Seq<Doc> {
    if i == 0 {
        seq![Doc::Text("query"@)]
    } else if i == 1 {
        seq![]
    } else if i == 2 || i == 3 {
        seq![Doc::Text("file"@)]
    } else if i == 4 {
        seq![Doc::Text("pattern"@)]
    } else if i == 5 {
        seq![Doc::Text("file"@), Doc::Text("line"@)]
    } else {
        seq![Doc::Text("task"@)]
    }
}

/// The arguments that the tool at position `i` has.
spec fn properties_of(i: int) -> Seq<(Seq<char>, Doc)> {
    if i == 0 {
        crate::mcp::definitions::search_properties()
    } else if i == 1 {
        crate::mcp::definitions::tree_properties()
    } else if i == 2 {
        crate::mcp::definitions::deps_properties()
    } else if i == 3 {
        crate::mcp::definitions::impact_properties()
    } else if i == 4 {
        crate::mcp::definitions::find_pattern_properties()
    } else if i == 5 {
        crate::mcp::definitions::find_related_properties()
    } else {
        crate::mcp::definitions::plan_properties()
    }
}

/// The members of the definition at position `i`.
proof fn each_definition_is_a_tool(i: int)
    requires
        0 <= i < crate::mcp::definitions::names().len(),
    ensures
        ({
            let definition = crate::mcp::definitions::definitions()[i];
            &&& definition.text_member("name"@) == Some(crate::mcp::definitions::names()[i])
            &&& definition.text_member("description"@) == Some(description_of(i))
            &&& definition.member("inputSchema"@) matches Some(schema)
            &&& schema.text_member("type"@) == Some("object"@)
            &&& schema.member("properties"@) == Some(Doc::Object(properties_of(i)))
            &&& schema.member("required"@) == Some(Doc::Array(required_of(i)))
        }),
{
    let name = crate::mcp::definitions::names()[i];
    let definition = crate::mcp::definitions::definitions()[i];
    let made = crate::mcp::definitions::tool(
        name,
        description_of(i),
        properties_of(i),
        required_of(i),
    );
    assert(definition == made);
    crate::mcp::laws::a_definition_has_its_members(
        name,
        description_of(i),
        properties_of(i),
        required_of(i),
    );
}

/// The list of definitions holds a complete one for each tool, in the order of
/// the names.
pub proof fn every_tool_is_listed(i: int)
    requires
        0 <= i < crate::mcp::definitions::names().len(),
    ensures
        crate::mcp::definitions::definitions().len() == crate::mcp::definitions::names().len(),
        crate::mcp::laws::is_complete(
            crate::mcp::definitions::definitions()[i],
            crate::mcp::definitions::names()[i],
        ),
{
    descriptions_hold_something();
    each_definition_is_a_tool(i);
    let properties = properties_of(i);
    let required = required_of(i);
    assert(forall|j: int|
        0 <= j < required.len() ==> #[trigger] required[j] == Doc::Text(properties[j].0));
    assert(crate::mcp::laws::are_declared(required, properties));
}

/// The tools that are listed are those that can be called: no other name is
/// known, and none of theirs is unknown.
pub proof fn the_listed_tools_are_those_known(name: Seq<char>, args: Doc)
    ensures
        crate::mcp::definitions::names().contains(name) <==> !(crate::mcp::work::work_of(
            name,
            args,
        ) matches Err(ToolError::UnknownTool(_))),
{
    let names = crate::mcp::definitions::names();
    assert(names[0] == "search"@ && names[1] == "tree"@ && names[2] == "deps"@);
    assert(names[3] == "impact"@ && names[4] == "find_pattern"@);
    assert(names[5] == "find_related"@ && names[6] == "plan"@);
}

/// A search with results fails on its mode just where the mode is not listed.
pub proof fn the_listed_search_modes_are_those_known(
    query: Seq<char>,
    mode: Seq<char>,
    results: Seq<SearchResult>,
    answer: Result<crate::mcp::answers::Output<Seq<char>>, ErrorView>,
)
    requires
        results.len() > 0,
        crate::mcp::answers::answers_search(query, mode, results, answer),
    ensures
        crate::mcp::definitions::search_modes()->Array_0.contains(Doc::Text(mode))
            <==> answer is Ok,
{
    let modes = crate::mcp::definitions::search_modes()->Array_0;
    assert(modes[0] == Doc::Text("outline"@) && modes[1] == Doc::Text("compact"@));
    assert(modes[2] == Doc::Text("group"@) && modes[3] == Doc::Text("full"@));
}

/// The reports on the dependency graph fail on their mode just where the mode is
/// not listed.
pub proof fn the_listed_graph_modes_are_those_known(
    graph: crate::graph::DependencyGraph,
    file: Seq<char>,
    mode: Seq<char>,
    max_depth: Option<usize>,
)
    ensures
        crate::mcp::definitions::graph_modes()->Array_0.contains(Doc::Text(mode)) <==> !(
        crate::mcp::answers::deps_told(graph, file, mode, max_depth) matches Err(
            ToolError::UnknownGraphMode(_),
        )),
        crate::mcp::definitions::graph_modes()->Array_0.contains(Doc::Text(mode)) <==> !(
        crate::mcp::answers::impact_told(graph, file, mode, max_depth) matches Err(
            ToolError::UnknownGraphMode(_),
        )),
{
    let modes = crate::mcp::definitions::graph_modes()->Array_0;
    assert(modes[0] == Doc::Text("summary"@) && modes[1] == Doc::Text("tree"@));
}

// ---------------------------------------------------------------------------
// Arguments
// ---------------------------------------------------------------------------
/// `args` with one more member.
pub open spec fn with_member(args: Doc, key: Seq<char>, value: Doc) -> Doc {
    Doc::Object(args->Object_0.push((key, value)))
}

/// A new member is found under its key, and the others as before.
pub proof fn a_new_member_hides_no_other(args: Doc, key: Seq<char>, value: Doc, other: Seq<char>)
    requires
        args is Object,
    ensures
        with_member(args, key, value).member(other) == (if other == key {
            Some(value)
        } else {
            args.member(other)
        }),
{
    assert(args->Object_0.push((key, value)).drop_last() == args->Object_0);
}

/// To leave an argument out is to give it as null.
pub proof fn null_is_as_good_as_absent(args: Doc, key: Seq<char>, name: Seq<char>)
    requires
        args is Object,
        args.member(key) is None,
    ensures
        crate::mcp::work::work_of(name, with_member(args, key, Doc::Null))
            == crate::mcp::work::work_of(name, args),
{
    assert forall|other: Seq<char>|
        with_member(args, key, Doc::Null).member(other) == args.member(other) || (
        with_member(args, key, Doc::Null).member(other) == Some(Doc::Null) && args.member(
            other,
        ) is None) by {
        a_new_member_hides_no_other(args, key, Doc::Null, other);
    }
}

/// A list can be given as one string with commas between its items: that is the
/// same as the array of the trimmed items, without the empty ones.
pub proof fn a_list_may_be_one_string(args: Doc, key: Seq<char>, s: Seq<char>)
    requires
        args is Object,
    ensures
        ({
            let items = crate::text::filled(crate::text::pieces(s, ','));
            let array = Doc::Array(items.map_values(|item: Seq<char>| Doc::Text(item)));
            crate::mcp::args::texts_arg(with_member(args, key, Doc::Text(s)), key)
                == crate::mcp::args::texts_arg(with_member(args, key, array), key)
        }),
{
    let items = crate::text::filled(crate::text::pieces(s, ','));
    let docs = items.map_values(|item: Seq<char>| Doc::Text(item));
    a_new_member_hides_no_other(args, key, Doc::Text(s), key);
    a_new_member_hides_no_other(args, key, Doc::Array(docs), key);
    assert(docs.map_values(|d: Doc| d->Text_0) =~= items);
}

/// The arguments that a definition requires.
pub open spec fn required_by(definition: Doc) -> Seq<Doc> {
    definition.member("inputSchema"@)->Some_0.member("required"@)->Some_0->Array_0
}

/// A call without an argument that the definition of the tool requires fails.
pub proof fn a_required_argument_must_be_there(i: int, key: Seq<char>, args: Doc)
    requires
        0 <= i < crate::mcp::definitions::names().len(),
        required_by(crate::mcp::definitions::definitions()[i]).contains(Doc::Text(key)),
        args.member(key) is None,
    ensures
        crate::mcp::work::work_of(crate::mcp::definitions::names()[i], args) is Err,
{
    tool_names_differ();
    each_definition_is_a_tool(i);
}

/// A call without any argument lacks the first one that the definition of the
/// tool requires; where it requires none, nothing is wrong.
pub proof fn an_empty_call_lacks_the_first_required_argument(i: int, args: Doc)
    requires
        0 <= i < crate::mcp::definitions::names().len(),
        forall|key: Seq<char>| (#[trigger] args.member(key)) is None,
    ensures
        ({
            let required = required_by(crate::mcp::definitions::definitions()[i]);
            let work = crate::mcp::work::work_of(crate::mcp::definitions::names()[i], args);
            if required.len() == 0 {
                work is Ok
            } else {
                work matches Err(ToolError::Missing(key)) && required[0] == Doc::Text(key)
            }
        }),
{
    tool_names_differ();
    each_definition_is_a_tool(i);
}

/// No two tools have the same name.
pub proof fn tool_names_differ()
    ensures
        crate::mcp::definitions::names().no_duplicates(),
{
    reveal_strlit("search");
    reveal_strlit("tree");
    reveal_strlit("deps");
    reveal_strlit("impact");
    reveal_strlit("find_pattern");
    reveal_strlit("find_related");
    reveal_strlit("plan");
    let names = crate::mcp::definitions::names();
    assert(names[0].len() == 6 && names[1].len() == 4 && names[2].len() == 4);
    assert(names[3].len() == 6 && names[4].len() == 12 && names[5].len() == 12);
    assert(names[6].len() == 4);
    assert(names[0][0] == 's' && names[3][0] == 'i');
    assert(names[1][0] == 't' && names[2][0] == 'd' && names[6][0] == 'p');
    assert(names[4][5] == 'p' && names[5][5] == 'r');
}

/// The arguments that a definition describes.
pub open spec fn described_by(definition: Doc) -> Seq<(Seq<char>, Doc)> {
    definition.member("inputSchema"@)->Some_0.member("properties"@)->Some_0->Object_0
}

/// Whether one of `properties` is called `key` and declares that default.
pub open spec fn declares_default(
    properties: Seq<(Seq<char>, Doc)>,
    key: Seq<char>,
    default: Doc,
) -> bool {
    exists|j: int|
        0 <= j < properties.len() && (#[trigger] properties[j]).0 == key
            && properties[j].1.member("default"@) == Some(default)
}

proof fn property_members()
    ensures
        forall|kind: Seq<char>, description: Seq<char>|
            Doc::Object(#[trigger] crate::mcp::definitions::property(kind, description)).member(
                "default"@,
            ) is None,
        forall|kind: Seq<char>, description: Seq<char>, key: Seq<char>, value: Doc|
            Doc::Object(
                #[trigger] crate::mcp::definitions::property(kind, description).push((key, value)),
            ).member("default"@) == (if key == "default"@ {
                Some(value)
            } else {
                None
            }),
        forall|kind: Seq<char>, description: Seq<char>, key: Seq<char>, value: Doc, last: Doc|
            Doc::Object(
                #[trigger] crate::mcp::definitions::property(kind, description).push(
                    (key, value),
                ).push(("default"@, last)),
            ).member("default"@) == Some(last),
        "items"@ != "default"@,
{
    reveal_with_fuel(crate::json::last_member, 5);
    reveal_strlit("type");
    reveal_strlit("description");
    reveal_strlit("default");
    reveal_strlit("items");
    assert("type"@.len() == 4 && "description"@.len() == 11 && "default"@.len() == 7);
    assert forall|kind: Seq<char>, description: Seq<char>, key: Seq<char>, value: Doc|
        Doc::Object(
            #[trigger] crate::mcp::definitions::property(kind, description).push((key, value)),
        ).member("default"@) == (if key == "default"@ {
            Some(value)
        } else {
            None
        }) by {
        let base = crate::mcp::definitions::property(kind, description);
        assert(base.push((key, value)).drop_last() == base);
    }
}

/// Whether `default` is what the absent argument `key` of the tool at position
/// `i` stands for.
spec fn is_default(i: int, key: Seq<char>, default: Doc) -> bool {
    ||| key == "path"@ && default == Doc::Text("."@)
    ||| key == "top_k"@ && default == Doc::Number(
        Num::Natural(
            if i == 6 {
                8
            } else {
                10
            },
        ),
    )
    ||| key == "mode"@ && default == Doc::Text(
        if i == 0 {
            "outline"@
        } else {
            "summary"@
        },
    )
    ||| is_flag(key) && default == Doc::Bool(false)
}

/// Whether `key` is the name of a boolean argument.
spec fn is_flag(key: Seq<char>) -> bool {
    key == "include_text_files"@ || key == "symbols"@ || key == "dirs_only"@ || key == "compact"@
}

proof fn a_declared_default_is_one(i: int, key: Seq<char>, default: Doc)
    requires
        0 <= i < crate::mcp::definitions::names().len(),
        declares_default(properties_of(i), key, default),
    ensures
        is_default(i, key, default),
{
    property_members();
}

/// The names of the arguments, by what tells them apart.
proof fn argument_names_differ()
    ensures
        "path"@.len() == 4 && "path"@[0] == 'p',
        "mode"@.len() == 4 && "mode"@[0] == 'm',
        "lang"@.len() == 4 && "lang"@[0] == 'l',
        "file"@.len() == 4 && "file"@[0] == 'f',
        "line"@.len() == 4 && "line"@[0] == 'l',
        "task"@.len() == 4 && "task"@[0] == 't',
        "query"@.len() == 5 && "query"@[0] == 'q',
        "top_k"@.len() == 5 && "top_k"@[0] == 't',
        "symbols"@.len() == 7 && "symbols"@[0] == 's',
        "pattern"@.len() == 7 && "pattern"@[0] == 'p',
        "compact"@.len() == 7 && "compact"@[0] == 'c',
        "dirs_only"@.len() == 9 && "dirs_only"@[0] == 'd',
        "max_depth"@.len() == 9 && "max_depth"@[0] == 'm',
        "include_text_files"@.len() == 18,
{
    reveal_strlit("path");
    reveal_strlit("mode");
    reveal_strlit("lang");
    reveal_strlit("file");
    reveal_strlit("line");
    reveal_strlit("task");
    reveal_strlit("query");
    reveal_strlit("top_k");
    reveal_strlit("symbols");
    reveal_strlit("pattern");
    reveal_strlit("compact");
    reveal_strlit("dirs_only");
    reveal_strlit("max_depth");
    reveal_strlit("include_text_files");
}

proof fn a_default_changes_nothing(i: int, key: Seq<char>, default: Doc, args: Doc)
    requires
        is_default(i, key, default),
        args is Object,
        args.member(key) is None,
    ensures
        ({
            let given = with_member(args, key, default);
            &&& i == 0 ==> crate::mcp::work::search_work(given) == crate::mcp::work::search_work(
                args,
            )
            &&& crate::mcp::work::tree_work(given) == crate::mcp::work::tree_work(args)
            &&& i != 0 ==> crate::mcp::work::deps_work(given) == crate::mcp::work::deps_work(args)
            &&& crate::mcp::work::pattern_work(given) == crate::mcp::work::pattern_work(args)
            &&& i != 6 ==> crate::mcp::work::related_work(given)
                == crate::mcp::work::related_work(args)
            &&& i == 6 ==> crate::mcp::work::plan_work(given) == crate::mcp::work::plan_work(args)
        }),
{
    argument_names_differ();
    let given = with_member(args, key, default);
    assert forall|other: Seq<char>| #[trigger] given.member(other) == (if other == key {
        Some(default)
    } else {
        args.member(other)
    }) by {
        a_new_member_hides_no_other(args, key, default, other);
    }
}

/// The defaults that a definition declares are those that hold: to leave an
/// argument out is to give it its default.
pub proof fn the_declared_defaults_hold(i: int, key: Seq<char>, default: Doc, args: Doc)
    requires
        0 <= i < crate::mcp::definitions::names().len(),
        declares_default(
            described_by(crate::mcp::definitions::definitions()[i]),
            key,
            default,
        ),
        args is Object,
        args.member(key) is None,
    ensures
        crate::mcp::work::work_of(
            crate::mcp::definitions::names()[i],
            with_member(args, key, default),
        ) == crate::mcp::work::work_of(crate::mcp::definitions::names()[i], args),
{
    each_definition_is_a_tool(i);
    a_declared_default_is_one(i, key, default);
    tool_names_differ();
    a_default_changes_nothing(i, key, default, args);
}

// ---------------------------------------------------------------------------
// Types
// ---------------------------------------------------------------------------
/// Whether a value is of the type that a schema names. An integer is not
/// negative, and a list may be one string with commas between its items.
pub open spec fn is_of_type(kind: Seq<char>, given: Doc) -> bool {
    ||| kind == "string"@ && given is Text
    ||| kind == "integer"@ && given is Number && given->Number_0 is Natural
    ||| kind == "boolean"@ && given is Bool
    ||| kind == "array"@ && given is Text
    ||| kind == "array"@ && given is Array && forall|j: int|
        0 <= j < given->Array_0.len() ==> (#[trigger] given->Array_0[j]) is Text
}

/// The type of the argument `key` of the tool at position `i`.
spec fn kind_of(i: int, key: Seq<char>) -> Seq<char> {
    if key == "top_k"@ || key == "max_depth"@ || key == "line"@ {
        "integer"@
    } else if is_flag(key) {
        "boolean"@
    } else if key == "lang"@ && i == 1 {
        "array"@
    } else {
        "string"@
    }
}

proof fn property_types()
    ensures
        forall|kind: Seq<char>, description: Seq<char>|
            Doc::Object(
                #[trigger] crate::mcp::definitions::property(kind, description),
            ).text_member("type"@) == Some(kind),
        forall|kind: Seq<char>, description: Seq<char>, key: Seq<char>, value: Doc|
            key != "type"@ ==> Doc::Object(
                #[trigger] crate::mcp::definitions::property(kind, description).push((key, value)),
            ).text_member("type"@) == Some(kind),
        forall|
            kind: Seq<char>,
            description: Seq<char>,
            key: Seq<char>,
            value: Doc,
            other: Seq<char>,
            last: Doc,
        |
            key != "type"@ && other != "type"@ ==> Doc::Object(
                #[trigger] crate::mcp::definitions::property(kind, description).push(
                    (key, value),
                ).push((other, last)),
            ).text_member("type"@) == Some(kind),
        "default"@ != "type"@,
        "enum"@ != "type"@,
        "items"@ != "type"@,
{
    reveal_with_fuel(crate::json::last_member, 5);
    reveal_strlit("type");
    reveal_strlit("description");
    reveal_strlit("default");
    reveal_strlit("items");
    reveal_strlit("enum");
    assert("type"@.len() == 4 && "description"@.len() == 11 && "default"@.len() == 7);
    assert("items"@.len() == 5 && "enum"@.len() == 4 && "enum"@[0] == 'e' && "type"@[0] == 't');
    assert forall|kind: Seq<char>, description: Seq<char>, key: Seq<char>, value: Doc|
        key != "type"@ implies Doc::Object(
        #[trigger] crate::mcp::definitions::property(kind, description).push((key, value)),
    ).text_member("type"@) == Some(kind) by {
        let base = crate::mcp::definitions::property(kind, description);
        assert(base.push((key, value)).drop_last() == base);
    }
    assert forall|
        kind: Seq<char>,
        description: Seq<char>,
        key: Seq<char>,
        value: Doc,
        other: Seq<char>,
        last: Doc,
    |
        key != "type"@ && other != "type"@ implies Doc::Object(
        #[trigger] crate::mcp::definitions::property(kind, description).push((key, value)).push(
            (other, last),
        ),
    ).text_member("type"@) == Some(kind) by {
        let base = crate::mcp::definitions::property(kind, description).push((key, value));
        assert(base.push((other, last)).drop_last() == base);
    }
}

proof fn each_argument_has_its_type(i: int)
    requires
        0 <= i < crate::mcp::definitions::names().len(),
    ensures
        forall|j: int|
            0 <= j < properties_of(i).len() ==> (#[trigger] properties_of(i)[j]).1.text_member(
                "type"@,
            ) == Some(kind_of(i, properties_of(i)[j].0)),
{
    property_types();
    argument_names_differ();
    lang_is_not_line();
}

proof fn lang_is_not_line()
    ensures
        "lang"@ != "line"@,
{
    reveal_strlit("lang");
    reveal_strlit("line");
    assert("lang"@[1] == 'a' && "line"@[1] == 'i');
}

proof fn types_differ()
    ensures
        "string"@ != "integer"@ && "string"@ != "boolean"@ && "string"@ != "array"@,
        "integer"@ != "boolean"@ && "integer"@ != "array"@ && "boolean"@ != "array"@,
{
    reveal_strlit("string");
    reveal_strlit("integer");
    reveal_strlit("boolean");
    reveal_strlit("array");
    assert("string"@.len() == 6 && "integer"@.len() == 7 && "boolean"@.len() == 7);
    assert("array"@.len() == 5 && "integer"@[0] == 'i' && "boolean"@[0] == 'b');
}

/// The types that a definition declares are those that hold: an argument that is
/// there and not of its type makes the call fail.
pub proof fn a_value_of_another_type_is_refused(i: int, j: int, args: Doc, given: Doc)
    requires
        0 <= i < crate::mcp::definitions::names().len(),
        0 <= j < described_by(crate::mcp::definitions::definitions()[i]).len(),
        args.member(described_by(crate::mcp::definitions::definitions()[i])[j].0) == Some(given),
        !(given is Null),
        !is_of_type(
            described_by(crate::mcp::definitions::definitions()[i])[j].1.text_member(
                "type"@,
            )->Some_0,
            given,
        ),
    ensures
        crate::mcp::work::work_of(crate::mcp::definitions::names()[i], args) is Err,
{
    each_definition_is_a_tool(i);
    each_argument_has_its_type(i);
    types_differ();
    tool_names_differ();
    argument_names_differ();
    lang_is_not_line();
    a_fault_stops_the_tool(i, j, args, given);
}

proof fn a_fault_stops_the_tool(i: int, j: int, args: Doc, given: Doc)
    requires
        0 <= i < crate::mcp::definitions::names().len(),
        0 <= j < properties_of(i).len(),
        args.member(properties_of(i)[j].0) == Some(given),
        !(given is Null),
        !is_of_type(kind_of(i, properties_of(i)[j].0), given),
    ensures
        crate::mcp::work::work_of(crate::mcp::definitions::names()[i], args) is Err,
{
    types_differ();
    argument_names_differ();
    lang_is_not_line();
    tool_names_differ();
    if i == 0 {
        assert(crate::mcp::work::search_work(args) is Err);
    } else if i == 1 {
        assert(crate::mcp::work::tree_work(args) is Err);
    } else if i == 2 {
        assert(crate::mcp::work::deps_work(args) is Err);
    } else if i == 3 {
        assert(crate::mcp::work::impact_work(args) is Err);
    } else if i == 4 {
        assert(crate::mcp::work::pattern_work(args) is Err);
    } else if i == 5 {
        assert(crate::mcp::work::related_work(args) is Err);
    } else {
        assert(crate::mcp::work::plan_work(args) is Err);
    }
}

/// Whether an argument is absent, or of its type.
pub open spec fn is_in_order(property: (Seq<char>, Doc), args: Doc) -> bool {
    ||| args.member(property.0) is None
    ||| args.member(property.0) == Some(Doc::Null)
    ||| is_of_type(property.1.text_member("type"@)->Some_0, args.member(property.0)->Some_0)
}

/// Whether the argument of that name is there.
pub open spec fn is_there(name: Doc, args: Doc) -> bool {
    &&& args.member(name->Text_0) is Some
    &&& args.member(name->Text_0) != Some(Doc::Null)
}

/// A call with all the arguments that the definition of the tool requires, and
/// each one that it describes of its type or absent, is in order.
pub proof fn a_call_by_the_definition_is_in_order(i: int, args: Doc)
    requires
        0 <= i < crate::mcp::definitions::names().len(),
        forall|j: int|
            0 <= j < described_by(crate::mcp::definitions::definitions()[i]).len() ==> is_in_order(
                #[trigger] described_by(crate::mcp::definitions::definitions()[i])[j],
                args,
            ),
        forall|k: int|
            0 <= k < required_by(crate::mcp::definitions::definitions()[i]).len() ==> is_there(
                #[trigger] required_by(crate::mcp::definitions::definitions()[i])[k],
                args,
            ),
    ensures
        crate::mcp::work::work_of(crate::mcp::definitions::names()[i], args) is Ok,
{
    each_definition_is_a_tool(i);
    each_argument_has_its_type(i);
    types_differ();
    tool_names_differ();
    argument_names_differ();
    lang_is_not_line();
    let p = properties_of(i);
    let r = required_of(i);
    let described = described_by(crate::mcp::definitions::definitions()[i]);
    let required = required_by(crate::mcp::definitions::definitions()[i]);
    assert(described == p && required == r);
    assert forall|j: int| 0 <= j < p.len() implies is_in_order(#[trigger] p[j], args) by {
        assert(is_in_order(described[j], args));
    }
    assert forall|k: int| 0 <= k < r.len() implies is_there(#[trigger] r[k], args) by {
        assert(is_there(required[k], args));
    }
    assert(p.len() >= 4);
    assert(is_in_order(p[0], args) && is_in_order(p[1], args));
    assert(is_in_order(p[2], args) && is_in_order(p[3], args));
    assert(p.len() > 4 ==> is_in_order(p[4], args));
    assert(p.len() > 5 ==> is_in_order(p[5], args));
    assert(r.len() > 0 ==> is_there(r[0], args));
    assert(r.len() > 1 ==> is_there(r[1], args));
    if i == 0 {
        assert(crate::mcp::work::search_work(args) is Ok);
    } else if i == 1 {
        assert(crate::mcp::work::tree_work(args) is Ok);
    } else if i == 2 {
        assert(crate::mcp::work::deps_work(args) is Ok);
    } else if i == 3 {
        assert(crate::mcp::work::deps_work(args) is Ok);
    } else if i == 4 {
        assert(crate::mcp::work::pattern_work(args) is Ok);
    } else if i == 5 {
        assert(crate::mcp::work::related_work(args) is Ok);
    } else {
        assert(crate::mcp::work::plan_work(args) is Ok);
    }
}

/// The work of a tool depends on nothing but the arguments that its definition
/// describes.
pub proof fn only_described_arguments_count(i: int, a: Doc, b: Doc)
    requires
        0 <= i < crate::mcp::definitions::names().len(),
        forall|j: int|
            0 <= j < described_by(crate::mcp::definitions::definitions()[i]).len() ==> a.member(
                (#[trigger] described_by(crate::mcp::definitions::definitions()[i])[j]).0,
            ) == b.member(described_by(crate::mcp::definitions::definitions()[i])[j].0),
    ensures
        crate::mcp::work::work_of(crate::mcp::definitions::names()[i], a)
            == crate::mcp::work::work_of(crate::mcp::definitions::names()[i], b),
{
    each_definition_is_a_tool(i);
    let p = properties_of(i);
    let described = described_by(crate::mcp::definitions::definitions()[i]);
    assert(described == p);
    assert forall|j: int| 0 <= j < p.len() implies a.member((#[trigger] p[j]).0) == b.member(
        p[j].0,
    ) by {
        assert(a.member(described[j].0) == b.member(described[j].0));
    }
    like_arguments_make_like_work(i, a, b);
}

#[verifier::spinoff_prover]
#[verifier::rlimit(40)]
proof fn like_arguments_make_like_work(i: int, a: Doc, b: Doc)
    requires
        0 <= i < crate::mcp::definitions::names().len(),
        forall|j: int|
            0 <= j < properties_of(i).len() ==> a.member((#[trigger] properties_of(i)[j]).0)
                == b.member(properties_of(i)[j].0),
    ensures
        crate::mcp::work::work_of(crate::mcp::definitions::names()[i], a)
            == crate::mcp::work::work_of(crate::mcp::definitions::names()[i], b),
{
    tool_names_differ();
    let p = properties_of(i);
    assert(p.len() >= 4);
    assert(a.member(p[0].0) == b.member(p[0].0) && a.member(p[1].0) == b.member(p[1].0));
    assert(a.member(p[2].0) == b.member(p[2].0) && a.member(p[3].0) == b.member(p[3].0));
    assert(p.len() > 4 ==> a.member(p[4].0) == b.member(p[4].0));
    assert(p.len() > 5 ==> a.member(p[5].0) == b.member(p[5].0));
    if i == 0 {
        assert(crate::mcp::work::search_work(a) == crate::mcp::work::search_work(b));
    } else if i == 1 {
        assert(crate::mcp::work::tree_work(a) == crate::mcp::work::tree_work(b));
    } else if i == 2 || i == 3 {
        assert(crate::mcp::work::deps_work(a) == crate::mcp::work::deps_work(b));
    } else if i == 4 {
        assert(crate::mcp::work::pattern_work(a) == crate::mcp::work::pattern_work(b));
    } else if i == 5 {
        assert(crate::mcp::work::related_work(a) == crate::mcp::work::related_work(b));
    } else {
        assert(crate::mcp::work::plan_work(a) == crate::mcp::work::plan_work(b));
    }
}

proof fn meanings_hold_something()
    ensures
        crate::mcp::definitions::SEARCH_QUERY@.len() > 0,
        crate::mcp::definitions::SEARCH_TOP_K@.len() > 0,
        crate::mcp::definitions::SEARCH_MODE@.len() > 0,
        crate::mcp::definitions::TREE_SYMBOLS@.len() > 0,
        crate::mcp::definitions::TREE_DIRS_ONLY@.len() > 0,
        crate::mcp::definitions::TREE_MAX_DEPTH@.len() > 0,
        crate::mcp::definitions::TREE_LANG@.len() > 0,
        crate::mcp::definitions::DEPS_FILE@.len() > 0,
        crate::mcp::definitions::DEPS_MODE@.len() > 0,
        crate::mcp::definitions::DEPS_MAX_DEPTH@.len() > 0,
        crate::mcp::definitions::IMPACT_MODE@.len() > 0,
        crate::mcp::definitions::FIND_PATTERN_PATTERN@.len() > 0,
        crate::mcp::definitions::FIND_PATTERN_PATH@.len() > 0,
        crate::mcp::definitions::FIND_PATTERN_LANG@.len() > 0,
        crate::mcp::definitions::FIND_PATTERN_COMPACT@.len() > 0,
        crate::mcp::definitions::FIND_RELATED_FILE@.len() > 0,
        crate::mcp::definitions::FIND_RELATED_LINE@.len() > 0,
        crate::mcp::definitions::PLAN_TASK@.len() > 0,
        crate::mcp::definitions::PLAN_TOP_K@.len() > 0,
        crate::mcp::definitions::PATH@.len() > 0,
        crate::mcp::definitions::INCLUDE_TEXT_FILES@.len() > 0,
{
    reveal_strlit("Natural-language feature description, symbol, or keyword");
    reveal_strlit("Max results");
    reveal_strlit("outline: one signature line per match (cheapest). compact: path + matching lines. group: directory-grouped, max 3 match lines per chunk. full: whole chunk bodies.");
    reveal_strlit("Append top-level symbols per file");
    reveal_strlit("Show directories only");
    reveal_strlit("Limit tree depth");
    reveal_strlit("Filter to languages, e.g. [\"rust\", \"python\"]");
    reveal_strlit("File path relative to the indexed root, as shown in search results");
    reveal_strlit("summary: symbols + direct imports + direct users. tree: transitive import tree.");
    reveal_strlit("Max tree depth (mode=tree)");
    reveal_strlit("summary: flat list of affected files. tree: reverse-dependency tree.");
    reveal_strlit("ast-grep pattern, e.g. \"fn $NAME($$$)\"");
    reveal_strlit("Directory to search (git URLs are not supported by this tool). Default: server working directory");
    reveal_strlit("Language hint (rust, python, javascript, ...)");
    reveal_strlit("One JSON object per match (ast-grep --json=stream)");
    reveal_strlit("File path as shown in search results");
    reveal_strlit("Line number (1-indexed)");
    reveal_strlit("Natural-language task or feature to investigate");
    reveal_strlit("Number of candidate chunks to use");
    reveal_strlit("Directory to index, or a git URL (shallow-cloned). Default: server working directory");
    reveal_strlit("Also index non-code text files (.md, .yaml, .json, ...)");
}

proof fn property_meanings()
    ensures
        forall|kind: Seq<char>, description: Seq<char>|
            Doc::Object(
                #[trigger] crate::mcp::definitions::property(kind, description),
            ).text_member("description"@) == Some(description),
        forall|kind: Seq<char>, description: Seq<char>, key: Seq<char>, value: Doc|
            key != "description"@ ==> Doc::Object(
                #[trigger] crate::mcp::definitions::property(kind, description).push((key, value)),
            ).text_member("description"@) == Some(description),
        forall|
            kind: Seq<char>,
            description: Seq<char>,
            key: Seq<char>,
            value: Doc,
            other: Seq<char>,
            last: Doc,
        |
            key != "description"@ && other != "description"@ ==> {
                let made = #[trigger] crate::mcp::definitions::property(kind, description).push(
                    (key, value),
                ).push((other, last));
                &&& Doc::Object(made).text_member("description"@) == Some(description)
                &&& key != other ==> Doc::Object(made).member(key) == Some(value)
            },
        "default"@ != "description"@,
        "enum"@ != "description"@,
        "items"@ != "description"@,
        "enum"@ != "default"@,
{
    reveal_with_fuel(crate::json::last_member, 5);
    reveal_strlit("description");
    reveal_strlit("default");
    reveal_strlit("items");
    reveal_strlit("enum");
    assert("description"@.len() == 11 && "default"@.len() == 7);
    assert("items"@.len() == 5 && "enum"@.len() == 4);
    assert forall|kind: Seq<char>, description: Seq<char>, key: Seq<char>, value: Doc|
        key != "description"@ implies Doc::Object(
        #[trigger] crate::mcp::definitions::property(kind, description).push((key, value)),
    ).text_member("description"@) == Some(description) by {
        let base = crate::mcp::definitions::property(kind, description);
        assert(base.push((key, value)).drop_last() == base);
    }
    assert forall|
        kind: Seq<char>,
        description: Seq<char>,
        key: Seq<char>,
        value: Doc,
        other: Seq<char>,
        last: Doc,
    |
        key != "description"@ && other != "description"@ implies {
        let made = #[trigger] crate::mcp::definitions::property(kind, description).push(
            (key, value),
        ).push((other, last));
        &&& Doc::Object(made).text_member("description"@) == Some(description)
        &&& key != other ==> Doc::Object(made).member(key) == Some(value)
    } by {
        let base = crate::mcp::definitions::property(kind, description).push((key, value));
        assert(base.push((other, last)).drop_last() == base);
        assert(base.drop_last() == crate::mcp::definitions::property(kind, description));
    }
}

/// A definition says of each argument that it describes what it means.
pub proof fn every_argument_is_explained(i: int, j: int)
    requires
        0 <= i < crate::mcp::definitions::names().len(),
        0 <= j < described_by(crate::mcp::definitions::definitions()[i]).len(),
    ensures
        described_by(crate::mcp::definitions::definitions()[i])[j].1.text_member("description"@)
            matches Some(meaning) && meaning.len() > 0,
{
    each_definition_is_a_tool(i);
    property_meanings();
    meanings_hold_something();
    assert(described_by(crate::mcp::definitions::definitions()[i]) == properties_of(i));
}

/// The definitions list the modes of a search and of the reports on the
/// dependency graph.
pub proof fn the_modes_are_listed(i: int, j: int)
    requires
        0 <= i < crate::mcp::definitions::names().len(),
        0 <= j < described_by(crate::mcp::definitions::definitions()[i]).len(),
        described_by(crate::mcp::definitions::definitions()[i])[j].0 == "mode"@,
    ensures
        ({
            let property = described_by(crate::mcp::definitions::definitions()[i])[j].1;
            property.member("enum"@) == Some(
                if i == 0 {
                    crate::mcp::definitions::search_modes()
                } else {
                    crate::mcp::definitions::graph_modes()
                },
            )
        }),
{
    each_definition_is_a_tool(i);
    property_meanings();
    argument_names_differ();
    assert(described_by(crate::mcp::definitions::definitions()[i]) == properties_of(i));
}

/// An argument that is neither required nor a limit or a filter has a default,
/// and its definition declares it.
pub proof fn optional_arguments_declare_their_default(i: int, j: int)
    requires
        0 <= i < crate::mcp::definitions::names().len(),
        0 <= j < described_by(crate::mcp::definitions::definitions()[i]).len(),
    ensures
        ({
            let definition = crate::mcp::definitions::definitions()[i];
            let (key, property) = described_by(definition)[j];
            ||| required_by(definition).contains(Doc::Text(key))
            ||| key == "max_depth"@
            ||| key == "lang"@
            ||| property.member("default"@) is Some
        }),
{
    each_definition_is_a_tool(i);
    property_members();
    let p = properties_of(i);
    let r = required_of(i);
    assert(described_by(crate::mcp::definitions::definitions()[i]) == p);
    assert(required_by(crate::mcp::definitions::definitions()[i]) == r);
    assert(r.len() > 0 ==> r.contains(r[0]));
    assert(r.len() > 1 ==> r.contains(r[1]));
}

/// The items of a list are strings.
pub proof fn a_list_is_one_of_strings(i: int, j: int)
    requires
        0 <= i < crate::mcp::definitions::names().len(),
        0 <= j < described_by(crate::mcp::definitions::definitions()[i]).len(),
        described_by(crate::mcp::definitions::definitions()[i])[j].1.text_member("type"@) == Some(
            "array"@,
        ),
    ensures
        described_by(crate::mcp::definitions::definitions()[i])[j].1.member("items"@) matches Some(
            items,
        ) && items.text_member("type"@) == Some("string"@),
{
    each_definition_is_a_tool(i);
    each_argument_has_its_type(i);
    types_differ();
    argument_names_differ();
    let p = properties_of(i);
    assert(described_by(crate::mcp::definitions::definitions()[i]) == p);
    assert(p[j].1.text_member("type"@) == Some(kind_of(i, p[j].0)));
    assert(i == 1 && p[j].0 == "lang"@);
    assert(j == 4);
    let items: Seq<(Seq<char>, Doc)> = seq![("type"@, Doc::Text("string"@))];
    assert(items.last() == ("type"@, Doc::Text("string"@)));
}

/// Neither a definition nor its schema has other members than those that tell of
/// the tool.
pub proof fn a_definition_has_no_other_members(i: int)
    requires
        0 <= i < crate::mcp::definitions::names().len(),
    ensures
        crate::mcp::definitions::definitions()[i]->Object_0.len() == 3,
        crate::mcp::definitions::definitions()[i].member(
            "inputSchema"@,
        )->Some_0->Object_0.len() == 3,
{
    let made = crate::mcp::definitions::tool(
        crate::mcp::definitions::names()[i],
        description_of(i),
        properties_of(i),
        required_of(i),
    );
    assert(crate::mcp::definitions::definitions()[i] == made);
    crate::mcp::laws::a_definition_has_its_members(
        crate::mcp::definitions::names()[i],
        description_of(i),
        properties_of(i),
        required_of(i),
    );
}

} // verus!
