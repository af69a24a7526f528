//! The dependency and impact reports.

use vstd::prelude::*;
use vstd::string::*;

use crate::graph::{DependencyGraph, FileNode, Symbol};
use crate::text::number;

verus! {

/// A heading with a count: `name (n):`.
pub open spec fn heading(name: Seq<char>, n: nat) -> Seq<char> {
    name + " ("@ + crate::text::decimal(n) + "):\n"@
}

fn head(name: &str, n: usize) -> (r: String)
    ensures
        r@ == heading(name@, n as nat),
{
    let mut r = name.to_owned();
    r.append(" (");
    r.append(&number(n));
    r.append("):\n");
    r
}

/// The paths, each on an indented line.
pub open spec fn path_lines(paths: Seq<Seq<char>>) -> Seq<char>
    decreases paths.len(),
{
    if paths.len() == 0 {
        Seq::empty()
    } else {
        path_lines(paths.drop_last()) + ("  "@ + paths.last() + "\n"@)
    }
}

fn list_paths(paths: &Vec<String>) -> (r: String)
    ensures
        r@ == path_lines(paths.deep_view()),
{
    let mut out = String::new();
    let ghost all = paths.deep_view();
    assert(all.take(0) == Seq::<Seq<char>>::empty());
    for i in 0..paths.len()
        invariant
            all == paths.deep_view(),
            out@ == path_lines(all.take(i as int)),
    {
        let mut line = "  ".to_owned();
        line.append(&paths[i]);
        line.append("\n");
        out.append(&line);
        assert(all.take(i + 1).drop_last() == all.take(i as int));
    }
    assert(all.take(paths.len() as int) == all);
    out
}

/// A symbol on its line.
pub open spec fn symbol_line(s: Symbol) -> Seq<char> {
    "  "@ + s.kind@ + " "@ + s.name@ + " (line "@ + crate::text::decimal(s.line as nat) + ")\n"@
}

pub open spec fn symbol_lines(symbols: Seq<Symbol>) -> Seq<char>
    decreases symbols.len(),
{
    if symbols.len() == 0 {
        Seq::empty()
    } else {
        symbol_lines(symbols.drop_last()) + symbol_line(symbols.last())
    }
}

fn list_symbols(symbols: &Vec<Symbol>) -> (r: String)
    ensures
        r@ == symbol_lines(symbols@),
{
    let mut out = String::new();
    assert(symbols@.take(0) == Seq::<Symbol>::empty());
    for i in 0..symbols.len()
        invariant
            out@ == symbol_lines(symbols@.take(i as int)),
    {
        let symbol = &symbols[i];
        let mut line = "  ".to_owned();
        line.append(&symbol.kind);
        line.append(" ");
        line.append(&symbol.name);
        line.append(" (line ");
        line.append(&number(symbol.line));
        line.append(")\n");
        out.append(&line);
        assert(symbols@.take(i + 1).drop_last() == symbols@.take(i as int));
    }
    assert(symbols@.take(symbols.len() as int) == symbols@);
    out
}

/// The section on the symbols that a file defines, if there are any.
pub open spec fn symbol_section(symbols: Seq<Symbol>) -> Seq<char> {
    if symbols.len() == 0 {
        Seq::empty()
    } else {
        heading("Symbols"@, symbols.len()) + symbol_lines(symbols) + "\n"@
    }
}

/// The section on the files that a file imports, if there are any.
pub open spec fn import_section(imports: Seq<Seq<char>>) -> Seq<char> {
    if imports.len() == 0 {
        Seq::empty()
    } else {
        heading("Depends on"@, imports.len()) + path_lines(imports) + "\n"@
    }
}

/// The section on the files that import a file, if there are any.
pub open spec fn user_section(users: Seq<Seq<char>>) -> Seq<char> {
    if users.len() == 0 {
        Seq::empty()
    } else {
        heading("Used by"@, users.len()) + path_lines(users)
    }
}

/// The report on one file: a section for its symbols, its imports and its
/// users, each only where it has something to list, or a line that says that
/// there is nothing.
pub open spec fn report(file: Seq<char>, node: FileNode, users: Seq<Seq<char>>) -> Seq<char> {
    let symbols = node.symbols@;
    let imports = node.depends_on.deep_view();
    let opening = "File: "@ + file + "\n\n"@;
    if symbols.len() == 0 && imports.len() == 0 && users.len() == 0 {
        opening + "No dependencies or symbols found.\n"@
    } else {
        opening + symbol_section(symbols) + import_section(imports) + user_section(users)
    }
}

/// Human-readable deps report: symbols, direct imports, and direct users.
/// Returns `None` if the file is not in the dependency graph.
pub fn deps_summary(graph: &DependencyGraph, file_path: &str) -> (r: Option<String>)
    ensures
        r.deep_view() == (match graph.node_of(file_path@) {
            Some(node) => Some(report(file_path@, node, graph.dependents_of(file_path@))),
            None => None,
        }),
{
    let node = match graph.deps(file_path) {
        Some(node) => node,
        None => {
            return None;
        },
    };
    let dependents = graph.dependents(file_path);
    let mut out = "File: ".to_owned();
    out.append(file_path);
    out.append("\n\n");
    let ghost opening = out@;
    if node.symbols.len() > 0 {
        let mut section = head("Symbols", node.symbols.len());
        section.append(&list_symbols(&node.symbols));
        section.append("\n");
        out.append(&section);
    }
    assert(out@ == opening + symbol_section(node.symbols@));
    let ghost upper = out@;
    if node.depends_on.len() > 0 {
        let mut section = head("Depends on", node.depends_on.len());
        section.append(&list_paths(&node.depends_on));
        section.append("\n");
        out.append(&section);
    }
    assert(out@ == upper + import_section(node.depends_on.deep_view()));
    let ghost middle = out@;
    if dependents.len() > 0 {
        let mut section = head("Used by", dependents.len());
        section.append(&list_paths(&dependents));
        out.append(&section);
    }
    assert(out@ == middle + user_section(dependents.deep_view()));
    if node.symbols.len() == 0 && node.depends_on.len() == 0 && dependents.len() == 0 {
        assert(out@ == opening);
        out.append("No dependencies or symbols found.\n");
    }
    Some(out)
}

/// The report on the files that a change reaches.
pub open spec fn impact_text(file: Seq<char>, affected: Seq<Seq<char>>) -> Seq<char> {
    if affected.len() == 0 {
        "No files affected by changes to "@ + file + ".\n"@
    } else {
        "Impact of "@ + file + " ("@ + crate::text::decimal(affected.len())
            + " files affected):\n\n"@ + path_lines(affected)
    }
}

/// Human-readable impact report: all files transitively affected by a change.
pub fn impact_summary(graph: &DependencyGraph, file_path: &str) -> (r: String)
    ensures
        r@ == impact_text(file_path@, graph.impact_of(file_path@)),
{
    let affected = graph.impact(file_path);
    if affected.len() == 0 {
        let mut out = "No files affected by changes to ".to_owned();
        out.append(file_path);
        out.append(".\n");
        out
    } else {
        let mut out = "Impact of ".to_owned();
        out.append(file_path);
        out.append(" (");
        out.append(&number(affected.len()));
        out.append(" files affected):\n\n");
        out.append(&list_paths(&affected));
        out
    }
}

/// The paths of two lists are listed one after the other, each on an indented
/// line.
pub proof fn paths_are_listed_one_by_one(a: Seq<Seq<char>>, path: Seq<char>, b: Seq<Seq<char>>)
    ensures
        path_lines(a + b) == path_lines(a) + path_lines(b),
        path_lines(Seq::empty()).len() == 0,
        path_lines(seq![path]) == "  "@ + path + "\n"@,
    decreases b.len(),
{
    reveal_with_fuel(path_lines, 2);
    assert(seq![path].drop_last() == Seq::<Seq<char>>::empty());
    assert(Seq::<char>::empty() + ("  "@ + path + "\n"@) == "  "@ + path + "\n"@);
    if b.len() == 0 {
        assert(a + b == a);
        assert(path_lines(a) + path_lines(b) == path_lines(a));
    } else {
        paths_are_listed_one_by_one(a, path, b.drop_last());
        assert((a + b).drop_last() == a + b.drop_last());
        let line = "  "@ + b.last() + "\n"@;
        assert(path_lines(a) + path_lines(b.drop_last()) + line == path_lines(a) + (path_lines(
            b.drop_last(),
        ) + line));
    }
}

/// The symbols of two lists are listed one after the other, each on an indented
/// line with its kind, its name and its line.
pub proof fn symbols_are_listed_one_by_one(a: Seq<Symbol>, symbol: Symbol, b: Seq<Symbol>)
    ensures
        symbol_lines(a + b) == symbol_lines(a) + symbol_lines(b),
        symbol_lines(Seq::empty()).len() == 0,
        symbol_lines(seq![symbol]) == "  "@ + symbol.kind@ + " "@ + symbol.name@ + " (line "@
            + crate::text::decimal(symbol.line as nat) + ")\n"@,
    decreases b.len(),
{
    reveal_with_fuel(symbol_lines, 2);
    assert(seq![symbol].drop_last() == Seq::<Symbol>::empty());
    assert(Seq::<char>::empty() + symbol_line(symbol) == symbol_line(symbol));
    if b.len() == 0 {
        assert(a + b == a);
        assert(symbol_lines(a) + symbol_lines(b) == symbol_lines(a));
    } else {
        symbols_are_listed_one_by_one(a, symbol, b.drop_last());
        assert((a + b).drop_last() == a + b.drop_last());
        let line = symbol_line(b.last());
        assert(symbol_lines(a) + symbol_lines(b.drop_last()) + line == symbol_lines(a) + (
        symbol_lines(b.drop_last()) + line));
    }
}

/// Whether `part` stands somewhere in `text`.
pub open spec fn stands_in(part: Seq<char>, text: Seq<char>) -> bool {
    exists|before: Seq<char>, behind: Seq<char>| text == #[trigger] (before + part + behind)
}

proof fn a_part_stands_in(before: Seq<char>, part: Seq<char>, behind: Seq<char>, text: Seq<char>)
    requires
        text =~= before + part + behind,
    ensures
        stands_in(part, text),
{
}

/// The sections of a report do not depend on each other. Each of the three lists
/// that holds something has its section, with the number of its items in the
/// heading and all of them below it; and where one of the lists holds something,
/// the report is the opening and the sections, one after another.
pub proof fn the_sections_are_independent(file: Seq<char>, node: FileNode, users: Seq<Seq<char>>)
    ensures
        ({
            let text = report(file, node, users);
            let symbols = node.symbols@;
            let imports = node.depends_on.deep_view();
            let opening = "File: "@ + file + "\n\n"@;
            let first = if symbols.len() > 0 {
                "Symbols"@ + " ("@ + crate::text::decimal(symbols.len()) + "):\n"@ + symbol_lines(
                    symbols,
                ) + "\n"@
            } else {
                Seq::empty()
            };
            let second = if imports.len() > 0 {
                "Depends on"@ + " ("@ + crate::text::decimal(imports.len()) + "):\n"@ + path_lines(
                    imports,
                ) + "\n"@
            } else {
                Seq::empty()
            };
            let third = if users.len() > 0 {
                "Used by"@ + " ("@ + crate::text::decimal(users.len()) + "):\n"@ + path_lines(users)
            } else {
                Seq::empty()
            };
            &&& stands_in(first, text)
            &&& stands_in(second, text)
            &&& stands_in(third, text)
            &&& symbols.len() > 0 || imports.len() > 0 || users.len() > 0 ==> text == opening
                + first + second + third
            &&& symbols.len() == 0 && imports.len() == 0 && users.len() == 0 ==> text == opening
                + "No dependencies or symbols found.\n"@
        }),
{
    let text = report(file, node, users);
    let symbols = node.symbols@;
    let imports = node.depends_on.deep_view();
    let opening = "File: "@ + file + "\n\n"@;
    let none = Seq::<char>::empty();
    if symbols.len() == 0 && imports.len() == 0 && users.len() == 0 {
        a_part_stands_in(text, none, none, text);
    } else {
        let a = symbol_section(symbols);
        let b = import_section(imports);
        let c = user_section(users);
        a_part_stands_in(opening, a, b + c, text);
        a_part_stands_in(opening + a, b, c, text);
        a_part_stands_in(opening + a + b, c, none, text);
    }
}

/// The line of each symbol, each import and each user stands in the report.
pub proof fn everything_is_reported(file: Seq<char>, node: FileNode, users: Seq<Seq<char>>, i: int)
    requires
        0 <= i,
    ensures
        ({
            let text = report(file, node, users);
            &&& i < node.symbols@.len() ==> stands_in(
                "  "@ + node.symbols@[i].kind@ + " "@ + node.symbols@[i].name@ + " (line "@
                    + crate::text::decimal(node.symbols@[i].line as nat) + ")\n"@,
                text,
            )
            &&& i < node.depends_on@.len() ==> stands_in(
                "  "@ + node.depends_on@[i]@ + "\n"@,
                text,
            )
            &&& i < users.len() ==> stands_in("  "@ + users[i] + "\n"@, text)
        }),
{
    let text = report(file, node, users);
    let symbols = node.symbols@;
    let imports = node.depends_on.deep_view();
    the_sections_are_independent(file, node, users);
    if i < symbols.len() {
        let (x, y) = a_symbol_stands_in_its_list(symbols, i);
        let head = heading("Symbols"@, symbols.len());
        let line = symbol_line(symbols[i]);
        a_part_stands_in(head + x, line, y + "\n"@, symbol_section(symbols));
        what_stands_in_a_part_stands_in_the_text(line, symbol_section(symbols), text);
    }
    if i < imports.len() {
        let (x, y) = a_path_stands_in_its_list(imports, i);
        let head = heading("Depends on"@, imports.len());
        let line = "  "@ + imports[i] + "\n"@;
        a_part_stands_in(head + x, line, y + "\n"@, import_section(imports));
        what_stands_in_a_part_stands_in_the_text(line, import_section(imports), text);
    }
    if i < users.len() {
        let (x, y) = a_path_stands_in_its_list(users, i);
        let head = heading("Used by"@, users.len());
        let line = "  "@ + users[i] + "\n"@;
        a_part_stands_in(head + x, line, y, user_section(users));
        what_stands_in_a_part_stands_in_the_text(line, user_section(users), text);
    }
}

proof fn what_stands_in_a_part_stands_in_the_text(
    line: Seq<char>,
    part: Seq<char>,
    text: Seq<char>,
)
    requires
        stands_in(line, part),
        stands_in(part, text),
    ensures
        stands_in(line, text),
{
    let (a, b) = choose|a: Seq<char>, b: Seq<char>| part == #[trigger] (a + line + b);
    let (c, d) = choose|c: Seq<char>, d: Seq<char>| text == #[trigger] (c + part + d);
    a_part_stands_in(c + a, line, b + d, text);
}

proof fn a_symbol_stands_in_its_list(symbols: Seq<Symbol>, i: int) -> (r: (Seq<char>, Seq<char>))
    requires
        0 <= i < symbols.len(),
    ensures
        symbol_lines(symbols) == r.0 + symbol_line(symbols[i]) + r.1,
{
    let before = symbols.take(i);
    let one = seq![symbols[i]];
    let behind = symbols.skip(i + 1);
    assert(symbols == before + one + behind);
    symbols_are_listed_one_by_one(before, symbols[i], one);
    symbols_are_listed_one_by_one(before + one, symbols[i], behind);
    (symbol_lines(before), symbol_lines(behind))
}

proof fn a_path_stands_in_its_list(paths: Seq<Seq<char>>, i: int) -> (r: (Seq<char>, Seq<char>))
    requires
        0 <= i < paths.len(),
    ensures
        path_lines(paths) == r.0 + ("  "@ + paths[i] + "\n"@) + r.1,
{
    let before = paths.take(i);
    let one = seq![paths[i]];
    let behind = paths.skip(i + 1);
    assert(paths == before + one + behind);
    paths_are_listed_one_by_one(before, paths[i], one);
    paths_are_listed_one_by_one(before + one, paths[i], behind);
    (path_lines(before), path_lines(behind))
}

/// An impact report names the file and the number of the affected files, and
/// lists all of them; where there are none, it says so.
pub proof fn all_affected_files_are_reported(file: Seq<char>, affected: Seq<Seq<char>>, i: int)
    ensures
        affected.len() == 0 ==> impact_text(file, affected) == "No files affected by changes to "@
            + file + ".\n"@,
        affected.len() > 0 ==> impact_text(file, affected) == "Impact of "@ + file + " ("@
            + crate::text::decimal(affected.len()) + " files affected):\n\n"@ + path_lines(affected),
        0 <= i < affected.len() ==> stands_in(
            "  "@ + affected[i] + "\n"@,
            impact_text(file, affected),
        ),
{
    if 0 <= i < affected.len() {
        let (x, y) = a_path_stands_in_its_list(affected, i);
        let head = "Impact of "@ + file + " ("@ + crate::text::decimal(affected.len())
            + " files affected):\n\n"@;
        a_part_stands_in(
            head + x,
            "  "@ + affected[i] + "\n"@,
            y,
            impact_text(file, affected),
        );
    }
}

} // verus!
