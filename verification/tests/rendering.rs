use semble_front::cli::{
    deps_report, impact_report, related_report, search_report, sentences, GraphFlags, GraphReport,
    Report, SearchFlags,
};
use semble_front::graph::{DependencyGraph, FileNode, GraphEntry, GraphPart, Symbol};
use semble_front::mcp::answers::{
    deps_answer, impact_answer, pattern_answer, pattern_command, related_answer, search_answer,
    Output, PatternRun,
};
use semble_front::mcp::errors::ToolError;
use semble_front::render::groups::{grouped_at, locate, place_from, Place};
use semble_front::render::{
    compact, dep_tree, deps_summary, grouped, impact_summary, next_files, outline, walk_dep_tree,
};
use semble_front::text::{
    chars_of, comma_separated, is_blank, less, nonblank_lines, number, same, split, trim,
    truncate_line,
};
use semble_front::types::{with_bodies, Chunk, MatchLine, Score, SearchResult};

fn strings(items: &[&str]) -> Vec<String> {
    items.iter().map(|s| s.to_string()).collect()
}

fn result(path: &str, text: &str, rank: i64, lines: &[(usize, &str)]) -> SearchResult {
    SearchResult {
        chunk: Chunk::new(
            "fn main() {}".to_string(),
            path.to_string(),
            3,
            14,
            Some("rust".to_string()),
        ),
        score: Score {
            text: text.to_string(),
            rank,
        },
        match_lines: lines
            .iter()
            .map(|(line, content)| MatchLine {
                line: *line,
                content: content.to_string(),
            })
            .collect(),
        signature: None,
    }
}

fn entry(path: &str, imports: Option<&[&str]>, dependents: &[&str], impact: &[&str]) -> GraphEntry {
    GraphEntry {
        path: path.to_string(),
        node: imports.map(|i| FileNode {
            symbols: Vec::new(),
            depends_on: strings(i),
        }),
        dependents: strings(dependents),
        impact: strings(impact),
    }
}

/// a -> b, c; b -> d; c -> a; d imports nothing.
fn sample() -> DependencyGraph {
    DependencyGraph {
        entries: vec![
            entry("a", Some(&["b", "c"]), &["c"], &["c"]),
            entry("b", Some(&["d"]), &["a"], &["a", "c"]),
            entry("c", Some(&["a"]), &["a"], &["a"]),
            entry("d", Some(&[]), &["b"], &["b", "a", "c"]),
        ],
    }
}

#[test]
fn compact_shows_score_place_and_lines() {
    let r = [
        result("src/a.rs", "0.9000", 9, &[(4, "  let x = 1;  "), (5, "y")]),
        result("b.rs", "0.1000", 1, &[]),
    ];
    assert_eq!(
        compact(&r),
        "0.9000\tsrc/a.rs:3-14\n  L4:\tlet x = 1;\n  L5:\ty\n0.1000\tb.rs:3-14\n"
    );
    assert_eq!(compact(&[]), "");
}

#[test]
fn joined_results_are_rendered_one_after_another() {
    let a = result("a.rs", "0.9000", 9, &[(1, "x")]);
    let b = result("b.rs", "0.8000", 8, &[]);
    let alone = compact(&[result("a.rs", "0.9000", 9, &[(1, "x")])])
        + &compact(&[result("b.rs", "0.8000", 8, &[])]);
    assert_eq!(compact(&[a, b]), alone);
}

#[test]
fn outline_shows_signature_or_lines() {
    let mut a = result("src/a.rs", "0.9000", 9, &[(4, "x"), (5, "y")]);
    a.signature = Some("fn main()".to_string());
    let b = result("b.rs", "0.1000", 1, &[]);
    assert_eq!(
        outline(&[a, b]),
        "0.9000 src/a.rs:3-14 [2m]\n  fn main()\n0.1000 b.rs:3-14\n  (lines 3-14)\n"
    );
}

#[test]
fn grouped_sorts_directories_by_their_best_result() {
    let r = [
        result("src/a.rs", "0.5000", 5, &[(1, "one")]),
        result("lib/b.rs", "0.9000", 9, &[]),
        result("top.rs", "0.5000", 5, &[]),
        result(
            "src/c.rs",
            "0.4000",
            4,
            &[(1, "1"), (2, "2"), (3, "3"), (4, "4"), (5, "5")],
        ),
    ];
    assert_eq!(
        grouped(&r),
        "lib/\n  0.9000 b.rs:3-14\n0.5000 top.rs:3-14\nsrc/\n  0.5000 a.rs:3-14\n    L1: one\n  0.4000 c.rs:3-14\n    L1: 1\n    L2: 2\n    L3: 3\n    ... (+2)\n"
    );
}

#[test]
fn grouped_results_without_a_directory_are_not_indented() {
    let r = [result(
        "top.rs",
        "0.5000",
        5,
        &[(1, "1"), (2, "2"), (3, "3"), (4, "4")],
    )];
    assert_eq!(
        grouped(&r),
        "0.5000 top.rs:3-14\n  L1: 1\n  L2: 2\n  L3: 3\n  ... (+1)\n"
    );
    let places = vec![Place {
        directory: "d".to_string(),
        name: "n".to_string(),
    }];
    assert_eq!(
        grouped_at(&[result("x", "1.0000", 1, &[])], &places),
        "d/\n  1.0000 n:3-14\n"
    );
}

#[test]
fn results_without_a_score_come_last() {
    let r = [
        result("a/x.rs", "NaN", i64::MIN, &[]),
        result("b/y.rs", "-1.0000", -1, &[]),
    ];
    assert_eq!(
        grouped(&r),
        "b/\n  -1.0000 y.rs:3-14\na/\n  NaN x.rs:3-14\n"
    );
}

#[test]
fn paths_split_into_directory_and_name() {
    for (path, directory, name) in [
        ("src/render/mod.rs", "src/render", "mod.rs"),
        ("a.rs", "", "a.rs"),
        ("/a.rs", "/", "a.rs"),
        ("./a.rs", ".", "a.rs"),
        ("../x/a.rs", "../x", "a.rs"),
        ("a//b", "a", "b"),
        ("a/./b", "a", "b"),
        ("a/b/", "a", "b"),
        ("a//b/c", "a//b", "c"),
        ("a/b/.//", "a", "b"),
        ("/./a", "/", "a"),
        ("..", "", ".."),
        ("a/..", "a", "a/.."),
        ("/", "", "/"),
        ("", "", ""),
    ] {
        let place = locate(path);
        assert_eq!(place.directory, directory);
        assert_eq!(place.name, name);
    }
}

#[test]
fn paths_without_a_parent_or_a_name_have_a_place() {
    let place = place_from("p", None, None);
    assert_eq!((place.directory.as_str(), place.name.as_str()), ("", "p"));
    let place = place_from("p", Some("d".to_string()), Some("n".to_string()));
    assert_eq!((place.directory.as_str(), place.name.as_str()), ("d", "n"));
}

/// The position of the last component among the first `n` parts of a path.
fn last_component(parts: &[&str], n: usize) -> Option<usize> {
    (0..n)
        .rev()
        .find(|&i| !parts[i].is_empty() && (i == 0 || parts[i] != "."))
}

#[test]
fn all_short_paths_split_at_their_components() {
    let mut paths = vec![String::new()];
    let mut longest = paths.clone();
    for _ in 0..7 {
        longest = longest
            .iter()
            .flat_map(|p| ['/', '.', 'a'].iter().map(move |c| format!("{}{}", p, c)))
            .collect();
        paths.extend(longest.iter().cloned());
    }
    let mut count = 0;
    for path in paths {
        let parts: Vec<&str> = path.split('/').collect();
        let last = last_component(&parts, parts.len());
        let is_here = parts[0] == "." && last == Some(0);
        if path.starts_with("//") || is_here {
            continue;
        }
        let above = last.and_then(|k| last_component(&parts, k));
        let directory = match (last, above) {
            (None, _) => "",
            (_, Some(j)) => &path[..parts[..=j].join("/").len()],
            (_, None) if path.starts_with('/') => "/",
            (_, None) => "",
        };
        let name = match last {
            Some(k) if parts[k] != ".." => parts[k],
            _ => path.as_str(),
        };
        let place = locate(&path);
        assert_eq!(place.directory, directory, "{:?}", path);
        assert_eq!(place.name, name, "{:?}", path);
        count += 1;
    }
    assert!(count > 2000);
}

#[test]
fn a_group_does_not_depend_on_others_between_its_results() {
    let a = || result("d/a.rs", "0.9000", 9, &[(1, "x")]);
    let b = || result("d/b.rs", "0.8000", 8, &[]);
    let c = || result("e/c.rs", "0.1000", 1, &[]);
    assert_eq!(grouped(&[a(), c(), b()]), grouped(&[a(), b(), c()]));
    assert_eq!(grouped(&[c(), a(), b()]), grouped(&[a(), b(), c()]));
}

#[test]
fn dep_tree_marks_cycles() {
    assert_eq!(
        dep_tree(&sample(), "a", None, false),
        "a\n├── b\n│   └── d\n└── c\n    └── a  (cycle)\n"
    );
    assert_eq!(
        dep_tree(&sample(), "d", None, true),
        "d\n└── b\n    └── a\n        └── c\n            └── a  (cycle)\n"
    );
}

#[test]
fn dep_tree_stops_at_the_limit() {
    assert_eq!(
        dep_tree(&sample(), "a", Some(1), false),
        "a\n├── b  …\n└── c  …\n"
    );
    assert_eq!(
        dep_tree(&sample(), "a", Some(0), false),
        dep_tree(&sample(), "a", Some(1), false)
    );
    assert_eq!(
        dep_tree(&sample(), "a", Some(5), false),
        dep_tree(&sample(), "a", None, false)
    );
    assert_eq!(dep_tree(&sample(), "b", Some(1), false), "b\n└── d\n");
}

#[test]
fn dep_tree_of_an_unknown_file_is_its_name() {
    assert_eq!(dep_tree(&sample(), "zzz", None, false), "zzz\n");
    assert_eq!(next_files(&sample(), "a", false), ["b", "c"]);
    assert_eq!(next_files(&sample(), "a", true), ["c"]);
}

#[test]
fn deps_summary_lists_symbols_imports_and_users() {
    let mut graph = sample();
    graph.entries[0].node = Some(FileNode {
        symbols: vec![Symbol {
            kind: "fn".to_string(),
            name: "run".to_string(),
            line: 7,
        }],
        depends_on: strings(&["b", "c"]),
    });
    assert_eq!(
        deps_summary(&graph, "a").unwrap(),
        "File: a\n\nSymbols (1):\n  fn run (line 7)\n\nDepends on (2):\n  b\n  c\n\nUsed by (1):\n  c\n"
    );
    assert_eq!(
        deps_summary(&graph, "d").unwrap(),
        "File: d\n\nUsed by (1):\n  b\n"
    );
    assert!(deps_summary(&graph, "zzz").is_none());
    let lonely = DependencyGraph {
        entries: vec![entry("x", Some(&[]), &[], &[])],
    };
    assert_eq!(
        deps_summary(&lonely, "x").unwrap(),
        "File: x\n\nNo dependencies or symbols found.\n"
    );
}

#[test]
fn impact_summary_lists_the_affected_files() {
    assert_eq!(
        impact_summary(&sample(), "b"),
        "Impact of b (2 files affected):\n\n  a\n  c\n"
    );
    assert_eq!(
        impact_summary(&sample(), "zzz"),
        "No files affected by changes to zzz.\n"
    );
}

#[test]
fn searches_are_answered_by_mode() {
    let r = || [result("src/a.rs", "0.9000", 9, &[(1, "x")])];
    let text = |s: &str| Ok(Output::Text(s.to_string()));
    assert_eq!(search_answer("q", "nope", &[]), text("No results found."));
    assert_eq!(search_answer("q", "outline", &r()), text(&outline(&r())));
    assert_eq!(search_answer("q", "compact", &r()), text(&compact(&r())));
    assert_eq!(search_answer("q", "group", &r()), text(&grouped(&r())));
    assert_eq!(
        search_answer("a \"b\"", "full", &r()),
        Ok(Output::Listing(
            "Search results for: \"a \\\"b\\\"\"".to_string()
        ))
    );
    assert_eq!(
        search_answer("q", "nope", &r()),
        Err(ToolError::UnknownSearchMode("nope".to_string()))
    );
}

#[test]
fn graph_reports_are_answered_by_mode() {
    let g = sample();
    assert_eq!(
        deps_answer(&g, "a", "tree", Some(1)),
        Ok(dep_tree(&g, "a", Some(1), false))
    );
    assert_eq!(
        deps_answer(&g, "a", "summary", None).ok(),
        deps_summary(&g, "a")
    );
    for mode in ["tree", "summary"] {
        assert_eq!(
            deps_answer(&g, "zzz", mode, None),
            Err(ToolError::UnknownFile("zzz".to_string()))
        );
    }
    assert_eq!(
        deps_answer(&g, "zzz", "x", None),
        Err(ToolError::UnknownGraphMode("x".to_string()))
    );
    assert_eq!(
        impact_answer(&g, "a", "tree", None),
        Ok(dep_tree(&g, "a", None, true))
    );
    assert_eq!(
        impact_answer(&g, "zzz", "tree", None),
        Err(ToolError::UnknownFile("zzz".to_string()))
    );
    assert_eq!(
        impact_answer(&g, "zzz", "summary", None),
        Ok(impact_summary(&g, "zzz"))
    );
    assert_eq!(
        impact_answer(&g, "a", "x", None),
        Err(ToolError::UnknownGraphMode("x".to_string()))
    );
    let known_by_use = DependencyGraph {
        entries: vec![entry("ext", None, &["a"], &["a"])],
    };
    assert_eq!(
        impact_answer(&known_by_use, "ext", "tree", None),
        Ok("ext\n└── a\n".to_string())
    );
}

#[test]
fn pattern_searches_are_answered_by_their_output() {
    let ended = |success: bool, stdout: &str, stderr: &str| PatternRun::Ended {
        success,
        stdout: stdout.to_string(),
        stderr: stderr.to_string(),
    };
    assert_eq!(
        pattern_answer(ended(true, "a.rs:1\n", "")),
        Ok("a.rs:1\n".to_string())
    );
    assert_eq!(
        pattern_answer(ended(false, " \n", " ")),
        Ok("No matches found.".to_string())
    );
    assert_eq!(
        pattern_answer(ended(false, "", " bad pattern\n")),
        Err(ToolError::PatternFailed("bad pattern".to_string()))
    );
    assert_eq!(
        pattern_answer(ended(true, "", "warning")),
        Ok("No matches found.".to_string())
    );
    assert_eq!(
        pattern_answer(ended(false, "x", "warning")),
        Ok("x".to_string())
    );
    assert_eq!(
        pattern_answer(PatternRun::NotStarted),
        Err(ToolError::NotInstalled)
    );
    assert_eq!(
        pattern_command("p", ".", Some("rust"), true),
        ["--pattern", "p", ".", "--lang", "rust", "--json=stream"]
    );
    assert_eq!(
        pattern_command("p", "d", None, false),
        ["--pattern", "p", "d"]
    );
}

#[test]
fn related_code_is_answered_by_what_was_found() {
    assert_eq!(
        related_answer("a.rs", 3, None),
        Err(ToolError::NoChunk {
            file: "a.rs".to_string(),
            line: 3
        })
    );
    assert_eq!(
        related_answer("a.rs", 3, Some(0)),
        Ok(Output::Text(
            "No related chunks found for a.rs:3.".to_string()
        ))
    );
    assert_eq!(
        related_answer("a.rs", 3, Some(2)),
        Ok(Output::Listing("Chunks related to a.rs:3".to_string()))
    );
    assert_eq!(related_report(true, "a.rs", 3, Some(0)), Ok(Report::Json));
    assert_eq!(
        related_report(false, "a.rs", 3, Some(0)),
        Ok(Report::Text(
            "No related chunks found for a.rs:3.\n".to_string()
        ))
    );
    assert!(related_report(true, "a.rs", 3, None).is_err());
}

#[test]
fn the_first_search_format_counts() {
    let flags = |outline, group, compact, json, strip| SearchFlags {
        outline,
        group,
        compact,
        json,
        strip,
    };
    let r = || [result("src/a.rs", "0.9000", 9, &[(1, "x")])];
    assert_eq!(
        search_report(flags(true, true, true, true, true), "q", &r()),
        Report::Text(outline(&r()))
    );
    assert_eq!(
        search_report(flags(false, true, true, true, true), "q", &r()),
        Report::Text(grouped(&r()))
    );
    assert_eq!(
        search_report(flags(false, false, true, true, true), "q", &r()),
        Report::Text(compact(&r()))
    );
    assert_eq!(
        search_report(flags(false, false, false, true, true), "q", &r()),
        Report::StrippedJson
    );
    assert_eq!(
        search_report(flags(false, false, false, true, false), "q", &[]),
        Report::Json
    );
    assert_eq!(
        search_report(flags(false, false, false, false, true), "q", &[]),
        Report::Text("No results found.\n".to_string())
    );
    assert_eq!(
        search_report(flags(false, false, false, false, false), "q", &r()),
        Report::Listing("Search results for: \"q\"".to_string())
    );
}

#[test]
fn the_first_graph_format_counts() {
    let flags = |dot, tree, json| GraphFlags {
        dot,
        tree,
        json,
        max_depth: None,
    };
    let g = sample();
    assert_eq!(
        deps_report(flags(true, true, true), &g, "zzz"),
        Ok(GraphReport::Dot)
    );
    assert_eq!(
        deps_report(flags(false, true, true), &g, "a"),
        Ok(GraphReport::Text(dep_tree(&g, "a", None, false)))
    );
    assert_eq!(
        deps_report(flags(false, false, true), &g, "a"),
        Ok(GraphReport::Json)
    );
    assert_eq!(
        deps_report(flags(false, false, true), &g, "zzz"),
        Ok(GraphReport::Text("{}\n".to_string()))
    );
    assert_eq!(
        deps_report(flags(false, false, false), &g, "zzz"),
        Err(ToolError::UnknownFile("zzz".to_string()))
    );
    assert_eq!(
        impact_report(flags(true, false, false), &g, "zzz"),
        Ok(GraphReport::Dot)
    );
    assert_eq!(
        impact_report(flags(false, true, true), &g, "zzz"),
        Err(ToolError::UnknownFile("zzz".to_string()))
    );
    assert_eq!(
        impact_report(flags(false, false, true), &g, "zzz"),
        Ok(GraphReport::Json)
    );
    assert_eq!(
        impact_report(flags(false, false, false), &g, "b"),
        Ok(GraphReport::Text(impact_summary(&g, "b")))
    );
}

#[test]
fn bodies_can_be_replaced() {
    let r = [result("a.rs", "0.9000", 9, &[(1, "x")])];
    let stripped = with_bodies(&r, &strings(&["body"]));
    assert_eq!(stripped.len(), 1);
    assert_eq!(stripped[0].chunk.content, "body");
    assert_eq!(stripped[0].chunk.file_path, "a.rs");
    assert_eq!(stripped[0].chunk.start_line, 3);
    assert_eq!(stripped[0].chunk.end_line, 14);
    assert_eq!(stripped[0].chunk.language, Some("rust".to_string()));
    assert_eq!(stripped[0].score.text, "0.9000");
    assert_eq!(stripped[0].match_lines[0].content, "x");
}

#[test]
fn lines_are_trimmed_and_cut() {
    assert_eq!(truncate_line("  short \t", 100), "short");
    let long = "x".repeat(130);
    assert_eq!(
        truncate_line(&long, 120),
        format!("{}...", "x".repeat(117))
    );
    assert_eq!(truncate_line(&"x".repeat(120), 120), "x".repeat(120));
    // Forty-one three-byte characters have more than 120 bytes, but fit whole.
    let wide = "…".repeat(41);
    assert_eq!(truncate_line(&wide, 120), format!("{}...", wide));
}

#[test]
fn texts_are_trimmed_of_unicode_white_space() {
    assert_eq!(trim("\u{3000}\u{a0} a b\u{85}\u{2028}\r\n"), "a b");
    assert_eq!(trim("\u{200b}"), "\u{200b}");
    assert_eq!(trim("  "), "");
    assert!(is_blank("\t\u{2003}"));
    assert!(!is_blank("."));
    for c in ['\u{9}', '\u{1680}', '\u{200a}', '\u{202f}', '\u{205f}', 'x', '\u{180e}', '\u{1c}'] {
        assert_eq!(is_blank(&c.to_string()), c.is_whitespace());
    }
}

#[test]
fn texts_are_split() {
    assert_eq!(split("a,,b", ','), ["a", "", "b"]);
    assert_eq!(split("", ','), [""]);
    assert_eq!(comma_separated(" a ,, b,"), ["a", "b"]);
    let input = "one\r\n\n  \ntwo\nthree\r";
    let lines: Vec<String> = input
        .lines()
        .filter(|l| !l.trim().is_empty())
        .map(|l| l.to_string())
        .collect();
    assert_eq!(nonblank_lines(input), lines);
    assert_eq!(nonblank_lines(input), ["one", "two", "three\r"]);
    assert_eq!(sentences(input), Some(lines));
    assert_eq!(sentences(" \n\n"), None);
}

#[test]
fn numbers_are_decimal() {
    for n in [0usize, 9, 10, 1234567890, usize::MAX] {
        assert_eq!(number(n), n.to_string());
    }
}

#[test]
fn texts_are_ordered_by_code_points() {
    assert!(less("a", "b"));
    assert!(less("a", "aa"));
    assert!(less("", "a"));
    assert!(!less("b", "a"));
    assert!(!less("a", "a"));
    assert!(less("z", "é"));
    assert!(same("é", "é"));
    assert!(!same("e", "é"));
    assert_eq!(chars_of("aé"), ['a', 'é']);
}

#[test]
fn a_walk_starts_anywhere_and_restores_its_trail() {
    let mut visited = strings(&["x", "c"]);
    let mut prefix = "| ".to_string();
    let mut out = "head\n".to_string();
    walk_dep_tree(
        &sample(),
        &strings(&["a"]),
        &mut visited,
        &mut prefix,
        &mut out,
        7,
        Some(8),
        false,
    );
    assert_eq!(
        out,
        "head\n| └── a\n|     ├── b  …\n|     └── c  (cycle)\n"
    );
    assert_eq!(visited, ["x", "c"]);
    assert_eq!(prefix, "| ");

    let added = |visited: &[&str], out: &str, items: &[&str], depth: usize| {
        let mut text = out.to_string();
        walk_dep_tree(
            &sample(),
            &strings(items),
            &mut strings(visited),
            &mut String::new(),
            &mut text,
            depth,
            None,
            false,
        );
        text[out.len()..].to_string()
    };
    // Neither the text so far nor the order of the trail nor the level matters.
    assert_eq!(added(&["x", "c"], "", &["a"], 1), added(&["c", "x", "c"], "t", &["a"], 9));
    assert_eq!(
        added(&["x"], "", &["a"], 1),
        added(&["x"], "", &["a"], usize::MAX)
    );
    assert_eq!(added(&["x"], "t", &[], 1), "");
    // What stands before an item does not matter to its text.
    let behind_b = added(&[], "", &["b", "c"], 1);
    let behind_d = added(&[], "", &["d", "c"], 1);
    let from_c = |text: &str| text[text.find("└── c").unwrap()..].to_string();
    assert_eq!(from_c(&behind_b), from_c(&behind_d));
}

#[test]
fn a_turned_graph_has_the_tree_of_the_other_direction() {
    let mut turned = sample();
    for e in &mut turned.entries {
        let imports = match e.node.take() {
            Some(node) => node.depends_on,
            None => Vec::new(),
        };
        e.node = Some(FileNode {
            symbols: Vec::new(),
            depends_on: std::mem::replace(&mut e.dependents, imports),
        });
    }
    for root in ["a", "b", "c", "d"] {
        for reverse in [false, true] {
            assert_eq!(
                dep_tree(&sample(), root, Some(3), reverse),
                dep_tree(&turned, root, Some(3), !reverse)
            );
        }
    }
}

#[test]
fn a_line_is_cut_once() {
    for line in ["  short ", "0123456789", "éééééééé"] {
        let once = truncate_line(line, 8);
        assert_eq!(truncate_line(&once, 8), once);
    }
    // Three characters of three bytes each are cut though they would all stay.
    assert_eq!(truncate_line("€€€", 8), "€€€...");
    assert_eq!(truncate_line("€€€...", 8), "€€€.....");
}

/// How deep a line of a tree lies: the indentation is four characters a level.
fn level(line: &str) -> usize {
    match line.find("── ") {
        Some(at) => line[..at].chars().count() / 4 + 1,
        None => 0,
    }
}

#[test]
fn a_limit_removes_the_deeper_lines() {
    for root in ["a", "b", "c", "d", "zzz"] {
        for reverse in [false, true] {
            let whole = dep_tree(&sample(), root, None, reverse);
            let lines: Vec<&str> = whole.lines().collect();
            for limit in 0..7usize {
                let deepest = limit.max(1);
                let mut expected = String::new();
                for (i, line) in lines.iter().enumerate() {
                    if level(line) > deepest {
                        continue;
                    }
                    expected.push_str(line);
                    if lines.get(i + 1).map_or(false, |next| level(next) > deepest) {
                        assert_eq!(level(line), deepest);
                        expected.push_str("  …");
                    }
                    expected.push('\n');
                }
                assert_eq!(dep_tree(&sample(), root, Some(limit), reverse), expected);
            }
        }
    }
}

#[test]
fn a_complete_part_has_the_whole_tree() {
    for root in ["a", "b", "c", "d", "zzz"] {
        for reverse in [false, true] {
            let known = |path: &str| {
                let found = sample().entries.into_iter().find(|e| e.path == path);
                found.unwrap_or_else(|| entry(path, None, &[], &[]))
            };
            let mut part = GraphPart::new(known(root), reverse);
            while let Some(path) = part.missing_path() {
                assert!(part.graph.entries.iter().all(|e| e.path != path));
                part.add(known(&path));
            }
            assert_eq!(part.missing_path(), None);
            assert_eq!(
                dep_tree(&part.graph, root, None, reverse),
                dep_tree(&sample(), root, None, reverse)
            );
        }
    }
    let part = GraphPart::new(entry("d", None, &["b"], &[]), true);
    assert_eq!(part.graph.entries.len(), 1);
}
