//! The ASCII dependency tree.

use vstd::prelude::*;
use vstd::string::*;

use crate::graph::{DependencyGraph, copied};
use crate::text::same;

verus! {

/// The files one step further: those that `file` imports, or with `reverse`
/// those that import it.
pub open spec fn next_of(graph: DependencyGraph, file: Seq<char>, reverse: bool) -> Seq<Seq<char>> {
    if reverse {
        graph.dependents_of(file)
    } else {
        match graph.node_of(file) {
            Some(node) => node.depends_on.deep_view(),
            None => Seq::empty(),
        }
    }
}

/// The known paths that are not among `trail`.
pub open spec fn ahead(graph: DependencyGraph, trail: Seq<Seq<char>>) -> Set<Seq<char>> {
    graph.paths().filter(|p: Seq<char>| !trail.contains(p))
}

proof fn a_longer_trail_holds_one_more(trail: Seq<Seq<char>>, file: Seq<char>)
    ensures
        forall|p: Seq<char>| #[trigger]
            trail.push(file).contains(p) <==> trail.contains(p) || p == file,
{
    assert(trail.push(file).last() == file);
    assert forall|p: Seq<char>| trail.contains(p) implies #[trigger] trail.push(file).contains(
        p,
    ) by {
        let i = choose|i: int| 0 <= i < trail.len() && trail[i] == p;
        assert(trail.push(file)[i] == p);
    }
}

/// Each file that the tree follows leaves fewer known files ahead, so the tree
/// ends even where the graph has cycles.
pub proof fn ahead_shrinks(
    graph: DependencyGraph,
    trail: Seq<Seq<char>>,
    file: Seq<char>,
    reverse: bool,
)
    requires
        !trail.contains(file),
        next_of(graph, file, reverse).len() > 0,
    ensures
        ahead(graph, trail).finite(),
        ahead(graph, trail.push(file)).len() < ahead(graph, trail).len(),
{
    crate::graph::known_paths_are_listed(graph, file, 0);
    vstd::seq_lib::seq_to_set_is_finite(
        graph.entries@.map_values(|e: crate::graph::GraphEntry| e.path@),
    );
    let before = ahead(graph, trail);
    let after = ahead(graph, trail.push(file));
    assert(before.finite());
    a_longer_trail_holds_one_more(trail, file);
    assert(after =~= before.remove(file));
}

/// Whether the tree stops below the level `depth`.
pub open spec fn stops(max_depth: Option<usize>, depth: nat) -> bool {
    max_depth matches Some(limit) && depth >= limit
}

pub open spec fn connector(is_last: bool) -> Seq<char> {
    if is_last {
        "└── "@
    } else {
        "├── "@
    }
}

pub open spec fn indentation(is_last: bool) -> Seq<char> {
    if is_last {
        "    "@
    } else {
        "│   "@
    }
}

/// The lines of `items` from position `i` on, each with the subtree below it.
/// `trail` holds the files on the way from the root to here: a file that occurs
/// in it again is marked as a cycle and not followed. Where the depth limit
/// cuts off a subtree, an ellipsis stands for it.
pub open spec fn branches(
    graph: DependencyGraph,
    items: Seq<Seq<char>>,
    i: int,
    trail: Seq<Seq<char>>,
    prefix: Seq<char>,
    depth: nat,
    max_depth: Option<usize>,
    reverse: bool,
) -> Seq<char>
    decreases ahead(graph, trail).len(), items.len() - i,
{
    if i < 0 || i >= items.len() {
        Seq::empty()
    } else {
        let is_last = i == items.len() - 1;
        let label = prefix + connector(is_last) + items[i];
        let below = next_of(graph, items[i], reverse);
        let entry = if trail.contains(items[i]) {
            label + "  (cycle)\n"@
        } else if below.len() == 0 {
            label + "\n"@
        } else if stops(max_depth, depth) {
            label + "  …\n"@
        } else {
            proof {
                ahead_shrinks(graph, trail, items[i], reverse);
            }
            label + "\n"@ + branches(
                graph,
                below,
                0,
                trail.push(items[i]),
                prefix + indentation(is_last),
                depth + 1,
                max_depth,
                reverse,
            )
        };
        entry + branches(graph, items, i + 1, trail, prefix, depth, max_depth, reverse)
    }
}

/// The dependency tree that starts at `root`.
pub open spec fn tree_text(
    graph: DependencyGraph,
    root: Seq<char>,
    max_depth: Option<usize>,
    reverse: bool,
) -> Seq<char> {
    root + "\n"@ + branches(
        graph,
        next_of(graph, root, reverse),
        0,
        seq![root],
        Seq::empty(),
        1,
        max_depth,
        reverse,
    )
}

/// Levels that are equal, or both as deep as a limit can be, make no difference.
proof fn levels_without_limit_agree(
    graph: DependencyGraph,
    items: Seq<Seq<char>>,
    i: int,
    trail: Seq<Seq<char>>,
    prefix: Seq<char>,
    a: nat,
    b: nat,
    max_depth: Option<usize>,
    reverse: bool,
)
    requires
        a == b || a >= usize::MAX && b >= usize::MAX,
    ensures
        branches(graph, items, i, trail, prefix, a, max_depth, reverse) == branches(
            graph,
            items,
            i,
            trail,
            prefix,
            b,
            max_depth,
            reverse,
        ),
    decreases ahead(graph, trail).len(), items.len() - i,
{
    if 0 <= i < items.len() {
        let item = items[i];
        let below = next_of(graph, item, reverse);
        if !trail.contains(item) && below.len() > 0 {
            ahead_shrinks(graph, trail, item, reverse);
            levels_without_limit_agree(
                graph,
                below,
                0,
                trail.push(item),
                prefix + indentation(i == items.len() - 1),
                a + 1,
                b + 1,
                max_depth,
                reverse,
            );
        }
        levels_without_limit_agree(graph, items, i + 1, trail, prefix, a, b, max_depth, reverse);
    }
}

/// The files one step further from `file`.
pub fn next_files(graph: &DependencyGraph, file: &str, reverse: bool) -> (r: Vec<String>)
    ensures
        r.deep_view() == next_of(*graph, file@, reverse),
{
    if reverse {
        graph.dependents(file)
    } else {
        match graph.deps(file) {
            Some(node) => copied(&node.depends_on),
            None => Vec::new(),
        }
    }
}

fn is_among(files: &Vec<String>, file: &str) -> (r: bool)
    ensures
        r == files.deep_view().contains(file@),
{
    for i in 0..files.len()
        invariant
            forall|j: int| 0 <= j < i ==> files[j]@ != file@,
    {
        if same(&files[i], file) {
            assert(files.deep_view()[i as int] == file@);
            return true;
        }
    }
    false
}

/// Renders `items` with their subtrees. `visited` holds the files on the way
/// from the root to here; it and `prefix` are the same again afterwards.
pub fn walk_dep_tree(
    graph: &DependencyGraph,
    items: &[String],
    visited: &mut Vec<String>,
    prefix: &mut String,
    out: &mut String,
    depth: usize,
    max_depth: Option<usize>,
    reverse: bool,
)
    ensures
        final(visited).deep_view() == old(visited).deep_view(),
        final(prefix)@ == old(prefix)@,
        final(out)@ == old(out)@ + branches(
            *graph,
            items.deep_view(),
            0,
            old(visited).deep_view(),
            old(prefix)@,
            depth as nat,
            max_depth,
            reverse,
        ),
        items@.len() == 0 ==> final(out)@ == old(out)@,
    decreases ahead(*graph, old(visited).deep_view()).len(),
{
    let ghost trail = visited.deep_view();
    let ghost all = items.deep_view();
    let ghost start = out@;
    let ghost lead = prefix@;
    let ghost whole = branches(*graph, all, 0, trail, lead, depth as nat, max_depth, reverse);
    for i in 0..items.len()
        invariant
            trail == old(visited).deep_view(),
            trail == visited.deep_view(),
            lead == prefix@,
            all == items.deep_view(),
            items@.len() == 0 ==> out@ == start,
            start + whole == out@ + branches(
                *graph,
                all,
                i as int,
                trail,
                lead,
                depth as nat,
                max_depth,
                reverse,
            ),
    {
        let ghost before = out@;
        let item = items[i].as_str();
        let is_last = i == items.len() - 1;
        let below = next_files(graph, item, reverse);
        let limited = match max_depth {
            Some(limit) => depth >= limit,
            None => false,
        };
        let mut entry = prefix.clone();
        entry.append(if is_last { "└── " } else { "├── " });
        entry.append(item);
        if is_among(visited, item) {
            entry.append("  (cycle)\n");
        } else if below.len() == 0 {
            entry.append("\n");
        } else if limited {
            entry.append("  …\n");
        } else {
            entry.append("\n");
            let shorter = prefix.clone();
            prefix.append(if is_last { "    " } else { "│   " });
            proof {
                ahead_shrinks(*graph, trail, item@, reverse);
                levels_without_limit_agree(
                    *graph,
                    below.deep_view(),
                    0,
                    trail.push(item@),
                    prefix@,
                    depth.saturating_add(1) as nat,
                    depth as nat + 1,
                    max_depth,
                    reverse,
                );
            }
            visited.push(item.to_owned());
            assert(visited.deep_view() == trail.push(item@));
            assert(below@.len() == below.deep_view().len());
            walk_dep_tree(
                graph,
                below.as_slice(),
                visited,
                prefix,
                &mut entry,
                depth.saturating_add(1),
                max_depth,
                reverse,
            );
            let ghost longer = visited.deep_view();
            let _ = visited.pop();
            assert(visited.deep_view() == longer.drop_last());
            assert(longer.drop_last() == trail);
            *prefix = shorter;
        }
        out.append(&entry);
        let ghost rest = branches(
            *graph,
            all,
            i + 1,
            trail,
            lead,
            depth as nat,
            max_depth,
            reverse,
        );
        assert(before + (entry@ + rest) == out@ + rest);
    }
}

/// ASCII dependency tree rooted at `root`. `reverse = false` walks imports,
/// `reverse = true` walks dependents. A file that is met again on its own trail
/// is marked as a cycle.
pub fn dep_tree(
    graph: &DependencyGraph,
    root: &str,
    max_depth: Option<usize>,
    reverse: bool,
) -> (r: String)
    ensures
        r@ == tree_text(*graph, root@, max_depth, reverse),
{
    let mut out = root.to_owned();
    out.append("\n");
    let mut visited: Vec<String> = Vec::new();
    visited.push(root.to_owned());
    assert(visited.deep_view() == seq![root@]);
    let children = next_files(graph, root, reverse);
    let mut prefix = String::new();
    walk_dep_tree(
        graph,
        children.as_slice(),
        &mut visited,
        &mut prefix,
        &mut out,
        1,
        max_depth,
        reverse,
    );
    out
}

proof fn a_high_limit_keeps_branches(
    graph: DependencyGraph,
    items: Seq<Seq<char>>,
    i: int,
    trail: Seq<Seq<char>>,
    prefix: Seq<char>,
    limit: usize,
    reverse: bool,
)
    requires
        trail.no_duplicates(),
        forall|j: int| 0 <= j < trail.len() ==> graph.paths().contains(#[trigger] trail[j]),
        limit > graph.paths().len(),
    ensures
        branches(graph, items, i, trail, prefix, trail.len(), Some(limit), reverse) == branches(
            graph,
            items,
            i,
            trail,
            prefix,
            trail.len(),
            None,
            reverse,
        ),
    decreases ahead(graph, trail).len(), items.len() - i,
{
    if 0 <= i < items.len() {
        vstd::seq_lib::seq_to_set_is_finite(
            graph.entries@.map_values(|e: crate::graph::GraphEntry| e.path@),
        );
        trail.unique_seq_to_set();
        vstd::set_lib::lemma_len_subset(trail.to_set(), graph.paths());
        let item = items[i];
        let below = next_of(graph, item, reverse);
        if !trail.contains(item) && below.len() > 0 {
            ahead_shrinks(graph, trail, item, reverse);
            crate::graph::known_paths_are_listed(graph, item, 0);
            a_high_limit_keeps_branches(
                graph,
                below,
                0,
                trail.push(item),
                prefix + indentation(i == items.len() - 1),
                limit,
                reverse,
            );
        }
        a_high_limit_keeps_branches(graph, items, i + 1, trail, prefix, limit, reverse);
    }
}

/// No trail is longer than the number of known paths, whatever cycles the graph
/// has: a depth limit above that number cuts nothing off.
pub proof fn a_high_limit_cuts_nothing(
    graph: DependencyGraph,
    root: Seq<char>,
    limit: usize,
    reverse: bool,
)
    requires
        limit > graph.paths().len(),
    ensures
        tree_text(graph, root, Some(limit), reverse) == tree_text(graph, root, None, reverse),
{
    let items = next_of(graph, root, reverse);
    if items.len() > 0 {
        crate::graph::known_paths_are_listed(graph, root, 0);
        a_high_limit_keeps_branches(
            graph,
            items,
            0,
            seq![root],
            Seq::empty(),
            limit,
            reverse,
        );
    }
}

proof fn the_lowest_limits_agree_below(
    graph: DependencyGraph,
    items: Seq<Seq<char>>,
    i: int,
    trail: Seq<Seq<char>>,
    prefix: Seq<char>,
    depth: nat,
    reverse: bool,
)
    requires
        depth >= 1,
    ensures
        branches(graph, items, i, trail, prefix, depth, Some(0), reverse) == branches(
            graph,
            items,
            i,
            trail,
            prefix,
            depth,
            Some(1),
            reverse,
        ),
    decreases items.len() - i,
{
    if 0 <= i < items.len() {
        the_lowest_limits_agree_below(graph, items, i + 1, trail, prefix, depth, reverse);
    }
}

/// The direct neighbours of the root are always shown: the limit zero is as good
/// as the limit one.
pub proof fn the_lowest_limits_agree(graph: DependencyGraph, root: Seq<char>, reverse: bool)
    ensures
        tree_text(graph, root, Some(0), reverse) == tree_text(graph, root, Some(1), reverse),
{
    the_lowest_limits_agree_below(
        graph,
        next_of(graph, root, reverse),
        0,
        seq![root],
        Seq::empty(),
        1,
        reverse,
    );
}

// ---------------------------------------------------------------------------
// The structure of a tree
// ---------------------------------------------------------------------------
/// The text of one item of a list: its line, and the subtree below it where
/// there is one.
pub open spec fn entry_text(
    graph: DependencyGraph,
    item: Seq<char>,
    is_last: bool,
    trail: Seq<Seq<char>>,
    prefix: Seq<char>,
    depth: nat,
    max_depth: Option<usize>,
    reverse: bool,
) -> Seq<char> {
    let label = prefix + connector(is_last) + item;
    let below = next_of(graph, item, reverse);
    if trail.contains(item) {
        label + "  (cycle)\n"@
    } else if below.len() == 0 {
        label + "\n"@
    } else if stops(max_depth, depth) {
        label + "  …\n"@
    } else {
        label + "\n"@ + branches(
            graph,
            below,
            0,
            trail.push(item),
            prefix + indentation(is_last),
            depth + 1,
            max_depth,
            reverse,
        )
    }
}

/// The text of a list is the text of its items, one after another.
pub proof fn items_are_shown_one_by_one(
    graph: DependencyGraph,
    items: Seq<Seq<char>>,
    i: int,
    trail: Seq<Seq<char>>,
    prefix: Seq<char>,
    depth: nat,
    max_depth: Option<usize>,
    reverse: bool,
)
    requires
        0 <= i <= items.len(),
    ensures
        branches(graph, items, i, trail, prefix, depth, max_depth, reverse) == (if i
            == items.len() {
            Seq::empty()
        } else {
            entry_text(
                graph,
                items[i],
                i == items.len() - 1,
                trail,
                prefix,
                depth,
                max_depth,
                reverse,
            ) + branches(graph, items, i + 1, trail, prefix, depth, max_depth, reverse)
        }),
{
}

/// A file that is not on the trail, has files below it and lies within the limit
/// is shown on its line, and below it just what a walk over the files below it
/// adds: with the file on the trail, one level deeper, further indented.
pub proof fn a_followed_file_carries_its_subtree(
    graph: DependencyGraph,
    item: Seq<char>,
    is_last: bool,
    trail: Seq<Seq<char>>,
    prefix: Seq<char>,
    depth: nat,
    max_depth: Option<usize>,
    reverse: bool,
)
    requires
        !trail.contains(item),
        next_of(graph, item, reverse).len() > 0,
        !stops(max_depth, depth),
    ensures
        entry_text(graph, item, is_last, trail, prefix, depth, max_depth, reverse) == prefix
            + connector(is_last) + item + "\n"@ + branches(
            graph,
            next_of(graph, item, reverse),
            0,
            trail.push(item),
            prefix + indentation(is_last),
            depth + 1,
            max_depth,
            reverse,
        ),
{
}

/// The text of the items from a position on does not depend on those before it.
pub proof fn items_do_not_affect_those_behind_them(
    graph: DependencyGraph,
    a: Seq<Seq<char>>,
    b: Seq<Seq<char>>,
    i: int,
    trail: Seq<Seq<char>>,
    prefix: Seq<char>,
    depth: nat,
    max_depth: Option<usize>,
    reverse: bool,
)
    requires
        0 <= i <= a.len(),
        a.len() == b.len(),
        forall|j: int| i <= j < a.len() ==> #[trigger] a[j] == b[j],
    ensures
        branches(graph, a, i, trail, prefix, depth, max_depth, reverse) == branches(
            graph,
            b,
            i,
            trail,
            prefix,
            depth,
            max_depth,
            reverse,
        ),
    decreases a.len() - i,
{
    if i < a.len() {
        items_do_not_affect_those_behind_them(
            graph,
            a,
            b,
            i + 1,
            trail,
            prefix,
            depth,
            max_depth,
            reverse,
        );
    }
}

/// Of the trail it only matters which files are on it.
pub proof fn the_trail_counts_as_a_set(
    graph: DependencyGraph,
    items: Seq<Seq<char>>,
    i: int,
    a: Seq<Seq<char>>,
    b: Seq<Seq<char>>,
    prefix: Seq<char>,
    depth: nat,
    max_depth: Option<usize>,
    reverse: bool,
)
    requires
        forall|file: Seq<char>| #[trigger] a.contains(file) <==> b.contains(file),
    ensures
        branches(graph, items, i, a, prefix, depth, max_depth, reverse) == branches(
            graph,
            items,
            i,
            b,
            prefix,
            depth,
            max_depth,
            reverse,
        ),
    decreases ahead(graph, a).len(), items.len() - i,
{
    if 0 <= i < items.len() {
        let item = items[i];
        let below = next_of(graph, item, reverse);
        if !a.contains(item) && below.len() > 0 {
            ahead_shrinks(graph, a, item, reverse);
            a_longer_trail_holds_one_more(a, item);
            a_longer_trail_holds_one_more(b, item);
            the_trail_counts_as_a_set(
                graph,
                below,
                0,
                a.push(item),
                b.push(item),
                prefix + indentation(i == items.len() - 1),
                depth + 1,
                max_depth,
                reverse,
            );
        }
        the_trail_counts_as_a_set(graph, items, i + 1, a, b, prefix, depth, max_depth, reverse);
    }
}

proof fn like_graphs_have_like_branches(
    g: DependencyGraph,
    h: DependencyGraph,
    items: Seq<Seq<char>>,
    i: int,
    trail: Seq<Seq<char>>,
    prefix: Seq<char>,
    depth: nat,
    max_depth: Option<usize>,
    a: bool,
    b: bool,
)
    requires
        forall|file: Seq<char>| #[trigger] next_of(g, file, a) == next_of(h, file, b),
    ensures
        branches(g, items, i, trail, prefix, depth, max_depth, a) == branches(
            h,
            items,
            i,
            trail,
            prefix,
            depth,
            max_depth,
            b,
        ),
    decreases ahead(g, trail).len(), items.len() - i,
{
    if 0 <= i < items.len() {
        let item = items[i];
        let below = next_of(g, item, a);
        if !trail.contains(item) && below.len() > 0 {
            ahead_shrinks(g, trail, item, a);
            like_graphs_have_like_branches(
                g,
                h,
                below,
                0,
                trail.push(item),
                prefix + indentation(i == items.len() - 1),
                depth + 1,
                max_depth,
                a,
                b,
            );
        }
        like_graphs_have_like_branches(g, h, items, i + 1, trail, prefix, depth, max_depth, a, b);
    }
}

/// The tree of a file depends on nothing but the neighbours of the files in it:
/// in a graph with all edges turned round, the tree of the imports is that of
/// the dependents.
pub proof fn like_graphs_have_like_trees(
    g: DependencyGraph,
    h: DependencyGraph,
    root: Seq<char>,
    max_depth: Option<usize>,
    a: bool,
    b: bool,
)
    requires
        forall|file: Seq<char>| #[trigger] next_of(g, file, a) == next_of(h, file, b),
    ensures
        tree_text(g, root, max_depth, a) == tree_text(h, root, max_depth, b),
{
    like_graphs_have_like_branches(
        g,
        h,
        next_of(g, root, a),
        0,
        seq![root],
        Seq::empty(),
        1,
        max_depth,
        a,
        b,
    );
}

proof fn a_complete_part_has_the_whole_branches(
    part: DependencyGraph,
    whole: DependencyGraph,
    items: Seq<Seq<char>>,
    i: int,
    trail: Seq<Seq<char>>,
    prefix: Seq<char>,
    depth: nat,
    max_depth: Option<usize>,
    reverse: bool,
)
    requires
        crate::graph::is_complete(part, reverse),
        is_part(part, whole, reverse),
        forall|j: int| 0 <= j < items.len() ==> part.entry_of(#[trigger] items[j]) is Some,
    ensures
        branches(part, items, i, trail, prefix, depth, max_depth, reverse) == branches(
            whole,
            items,
            i,
            trail,
            prefix,
            depth,
            max_depth,
            reverse,
        ),
    decreases ahead(part, trail).len(), items.len() - i,
{
    if 0 <= i < items.len() {
        let item = items[i];
        let below = next_of(part, item, reverse);
        assert(part.entry_of(item) is Some);
        if !trail.contains(item) && below.len() > 0 {
            ahead_shrinks(part, trail, item, reverse);
            assert forall|j: int| 0 <= j < below.len() implies part.entry_of(
                #[trigger] below[j],
            ) is Some by {
                crate::graph::a_complete_graph_is_closed(part, reverse, item, j);
            }
            a_complete_part_has_the_whole_branches(
                part,
                whole,
                below,
                0,
                trail.push(item),
                prefix + indentation(i == items.len() - 1),
                depth + 1,
                max_depth,
                reverse,
            );
        }
        a_complete_part_has_the_whole_branches(
            part,
            whole,
            items,
            i + 1,
            trail,
            prefix,
            depth,
            max_depth,
            reverse,
        );
    }
}

/// Whether the entries of `part` lead where those of `whole` lead.
pub open spec fn is_part(part: DependencyGraph, whole: DependencyGraph, reverse: bool) -> bool {
    forall|file: Seq<char>| #[trigger]
        part.entry_of(file) is Some ==> next_of(part, file, reverse) == next_of(
            whole,
            file,
            reverse,
        )
}

/// A part of a graph that no step leads out of has the whole tree of each of its
/// files.
pub proof fn a_complete_part_has_the_whole_tree(
    part: DependencyGraph,
    whole: DependencyGraph,
    root: Seq<char>,
    max_depth: Option<usize>,
    reverse: bool,
)
    requires
        crate::graph::is_complete(part, reverse),
        is_part(part, whole, reverse),
        part.entry_of(root) is Some,
    ensures
        tree_text(part, root, max_depth, reverse) == tree_text(whole, root, max_depth, reverse),
{
    let items = next_of(part, root, reverse);
    assert forall|j: int| 0 <= j < items.len() implies part.entry_of(#[trigger] items[j]) is Some by {
        crate::graph::a_complete_graph_is_closed(part, reverse, root, j);
    }
    a_complete_part_has_the_whole_branches(
        part,
        whole,
        items,
        0,
        seq![root],
        Seq::empty(),
        1,
        max_depth,
        reverse,
    );
}

// ---------------------------------------------------------------------------
// The depth limit
// ---------------------------------------------------------------------------
/// A line of a tree, without the end of the line, and how far it is from the
/// root.
pub struct Row {
    pub depth: nat,
    pub line: Seq<char>,
}

/// The rows of `items` from position `i` on, each with those of the subtree
/// below it, where nothing is cut off.
pub open spec fn branch_rows(
    graph: DependencyGraph,
    items: Seq<Seq<char>>,
    i: int,
    trail: Seq<Seq<char>>,
    prefix: Seq<char>,
    depth: nat,
    reverse: bool,
) -> Seq<Row>
    decreases ahead(graph, trail).len(), items.len() - i,
{
    if i < 0 || i >= items.len() {
        Seq::empty()
    } else {
        let is_last = i == items.len() - 1;
        let label = prefix + connector(is_last) + items[i];
        let below = next_of(graph, items[i], reverse);
        let entry = if trail.contains(items[i]) {
            seq![Row { depth, line: label + "  (cycle)"@ }]
        } else if below.len() == 0 {
            seq![Row { depth, line: label }]
        } else {
            proof {
                ahead_shrinks(graph, trail, items[i], reverse);
            }
            seq![Row { depth, line: label }] + branch_rows(
                graph,
                below,
                0,
                trail.push(items[i]),
                prefix + indentation(is_last),
                depth + 1,
                reverse,
            )
        };
        entry + branch_rows(graph, items, i + 1, trail, prefix, depth, reverse)
    }
}

/// The rows of the whole tree: the root, and what lies below it.
pub open spec fn tree_rows(graph: DependencyGraph, root: Seq<char>, reverse: bool) -> Seq<Row> {
    seq![Row { depth: 0, line: root }] + branch_rows(
        graph,
        next_of(graph, root, reverse),
        0,
        seq![root],
        Seq::empty(),
        1,
        reverse,
    )
}

/// The text of rows, each on its line.
pub open spec fn rows_text(rows: Seq<Row>) -> Seq<char>
    decreases rows.len(),
{
    if rows.len() == 0 {
        Seq::empty()
    } else {
        rows[0].line + "\n"@ + rows_text(rows.drop_first())
    }
}

/// The rows without those that are deeper than `limit`. An ellipsis marks each
/// row at the limit that has lost the rows below it.
pub open spec fn cut(rows: Seq<Row>, limit: nat) -> Seq<Row>
    decreases rows.len(),
{
    if rows.len() == 0 {
        Seq::empty()
    } else {
        let row = rows[0];
        let rest = cut(rows.drop_first(), limit);
        if row.depth > limit {
            rest
        } else if row.depth == limit && rows.len() > 1 && rows[1].depth > limit {
            seq![Row { depth: row.depth, line: row.line + "  …"@ }] + rest
        } else {
            seq![row] + rest
        }
    }
}

proof fn joined_rows_have_joined_texts(a: Seq<Row>, b: Seq<Row>)
    ensures
        rows_text(a + b) == rows_text(a) + rows_text(b),
    decreases a.len(),
{
    if a.len() == 0 {
        assert(a + b == b);
        assert(Seq::<char>::empty() + rows_text(b) == rows_text(b));
    } else {
        joined_rows_have_joined_texts(a.drop_first(), b);
        assert((a + b).drop_first() == a.drop_first() + b);
        assert(a[0].line + "\n"@ + (rows_text(a.drop_first()) + rows_text(b)) == a[0].line + "\n"@
            + rows_text(a.drop_first()) + rows_text(b));
    }
}

proof fn joined_rows_are_cut_apart(a: Seq<Row>, b: Seq<Row>, limit: nat)
    requires
        b.len() > 0 ==> b[0].depth <= limit,
    ensures
        cut(a + b, limit) == cut(a, limit) + cut(b, limit),
    decreases a.len(),
{
    if a.len() == 0 {
        assert(a + b == b);
        assert(cut(a, limit) + cut(b, limit) == cut(b, limit));
    } else {
        joined_rows_are_cut_apart(a.drop_first(), b, limit);
        assert((a + b).drop_first() == a.drop_first() + b);
        let whole = cut(a + b, limit);
        assert(whole == cut(a, limit) + cut(b, limit));
    }
}

proof fn deep_rows_are_cut_off(rows: Seq<Row>, limit: nat)
    requires
        forall|j: int| 0 <= j < rows.len() ==> (#[trigger] rows[j]).depth > limit,
    ensures
        cut(rows, limit) == Seq::<Row>::empty(),
    decreases rows.len(),
{
    if rows.len() > 0 {
        assert forall|j: int| 0 <= j < rows.drop_first().len() implies (
        #[trigger] rows.drop_first()[j]).depth > limit by {
            assert(rows.drop_first()[j] == rows[j + 1]);
        }
        deep_rows_are_cut_off(rows.drop_first(), limit);
    }
}

proof fn shallow_rows_stay(rows: Seq<Row>, limit: nat)
    requires
        forall|j: int| 0 <= j < rows.len() ==> (#[trigger] rows[j]).depth <= limit,
    ensures
        cut(rows, limit) == rows,
    decreases rows.len(),
{
    if rows.len() > 0 {
        assert forall|j: int| 0 <= j < rows.drop_first().len() implies (
        #[trigger] rows.drop_first()[j]).depth <= limit by {
            assert(rows.drop_first()[j] == rows[j + 1]);
        }
        shallow_rows_stay(rows.drop_first(), limit);
        assert(seq![rows[0]] + rows.drop_first() == rows);
    }
}

/// The rows of a list start at its own depth, and none is nearer to the root.
proof fn rows_go_down(
    graph: DependencyGraph,
    items: Seq<Seq<char>>,
    i: int,
    trail: Seq<Seq<char>>,
    prefix: Seq<char>,
    depth: nat,
    reverse: bool,
)
    ensures
        ({
            let rows = branch_rows(graph, items, i, trail, prefix, depth, reverse);
            &&& 0 <= i < items.len() <==> rows.len() > 0
            &&& rows.len() > 0 ==> rows[0].depth == depth
            &&& forall|j: int| 0 <= j < rows.len() ==> (#[trigger] rows[j]).depth >= depth
        }),
    decreases ahead(graph, trail).len(), items.len() - i,
{
    if 0 <= i < items.len() {
        let item = items[i];
        let below = next_of(graph, item, reverse);
        if !trail.contains(item) && below.len() > 0 {
            ahead_shrinks(graph, trail, item, reverse);
            rows_go_down(
                graph,
                below,
                0,
                trail.push(item),
                prefix + indentation(i == items.len() - 1),
                depth + 1,
                reverse,
            );
        }
        rows_go_down(graph, items, i + 1, trail, prefix, depth, reverse);
    }
}

proof fn unlimited_branches_are_rows(
    graph: DependencyGraph,
    items: Seq<Seq<char>>,
    i: int,
    trail: Seq<Seq<char>>,
    prefix: Seq<char>,
    depth: nat,
    reverse: bool,
)
    ensures
        branches(graph, items, i, trail, prefix, depth, None, reverse) == rows_text(
            branch_rows(graph, items, i, trail, prefix, depth, reverse),
        ),
    decreases ahead(graph, trail).len(), items.len() - i,
{
    if 0 <= i < items.len() {
        let item = items[i];
        let is_last = i == items.len() - 1;
        let label = prefix + connector(is_last) + item;
        let below = next_of(graph, item, reverse);
        let rest = branch_rows(graph, items, i + 1, trail, prefix, depth, reverse);
        unlimited_branches_are_rows(graph, items, i + 1, trail, prefix, depth, reverse);
        if trail.contains(item) {
            let row = Row { depth, line: label + "  (cycle)"@ };
            a_row_is_a_line(row);
            joined_rows_have_joined_texts(seq![row], rest);
            line_ends_join(label, "  (cycle)"@, "  (cycle)\n"@);
            the_marks_end_their_lines();
        } else if below.len() == 0 {
            let row = Row { depth, line: label };
            a_row_is_a_line(row);
            joined_rows_have_joined_texts(seq![row], rest);
        } else {
            ahead_shrinks(graph, trail, item, reverse);
            let row = Row { depth, line: label };
            let sub = branch_rows(
                graph,
                below,
                0,
                trail.push(item),
                prefix + indentation(is_last),
                depth + 1,
                reverse,
            );
            unlimited_branches_are_rows(
                graph,
                below,
                0,
                trail.push(item),
                prefix + indentation(is_last),
                depth + 1,
                reverse,
            );
            a_row_is_a_line(row);
            joined_rows_have_joined_texts(seq![row], sub);
            joined_rows_have_joined_texts(seq![row] + sub, rest);
        }
    }
}

proof fn a_row_is_a_line(row: Row)
    ensures
        rows_text(seq![row]) == row.line + "\n"@,
{
    reveal_with_fuel(rows_text, 2);
    let rows = seq![row];
    assert(rows.drop_first() == Seq::<Row>::empty());
    assert(rows[0].line + "\n"@ + Seq::<char>::empty() == row.line + "\n"@);
}

proof fn the_marks_end_their_lines()
    ensures
        "  (cycle)"@ + "\n"@ == "  (cycle)\n"@,
        "  …"@ + "\n"@ == "  …\n"@,
{
    reveal_strlit("  (cycle)");
    reveal_strlit("  (cycle)\n");
    reveal_strlit("  …");
    reveal_strlit("  …\n");
    reveal_strlit("\n");
}

proof fn limited_branches_are_cut_rows(
    graph: DependencyGraph,
    items: Seq<Seq<char>>,
    i: int,
    trail: Seq<Seq<char>>,
    prefix: Seq<char>,
    depth: nat,
    limit: usize,
    reverse: bool,
)
    requires
        1 <= depth <= deepest(limit),
    ensures
        branches(graph, items, i, trail, prefix, depth, Some(limit), reverse) == rows_text(
            cut(branch_rows(graph, items, i, trail, prefix, depth, reverse), deepest(limit)),
        ),
    decreases ahead(graph, trail).len(), items.len() - i,
{
    if 0 <= i < items.len() {
        let k = deepest(limit);
        let item = items[i];
        let is_last = i == items.len() - 1;
        let label = prefix + connector(is_last) + item;
        let below = next_of(graph, item, reverse);
        let rest = branch_rows(graph, items, i + 1, trail, prefix, depth, reverse);
        let deeper = prefix + indentation(is_last);
        limited_branches_are_cut_rows(
            graph,
            items,
            i + 1,
            trail,
            prefix,
            depth,
            limit,
            reverse,
        );
        rows_go_down(graph, items, i + 1, trail, prefix, depth, reverse);
        the_marks_end_their_lines();
        if trail.contains(item) || below.len() == 0 {
            let row = if trail.contains(item) {
                Row { depth, line: label + "  (cycle)"@ }
            } else {
                Row { depth, line: label }
            };
            a_row_is_a_line(row);
            line_ends_join(label, "  (cycle)"@, "  (cycle)\n"@);
            one_row_stays(row, k);
            joined_rows_are_cut_apart(seq![row], rest, k);
            joined_rows_have_joined_texts(seq![row], cut(rest, k));
        } else {
            ahead_shrinks(graph, trail, item, reverse);
            let row = Row { depth, line: label };
            let sub = branch_rows(graph, below, 0, trail.push(item), deeper, depth + 1, reverse);
            rows_go_down(graph, below, 0, trail.push(item), deeper, depth + 1, reverse);
            joined_rows_are_cut_apart(seq![row] + sub, rest, k);
            assert((seq![row] + sub).drop_first() == sub);
            if depth == k {
                let marked = Row { depth, line: label + "  …"@ };
                deep_rows_are_cut_off(sub, k);
                assert(cut(seq![row] + sub, k) == seq![marked]);
                a_row_is_a_line(marked);
                line_ends_join(label, "  …"@, "  …\n"@);
                joined_rows_have_joined_texts(seq![marked], cut(rest, k));
            } else {
                limited_branches_are_cut_rows(
                    graph,
                    below,
                    0,
                    trail.push(item),
                    deeper,
                    depth + 1,
                    limit,
                    reverse,
                );
                assert(cut(seq![row] + sub, k) == seq![row] + cut(sub, k));
                a_row_is_a_line(row);
                joined_rows_have_joined_texts(seq![row], cut(sub, k));
                joined_rows_have_joined_texts(seq![row] + cut(sub, k), cut(rest, k));
            }
        }
    }
}

proof fn one_row_stays(row: Row, limit: nat)
    requires
        row.depth <= limit,
    ensures
        cut(seq![row], limit) == seq![row],
{
    shallow_rows_stay(seq![row], limit);
}

proof fn line_ends_join(label: Seq<char>, mark: Seq<char>, ended: Seq<char>)
    ensures
        mark + "\n"@ == ended ==> label + mark + "\n"@ == label + ended,
{
    assert(label + mark + "\n"@ == label + (mark + "\n"@));
}

/// The depth of the deepest rows that a limit leaves: the direct neighbours of
/// the root are always shown.
pub open spec fn deepest(limit: usize) -> nat {
    if limit == 0 {
        1
    } else {
        limit as nat
    }
}

/// The tree with a depth limit is the one without, but for the rows that are
/// deeper than the limit: they are removed, and an ellipsis marks each row that
/// has lost the rows below it.
pub proof fn a_limit_cuts_the_deeper_rows(
    graph: DependencyGraph,
    root: Seq<char>,
    limit: usize,
    reverse: bool,
)
    ensures
        tree_text(graph, root, None, reverse) == rows_text(tree_rows(graph, root, reverse)),
        tree_text(graph, root, Some(limit), reverse) == rows_text(
            cut(tree_rows(graph, root, reverse), deepest(limit)),
        ),
{
    let items = next_of(graph, root, reverse);
    let none = Seq::<char>::empty();
    let top = Row { depth: 0, line: root };
    let rows = branch_rows(graph, items, 0, seq![root], none, 1, reverse);
    unlimited_branches_are_rows(graph, items, 0, seq![root], none, 1, reverse);
    limited_branches_are_cut_rows(graph, items, 0, seq![root], none, 1, limit, reverse);
    rows_go_down(graph, items, 0, seq![root], none, 1, reverse);
    a_row_is_a_line(top);
    one_row_stays(top, deepest(limit));
    joined_rows_are_cut_apart(seq![top], rows, deepest(limit));
    joined_rows_have_joined_texts(seq![top], rows);
    joined_rows_have_joined_texts(seq![top], cut(rows, deepest(limit)));
}

/// A limit that is no less than the depth of the tree cuts nothing off.
pub proof fn a_limit_beyond_the_tree_cuts_nothing(
    graph: DependencyGraph,
    root: Seq<char>,
    limit: usize,
    reverse: bool,
)
    requires
        forall|j: int|
            0 <= j < tree_rows(graph, root, reverse).len() ==> (#[trigger] tree_rows(
                graph,
                root,
                reverse,
            )[j]).depth <= deepest(limit),
    ensures
        tree_text(graph, root, Some(limit), reverse) == tree_text(graph, root, None, reverse),
{
    a_limit_cuts_the_deeper_rows(graph, root, limit, reverse);
    shallow_rows_stay(tree_rows(graph, root, reverse), deepest(limit));
}

// ---------------------------------------------------------------------------
// From the entries of the graph to the lines
// ---------------------------------------------------------------------------
/// Each file that the first entry for a path records is one step further, in
/// order, and no other file is: with `reverse` its dependents, else its imports.
pub proof fn all_recorded_files_are_followed(graph: DependencyGraph, i: int)
    requires
        crate::graph::is_first(graph, i),
    ensures
        ({
            let entry = graph.entries@[i];
            let back = next_of(graph, entry.path@, true);
            let on = next_of(graph, entry.path@, false);
            &&& back.len() == entry.dependents@.len()
            &&& forall|j: int|
                0 <= j < entry.dependents@.len() ==> #[trigger] back[j] == entry.dependents@[j]@
            &&& entry.node is None ==> on.len() == 0
            &&& entry.node matches Some(node) ==> on.len() == node.depends_on@.len() && forall|j: int|
                0 <= j < node.depends_on@.len() ==> #[trigger] on[j] == node.depends_on@[j]@
        }),
{
    crate::graph::the_first_entry_counts(graph, i);
}

/// From a path without an entry no step leads on.
pub proof fn an_unlisted_file_leads_nowhere(graph: DependencyGraph, file: Seq<char>, reverse: bool)
    requires
        forall|i: int| 0 <= i < graph.entries@.len() ==> (#[trigger] graph.entries@[i]).path@ != file,
    ensures
        next_of(graph, file, reverse).len() == 0,
{
    crate::graph::an_unlisted_path_is_unknown(graph, file);
}

/// Whether `files` are those that an entry records in the one or the other
/// direction.
pub open spec fn are_recorded(
    files: Seq<Seq<char>>,
    entry: crate::graph::GraphEntry,
    reverse: bool,
) -> bool {
    if reverse {
        &&& files.len() == entry.dependents@.len()
        &&& forall|j: int| 0 <= j < files.len() ==> #[trigger] files[j] == entry.dependents@[j]@
    } else {
        match entry.node {
            Some(node) => {
                &&& files.len() == node.depends_on@.len()
                &&& forall|j: int|
                    0 <= j < files.len() ==> #[trigger] files[j] == node.depends_on@[j]@
            },
            None => files.len() == 0,
        }
    }
}

proof fn recorded_files_are_next(
    graph: DependencyGraph,
    k: int,
    files: Seq<Seq<char>>,
    reverse: bool,
)
    requires
        crate::graph::is_first(graph, k),
        are_recorded(files, graph.entries@[k], reverse),
    ensures
        next_of(graph, graph.entries@[k].path@, reverse) == files,
{
    all_recorded_files_are_followed(graph, k);
    assert(next_of(graph, graph.entries@[k].path@, reverse) =~= files);
}

/// The line of a file begins with the prefix and a branch, a corner where the
/// file is the last one. A file that stands on its own trail is marked as a
/// cycle, and nothing stands below it; it does not matter what it records.
pub proof fn a_file_on_its_own_trail_is_a_cycle(
    graph: DependencyGraph,
    items: Seq<Seq<char>>,
    i: int,
    trail: Seq<Seq<char>>,
    prefix: Seq<char>,
    depth: nat,
    max_depth: Option<usize>,
    reverse: bool,
    t: int,
)
    requires
        0 <= i < items.len(),
        0 <= t < trail.len(),
        trail[t] == items[i],
    ensures
        branches(graph, items, i, trail, prefix, depth, max_depth, reverse) == prefix + (if i + 1
            == items.len() {
            "└── "@
        } else {
            "├── "@
        }) + items[i] + "  (cycle)\n"@ + branches(
            graph,
            items,
            i + 1,
            trail,
            prefix,
            depth,
            max_depth,
            reverse,
        ),
{
    assert(trail.contains(items[i]));
}

/// A file that is not on its own trail and of which the graph has no entry, or
/// one that records no file in that direction, is shown on a line of its own.
pub proof fn a_file_that_leads_nowhere_is_a_leaf(
    graph: DependencyGraph,
    items: Seq<Seq<char>>,
    i: int,
    trail: Seq<Seq<char>>,
    prefix: Seq<char>,
    depth: nat,
    max_depth: Option<usize>,
    reverse: bool,
    k: int,
)
    requires
        0 <= i < items.len(),
        forall|t: int| 0 <= t < trail.len() ==> #[trigger] trail[t] != items[i],
        (crate::graph::is_first(graph, k) && graph.entries@[k].path@ == items[i] && are_recorded(
            Seq::empty(),
            graph.entries@[k],
            reverse,
        )) || (forall|e: int|
            0 <= e < graph.entries@.len() ==> (#[trigger] graph.entries@[e]).path@ != items[i]),
    ensures
        branches(graph, items, i, trail, prefix, depth, max_depth, reverse) == prefix + (if i + 1
            == items.len() {
            "└── "@
        } else {
            "├── "@
        }) + items[i] + "\n"@ + branches(
            graph,
            items,
            i + 1,
            trail,
            prefix,
            depth,
            max_depth,
            reverse,
        ),
{
    if crate::graph::is_first(graph, k) && graph.entries@[k].path@ == items[i] && are_recorded(
        Seq::empty(),
        graph.entries@[k],
        reverse,
    ) {
        recorded_files_are_next(graph, k, Seq::empty(), reverse);
    } else {
        an_unlisted_file_leads_nowhere(graph, items[i], reverse);
    }
}

/// A file that is not on its own trail and records files has all of them below
/// it, as a walk over them shows them that has the file on its trail, is one
/// level deeper and further indented. At the depth limit an ellipsis stands for
/// them instead.
pub proof fn a_file_has_what_it_records_below_it(
    graph: DependencyGraph,
    items: Seq<Seq<char>>,
    i: int,
    trail: Seq<Seq<char>>,
    prefix: Seq<char>,
    depth: nat,
    max_depth: Option<usize>,
    reverse: bool,
    k: int,
    files: Seq<Seq<char>>,
)
    requires
        0 <= i < items.len(),
        forall|t: int| 0 <= t < trail.len() ==> #[trigger] trail[t] != items[i],
        crate::graph::is_first(graph, k),
        graph.entries@[k].path@ == items[i],
        are_recorded(files, graph.entries@[k], reverse),
        files.len() > 0,
    ensures
        ({
            let is_last = i + 1 == items.len();
            let label = prefix + (if is_last {
                "└── "@
            } else {
                "├── "@
            }) + items[i];
            let rest = branches(graph, items, i + 1, trail, prefix, depth, max_depth, reverse);
            let shown = branches(graph, items, i, trail, prefix, depth, max_depth, reverse);
            if max_depth is Some && max_depth->Some_0 <= depth {
                shown == label + "  …\n"@ + rest
            } else {
                shown == label + "\n"@ + branches(
                    graph,
                    files,
                    0,
                    trail.push(items[i]),
                    prefix + (if is_last {
                        "    "@
                    } else {
                        "│   "@
                    }),
                    depth + 1,
                    max_depth,
                    reverse,
                ) + rest
            }
        }),
{
    recorded_files_are_next(graph, k, files, reverse);
}

/// Behind the last item nothing is shown.
pub proof fn nothing_stands_behind_the_last_item(
    graph: DependencyGraph,
    items: Seq<Seq<char>>,
    trail: Seq<Seq<char>>,
    prefix: Seq<char>,
    depth: nat,
    max_depth: Option<usize>,
    reverse: bool,
)
    ensures
        branches(
            graph,
            items,
            items.len() as int,
            trail,
            prefix,
            depth,
            max_depth,
            reverse,
        ).len() == 0,
{
}

/// A tree is its root, and below it a walk over the files that the root records:
/// at the first level, without a prefix, with the root on the trail.
pub proof fn a_tree_starts_with_what_its_root_records(
    graph: DependencyGraph,
    k: int,
    files: Seq<Seq<char>>,
    max_depth: Option<usize>,
    reverse: bool,
)
    requires
        crate::graph::is_first(graph, k),
        are_recorded(files, graph.entries@[k], reverse),
    ensures
        ({
            let root = graph.entries@[k].path@;
            tree_text(graph, root, max_depth, reverse) == root + "\n"@ + branches(
                graph,
                files,
                0,
                seq![root],
                Seq::empty(),
                1,
                max_depth,
                reverse,
            )
        }),
{
    recorded_files_are_next(graph, k, files, reverse);
}

/// The tree of a path without an entry is the path alone.
pub proof fn the_tree_of_an_unlisted_file_is_its_path(
    graph: DependencyGraph,
    root: Seq<char>,
    max_depth: Option<usize>,
    reverse: bool,
)
    requires
        forall|i: int| 0 <= i < graph.entries@.len() ==> (#[trigger] graph.entries@[i]).path@ != root,
    ensures
        tree_text(graph, root, max_depth, reverse) == root + "\n"@,
{
    an_unlisted_file_leads_nowhere(graph, root, reverse);
    assert(root + "\n"@ + Seq::<char>::empty() == root + "\n"@);
}

/// The rows that lie `depth` steps from the root.
pub open spec fn rows_at(rows: Seq<Row>, depth: nat) -> Seq<Row> {
    rows.filter(|row: Row| row.depth == depth)
}

proof fn one_row_at_a_depth(rows: Seq<Row>, depth: nat)
    requires
        rows.len() > 0,
        forall|j: int| 1 <= j < rows.len() ==> (#[trigger] rows[j]).depth != depth,
    ensures
        rows[0].depth == depth ==> rows_at(rows, depth) == seq![rows[0]],
        rows[0].depth != depth ==> rows_at(rows, depth) == Seq::<Row>::empty(),
    decreases rows.len(),
{
    reveal(Seq::filter);
    if rows.len() == 1 {
        assert(rows.drop_last() == Seq::<Row>::empty());
        assert(rows.drop_last().filter(|row: Row| row.depth == depth) == Seq::<Row>::empty());
        assert(rows_at(rows, depth) =~= if rows[0].depth == depth {
            seq![rows[0]]
        } else {
            Seq::<Row>::empty()
        });
    } else {
        one_row_at_a_depth(rows.drop_last(), depth);
    }
}

proof fn each_item_has_a_row(
    graph: DependencyGraph,
    items: Seq<Seq<char>>,
    i: int,
    trail: Seq<Seq<char>>,
    prefix: Seq<char>,
    depth: nat,
    reverse: bool,
)
    requires
        0 <= i <= items.len(),
    ensures
        ({
            let rows = rows_at(
                branch_rows(graph, items, i, trail, prefix, depth, reverse),
                depth,
            );
            &&& rows.len() == items.len() - i
            &&& forall|j: int|
                0 <= j < rows.len() ==> shows_file(
                    #[trigger] rows[j],
                    prefix + connector(i + j == items.len() - 1) + items[i + j],
                )
        }),
    decreases items.len() - i,
{
    let rows = branch_rows(graph, items, i, trail, prefix, depth, reverse);
    if i < items.len() {
        let is_last = i == items.len() - 1;
        let label = prefix + connector(is_last) + items[i];
        let below = next_of(graph, items[i], reverse);
        let rest = branch_rows(graph, items, i + 1, trail, prefix, depth, reverse);
        each_item_has_a_row(graph, items, i + 1, trail, prefix, depth, reverse);
        let entry = rows.take(rows.len() - rest.len());
        let deeper = prefix + indentation(is_last);
        rows_go_down(graph, below, 0, trail.push(items[i]), deeper, depth + 1, reverse);
        assert(entry + rest == rows);
        one_row_at_a_depth(entry, depth);
        let at = |row: Row| row.depth == depth;
        Seq::filter_distributes_over_add(entry, rest, at);
        assert(rows_at(rows, depth) == seq![entry[0]] + rows_at(rest, depth));
        assert(shows_file(entry[0], label));
        assert forall|j: int| 0 <= j < items.len() - i implies shows_file(
            #[trigger] rows_at(rows, depth)[j],
            prefix + connector(i + j == items.len() - 1) + items[i + j],
        ) by {
            if j > 0 {
                assert(rows_at(rows, depth)[j] == rows_at(rest, depth)[j - 1]);
            }
        }
    } else {
        reveal(Seq::filter);
    }
}

/// Whether a row shows a file with that label: marked as a cycle or not.
pub open spec fn shows_file(row: Row, label: Seq<char>) -> bool {
    row.line == label || row.line == label + "  (cycle)"@
}

/// The tree of a root has a row of the first level for each of the files that
/// the root records, in order.
pub proof fn each_recorded_file_has_a_row(
    graph: DependencyGraph,
    k: int,
    files: Seq<Seq<char>>,
    reverse: bool,
)
    requires
        crate::graph::is_first(graph, k),
        are_recorded(files, graph.entries@[k], reverse),
    ensures
        ({
            let rows = rows_at(tree_rows(graph, graph.entries@[k].path@, reverse), 1);
            &&& rows.len() == files.len()
            &&& forall|j: int|
                0 <= j < files.len() ==> shows_file(
                    #[trigger] rows[j],
                    (if j + 1 == files.len() {
                        "└── "@
                    } else {
                        "├── "@
                    }) + files[j],
                )
        }),
{
    let root = graph.entries@[k].path@;
    let none = Seq::<char>::empty();
    recorded_files_are_next(graph, k, files, reverse);
    each_item_has_a_row(graph, files, 0, seq![root], none, 1, reverse);
    let top = seq![Row { depth: 0, line: root }];
    let below = branch_rows(graph, files, 0, seq![root], none, 1, reverse);
    let at = |row: Row| row.depth == 1;
    one_row_at_a_depth(top, 1);
    Seq::filter_distributes_over_add(top, below, at);
    let rows = rows_at(tree_rows(graph, root, reverse), 1);
    assert(rows == rows_at(below, 1));
    assert forall|j: int| 0 <= j < files.len() implies shows_file(
        #[trigger] rows[j],
        (if j + 1 == files.len() {
            "└── "@
        } else {
            "├── "@
        }) + files[j],
    ) by {
        let label = connector(j == files.len() - 1) + files[j];
        assert(shows_file(rows[j], none + connector(j == files.len() - 1) + files[j]));
        assert(none + connector(j == files.len() - 1) == connector(j == files.len() - 1));
    }
}

} // verus!
