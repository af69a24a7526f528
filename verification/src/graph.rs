//! The dependency graph of an indexed code base, as plain values.

use vstd::prelude::*;

use crate::text::same;

verus! {

/// A symbol that a file defines.
#[derive(Debug)]
pub struct Symbol {
    pub kind: String,
    pub name: String,
    pub line: usize,
}

/// What an indexed file defines and imports.
#[derive(Debug)]
pub struct FileNode {
    pub symbols: Vec<Symbol>,
    pub depends_on: Vec<String>,
}

/// All that the graph knows of one path: the node of an indexed file, the files
/// that import it directly, and those that a change to it reaches.
#[derive(Debug)]
pub struct GraphEntry {
    pub path: String,
    pub node: Option<FileNode>,
    pub dependents: Vec<String>,
    pub impact: Vec<String>,
}

/// A dependency graph: one entry for each path that it knows. Where a path has
/// several entries, the first one counts.
#[derive(Debug)]
pub struct DependencyGraph {
    pub entries: Vec<GraphEntry>,
}

/// The first of `entries` from position `i` on that is about `path`.
pub open spec fn first_entry(entries: Seq<GraphEntry>, path: Seq<char>, i: int) -> Option<
    GraphEntry,
>
    decreases entries.len() - i,
{
    if i < 0 || i >= entries.len() {
        None
    } else if entries[i].path@ == path {
        Some(entries[i])
    } else {
        first_entry(entries, path, i + 1)
    }
}

impl DependencyGraph {
    /// What the graph knows of `path`.
    pub open spec fn entry_of(self, path: Seq<char>) -> Option<GraphEntry> {
        first_entry(self.entries@, path, 0)
    }

    /// The node of `path`, where the file is indexed.
    pub open spec fn node_of(self, path: Seq<char>) -> Option<FileNode> {
        match self.entry_of(path) {
            Some(entry) => entry.node,
            None => None,
        }
    }

    /// The files that import `path` directly.
    pub open spec fn dependents_of(self, path: Seq<char>) -> Seq<Seq<char>> {
        match self.entry_of(path) {
            Some(entry) => entry.dependents.deep_view(),
            None => Seq::empty(),
        }
    }

    /// The files that a change to `path` reaches.
    pub open spec fn impact_of(self, path: Seq<char>) -> Seq<Seq<char>> {
        match self.entry_of(path) {
            Some(entry) => entry.impact.deep_view(),
            None => Seq::empty(),
        }
    }

    /// The paths that the graph knows.
    pub open spec fn paths(self) -> Set<Seq<char>> {
        self.entries@.map_values(|e: GraphEntry| e.path@).to_set()
    }

    fn find(&self, path: &str) -> (r: Option<&GraphEntry>)
        ensures
            r == (match self.entry_of(path@) {
                Some(entry) => Some(&entry),
                None => None,
            }),
    {
        for i in 0..self.entries.len()
            invariant
                self.entry_of(path@) == first_entry(self.entries@, path@, i as int),
        {
            if same(&self.entries[i].path, path) {
                return Some(&self.entries[i]);
            }
        }
        None
    }

    /// The node of a file, if it is indexed.
    pub fn deps(&self, file: &str) -> (r: Option<&FileNode>)
        ensures
            r == (match self.node_of(file@) {
                Some(node) => Some(&node),
                None => None,
            }),
    {
        match self.find(file) {
            Some(entry) => entry.node.as_ref(),
            None => None,
        }
    }

    /// The files that import `file` directly.
    pub fn dependents(&self, file: &str) -> (r: Vec<String>)
        ensures
            r.deep_view() == self.dependents_of(file@),
    {
        match self.find(file) {
            Some(entry) => copied(&entry.dependents),
            None => Vec::new(),
        }
    }

    /// The files that a change to `file` reaches.
    pub fn impact(&self, file: &str) -> (r: Vec<String>)
        ensures
            r.deep_view() == self.impact_of(file@),
    {
        match self.find(file) {
            Some(entry) => copied(&entry.impact),
            None => Vec::new(),
        }
    }
}

/// A copy of a list of texts.
pub fn copied(v: &Vec<String>) -> (r: Vec<String>)
    ensures
        r.deep_view() == v.deep_view(),
{
    let mut r: Vec<String> = Vec::new();
    for i in 0..v.len()
        invariant
            r.len() == i,
            forall|j: int| 0 <= j < i ==> r[j]@ == v[j]@,
    {
        r.push(v[i].clone());
    }
    r
}

/// A path of which the graph knows something is one of its paths.
pub proof fn known_paths_are_listed(graph: DependencyGraph, path: Seq<char>, i: int)
    requires
        0 <= i,
        first_entry(graph.entries@, path, i) is Some,
    ensures
        graph.paths().contains(path),
    decreases graph.entries@.len() - i,
{
    if i < graph.entries@.len() {
        let paths = graph.entries@.map_values(|e: GraphEntry| e.path@);
        if graph.entries@[i].path@ == path {
            assert(paths[i] == path);
        } else {
            known_paths_are_listed(graph, path, i + 1);
        }
    }
}

// ---------------------------------------------------------------------------
// A part of a graph
// ---------------------------------------------------------------------------
/// The files one step further from the file of an entry: those that it imports,
/// or with `reverse` those that import it.
pub open spec fn next_in(entry: GraphEntry, reverse: bool) -> Seq<Seq<char>> {
    if reverse {
        entry.dependents.deep_view()
    } else {
        match entry.node {
            Some(node) => node.depends_on.deep_view(),
            None => Seq::empty(),
        }
    }
}

/// The list of the files one step further. A file that is not indexed has none.
fn following(entry: &GraphEntry, reverse: bool) -> (r: Option<&Vec<String>>)
    ensures
        match r {
            Some(paths) => paths.deep_view() == next_in(*entry, reverse),
            None => next_in(*entry, reverse).len() == 0,
        },
{
    if reverse {
        Some(&entry.dependents)
    } else {
        match &entry.node {
            Some(node) => Some(&node.depends_on),
            None => None,
        }
    }
}

/// Whether the first `n` files one step further from an entry have entries too.
pub open spec fn are_listed(
    graph: DependencyGraph,
    entry: GraphEntry,
    reverse: bool,
    n: int,
) -> bool {
    forall|j: int|
        0 <= j < n ==> graph.entry_of(#[trigger] next_in(entry, reverse)[j]) is Some
}

/// Whether no step leads out of a graph: every file one step further from a file
/// with an entry has an entry.
pub open spec fn is_complete(graph: DependencyGraph, reverse: bool) -> bool {
    forall|i: int|
        0 <= i < graph.entries@.len() ==> are_listed(
            graph,
            #[trigger] graph.entries@[i],
            reverse,
            next_in(graph.entries@[i], reverse).len() as int,
        )
}

/// The part of a graph that the steps in one direction reach, as it is gathered:
/// the entries that are known, and how far the files that they name have been
/// looked through.
#[derive(Debug)]
pub struct GraphPart {
    pub graph: DependencyGraph,
    pub reverse: bool,
    pub row: usize,
    pub column: usize,
}

impl GraphPart {
    /// What has been looked through has entries.
    pub open spec fn is_sound(self) -> bool {
        let entries = self.graph.entries@;
        &&& self.row <= entries.len()
        &&& forall|i: int|
            0 <= i < self.row ==> are_listed(
                self.graph,
                #[trigger] entries[i],
                self.reverse,
                next_in(entries[i], self.reverse).len() as int,
            )
        &&& self.row < entries.len() ==> self.column <= next_in(
            entries[self.row as int],
            self.reverse,
        ).len() && are_listed(
            self.graph,
            entries[self.row as int],
            self.reverse,
            self.column as int,
        )
        &&& self.row == entries.len() ==> self.column == 0
    }

    /// A part with one entry, from which the steps start.
    pub fn new(start: GraphEntry, reverse: bool) -> (r: GraphPart)
        ensures
            r.is_sound(),
            r.graph.entries@ == seq![start],
            r.reverse == reverse,
    {
        let mut entries: Vec<GraphEntry> = Vec::new();
        entries.push(start);
        GraphPart { graph: DependencyGraph { entries }, reverse, row: 0, column: 0 }
    }

    /// A path that is one step from an entry and has none itself, if there is
    /// one. If there is none, the part is complete.
    pub fn missing_path(&mut self) -> (r: Option<String>)
        requires
            old(self).is_sound(),
        ensures
            final(self).is_sound(),
            final(self).graph == old(self).graph,
            final(self).reverse == old(self).reverse,
            match r {
                Some(path) => {
                    &&& old(self).graph.entry_of(path@) is None
                    &&& exists|i: int|
                        0 <= i < old(self).graph.entries@.len() && next_in(
                            #[trigger] old(self).graph.entries@[i],
                            old(self).reverse,
                        ).contains(path@)
                },
                None => is_complete(old(self).graph, old(self).reverse),
            },
    {
        while self.row < self.graph.entries.len()
            invariant
                self.is_sound(),
                self.graph == old(self).graph,
                self.reverse == old(self).reverse,
            decreases self.graph.entries.len() - self.row,
        {
            let row = self.row;
            let mut column = self.column;
            if let Some(paths) = following(&self.graph.entries[row], self.reverse) {
                let ghost entry = self.graph.entries@[row as int];
                while column < paths.len()
                    invariant
                        self.is_sound(),
                        self.graph == old(self).graph,
                        self.reverse == old(self).reverse,
                        row == self.row,
                        row < self.graph.entries@.len(),
                        entry == self.graph.entries@[row as int],
                        paths.deep_view() == next_in(entry, self.reverse),
                        column <= paths.len(),
                        are_listed(self.graph, entry, self.reverse, column as int),
                    decreases paths.len() - column,
                {
                    if self.graph.find(&paths[column]).is_none() {
                        let path = paths[column].clone();
                        assert(path@ == next_in(entry, self.reverse)[column as int]);
                        self.column = column;
                        return Some(path);
                    }
                    assert(next_in(entry, self.reverse)[column as int] == paths[column as int]@);
                    column += 1;
                }
            }
            self.row = row + 1;
            self.column = 0;
        }
        None
    }

    /// Takes one more entry in.
    pub fn add(&mut self, entry: GraphEntry)
        requires
            old(self).is_sound(),
        ensures
            final(self).is_sound(),
            final(self).graph.entries@ == old(self).graph.entries@.push(entry),
            final(self).reverse == old(self).reverse,
    {
        let ghost before = self.graph;
        self.graph.entries.push(entry);
        proof {
            assert forall|path: Seq<char>| before.entry_of(path) is Some implies #[trigger] self.graph.entry_of(
                path,
            ) is Some by {
                one_more_entry_hides_none(before.entries@, entry, path, 0);
            }
            assert forall|i: int| 0 <= i < before.entries@.len() implies self.graph.entries@[i]
                == before.entries@[i] by {}
        }
    }
}

proof fn one_more_entry_hides_none(
    entries: Seq<GraphEntry>,
    entry: GraphEntry,
    path: Seq<char>,
    i: int,
)
    requires
        0 <= i,
        first_entry(entries, path, i) is Some,
    ensures
        first_entry(entries.push(entry), path, i) == first_entry(entries, path, i),
    decreases entries.len() - i,
{
    if entries[i].path@ != path {
        one_more_entry_hides_none(entries, entry, path, i + 1);
    }
}

proof fn the_first_entry_is_an_entry(entries: Seq<GraphEntry>, path: Seq<char>, i: int) -> (j: int)
    requires
        0 <= i,
        first_entry(entries, path, i) is Some,
    ensures
        0 <= j < entries.len(),
        first_entry(entries, path, i) == Some(entries[j]),
    decreases entries.len() - i,
{
    if entries[i].path@ == path {
        i
    } else {
        the_first_entry_is_an_entry(entries, path, i + 1)
    }
}

/// The files one step further from a file that a complete graph has an entry for
/// have entries too.
pub proof fn a_complete_graph_is_closed(
    graph: DependencyGraph,
    reverse: bool,
    file: Seq<char>,
    j: int,
)
    requires
        is_complete(graph, reverse),
        graph.entry_of(file) is Some,
        0 <= j < next_in(graph.entry_of(file)->Some_0, reverse).len(),
    ensures
        graph.entry_of(next_in(graph.entry_of(file)->Some_0, reverse)[j]) is Some,
{
    let i = the_first_entry_is_an_entry(graph.entries@, file, 0);
    assert(are_listed(
        graph,
        graph.entries@[i],
        reverse,
        next_in(graph.entries@[i], reverse).len() as int,
    ));
}

// ---------------------------------------------------------------------------
// What the entries tell
// ---------------------------------------------------------------------------
/// Whether the entry at position `i` is the first one for its path.
pub open spec fn is_first(graph: DependencyGraph, i: int) -> bool {
    &&& 0 <= i < graph.entries@.len()
    &&& forall|j: int|
        0 <= j < i ==> (#[trigger] graph.entries@[j]).path@ != graph.entries@[i].path@
}

proof fn the_first_entry_is_found(graph: DependencyGraph, i: int, j: int)
    requires
        is_first(graph, i),
        0 <= j <= i,
    ensures
        first_entry(graph.entries@, graph.entries@[i].path@, j) == Some(graph.entries@[i]),
    decreases i - j,
{
    if j < i {
        the_first_entry_is_found(graph, i, j + 1);
    }
}

proof fn an_unlisted_path_is_not_found(graph: DependencyGraph, path: Seq<char>, j: int)
    requires
        forall|i: int| 0 <= i < graph.entries@.len() ==> (#[trigger] graph.entries@[i]).path@ != path,
        0 <= j,
    ensures
        first_entry(graph.entries@, path, j) is None,
    decreases graph.entries@.len() - j,
{
    if j < graph.entries@.len() {
        an_unlisted_path_is_not_found(graph, path, j + 1);
    }
}

/// What the graph tells of a path is what the first entry for it records: its
/// node, and all of its dependents and of the files that a change reaches, in
/// order.
pub proof fn the_first_entry_counts(graph: DependencyGraph, i: int)
    requires
        is_first(graph, i),
    ensures
        ({
            let entry = graph.entries@[i];
            let path = entry.path@;
            &&& graph.entry_of(path) == Some(entry)
            &&& graph.node_of(path) == entry.node
            &&& graph.dependents_of(path).len() == entry.dependents@.len()
            &&& forall|j: int|
                0 <= j < entry.dependents@.len() ==> #[trigger] graph.dependents_of(path)[j]
                    == entry.dependents@[j]@
            &&& graph.impact_of(path).len() == entry.impact@.len()
            &&& forall|j: int|
                0 <= j < entry.impact@.len() ==> #[trigger] graph.impact_of(path)[j]
                    == entry.impact@[j]@
        }),
{
    the_first_entry_is_found(graph, i, 0);
}

/// Of a path without an entry the graph tells nothing.
pub proof fn an_unlisted_path_is_unknown(graph: DependencyGraph, path: Seq<char>)
    requires
        forall|i: int| 0 <= i < graph.entries@.len() ==> (#[trigger] graph.entries@[i]).path@ != path,
    ensures
        graph.entry_of(path) is None,
        graph.node_of(path) is None,
        graph.dependents_of(path).len() == 0,
        graph.impact_of(path).len() == 0,
{
    an_unlisted_path_is_not_found(graph, path, 0);
}

/// A step from an entry leads to each of the files that it records, in order:
/// its dependents, or the imports of its node.
pub proof fn a_step_leads_to_all_that_is_recorded(entry: GraphEntry)
    ensures
        next_in(entry, true).len() == entry.dependents@.len(),
        forall|j: int|
            0 <= j < entry.dependents@.len() ==> #[trigger] next_in(entry, true)[j]
                == entry.dependents@[j]@,
        entry.node is None ==> next_in(entry, false).len() == 0,
        entry.node matches Some(node) ==> next_in(entry, false).len() == node.depends_on@.len()
            && forall|j: int|
            0 <= j < node.depends_on@.len() ==> #[trigger] next_in(entry, false)[j]
                == node.depends_on@[j]@,
{
}

/// In a complete graph each file that an entry records in that direction is the
/// path of an entry.
pub proof fn a_complete_graph_lists_what_it_records(
    graph: DependencyGraph,
    reverse: bool,
    i: int,
    j: int,
)
    requires
        is_complete(graph, reverse),
        0 <= i < graph.entries@.len(),
        0 <= j,
    ensures
        reverse && j < graph.entries@[i].dependents@.len() ==> exists|k: int|
            0 <= k < graph.entries@.len() && (#[trigger] graph.entries@[k]).path@
                == graph.entries@[i].dependents@[j]@,
        !reverse && (graph.entries@[i].node matches Some(node) && j < node.depends_on@.len())
            ==> exists|k: int|
            0 <= k < graph.entries@.len() && (#[trigger] graph.entries@[k]).path@
                == graph.entries@[i].node->Some_0.depends_on@[j]@,
{
    let entry = graph.entries@[i];
    let paths = next_in(entry, reverse);
    if j < paths.len() {
        assert(are_listed(graph, entry, reverse, paths.len() as int));
        let path = paths[j];
        assert(graph.entry_of(path) is Some);
        if forall|k: int| 0 <= k < graph.entries@.len() ==> (#[trigger] graph.entries@[k]).path@
            != path {
            an_unlisted_path_is_unknown(graph, path);
        }
    }
}

} // verus!
