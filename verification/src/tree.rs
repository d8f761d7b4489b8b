//! The tree flattener: a captured directory tree is flattened into the list
//! of relative paths of the regular files under its root.  A relative path is
//! the sequence of entry names leading from the root to the file; it is the
//! key joining a source file with its copy under each destination root.

use vstd::prelude::*;

verus! {

broadcast use vstd::std_specs::vec::axiom_vec_index_decreases;

/// One node of a captured directory tree: a regular file, or a directory with
/// its named entries in the order the filesystem listed them.  Symlinks,
/// hidden and special files are captured like ordinary files or directories.
pub enum FsNode {
    File,
    Dir(Vec<(String, FsNode)>),
}

/// The relative paths — sequences of entry names, in enumeration order — of
/// the regular files under a node.  A file node's one path is the empty path.
pub open spec fn spec_rel_paths(node: FsNode) -> Seq<Seq<Seq<char>>>
    decreases node, 0int,
{
    match node {
        FsNode::File => seq![Seq::<Seq<char>>::empty()],
        FsNode::Dir(entries) => dir_paths(entries, 0),
    }
}

/// Each path in `ps` with `name` prepended as its first component.
pub open spec fn with_first(name: Seq<char>, ps: Seq<Seq<Seq<char>>>) -> Seq<Seq<Seq<char>>> {
    ps.map_values(|p: Seq<Seq<char>>| seq![name] + p)
}

/// The relative paths contributed by the entries of a directory from position
/// `i` on: each entry's name prepended to every path under the entry's node.
pub open spec fn dir_paths(entries: Vec<(String, FsNode)>, i: int) -> Seq<Seq<Seq<char>>>
    decreases entries, entries@.len() - i,
{
    if i < 0 || i >= entries@.len() {
        Seq::empty()
    } else {
        with_first(entries@[i].0@, spec_rel_paths(entries@[i].1)) + dir_paths(entries, i + 1)
    }
}

/// Whether `path` — a sequence of entry names — leads to a regular file under
/// `node`.
pub open spec fn is_file_path(node: FsNode, path: Seq<Seq<char>>) -> bool
    decreases node, 0int,
{
    match node {
        FsNode::File => path.len() == 0,
        FsNode::Dir(entries) => dir_has_file_path(entries, 0, path),
    }
}

/// Whether some entry at position `i` or later names the path's first
/// component and leads to a file along the rest of the path.
pub open spec fn dir_has_file_path(
    entries: Vec<(String, FsNode)>,
    i: int,
    path: Seq<Seq<char>>,
) -> bool
    decreases entries, entries@.len() - i,
{
    if i < 0 || i >= entries@.len() {
        false
    } else {
        (path.len() >= 1 && path[0] == entries@[i].0@ && is_file_path(
            entries@[i].1,
            path.drop_first(),
        )) || dir_has_file_path(entries, i + 1, path)
    }
}

/// One file's path under an entry: the entry's name, then the file's path
/// within the entry's node.
fn prepend_component(name: &String, rest: &Vec<String>) -> (r: Vec<String>)
    ensures
        r.deep_view() == seq![name@] + rest.deep_view(),
{
    let mut r: Vec<String> = Vec::new();
    r.push(name.clone());
    let mut q: usize = 0;
    while q < rest.len()
        invariant
            q <= rest@.len(),
            r@.len() == 1 + q,
            r@[0]@ == name@,
            forall|m: int| 0 <= m < q ==> #[trigger] r@[1 + m] == rest@[m],
        decreases rest@.len() - q,
    {
        let ghost prev = r@;
        r.push(rest[q].clone());
        proof {
            assert(forall|m: int| 0 <= m < prev.len() ==> #[trigger] r@[m] == prev[m]);
        }
        q = q + 1;
    }
    proof {
        assert forall|m: int| 0 <= m < r@.len() implies r.deep_view()[m] == (seq![name@]
            + rest.deep_view())[m] by {
            assert(r.deep_view()[m] == r@[m]@);
            if m >= 1 {
                assert(r@[1 + (m - 1)] == rest@[m - 1]);
                assert(rest.deep_view()[m - 1] == rest@[m - 1]@);
            }
        }
        assert(r.deep_view() =~= seq![name@] + rest.deep_view());
    }
    r
}

/// Flattens the files under one node into their relative paths, each a list
/// of path components, in enumeration order.
pub fn flatten_dir_files_recur(node: &FsNode) -> (r: Vec<Vec<String>>)
    ensures
        r.deep_view() == spec_rel_paths(*node),
    decreases *node,
{
    match node {
        FsNode::File => {
            let mut r: Vec<Vec<String>> = Vec::new();
            let empty_path: Vec<String> = Vec::new();
            r.push(empty_path);
            proof {
                assert(r@[0].deep_view() =~= Seq::<Seq<char>>::empty());
                assert(r.deep_view() =~= spec_rel_paths(*node));
            }
            r
        },
        FsNode::Dir(entries) => {
            let mut out: Vec<Vec<String>> = Vec::new();
            proof {
                assert(out.deep_view() + dir_paths(*entries, 0) =~= dir_paths(*entries, 0));
            }
            let mut i: usize = 0;
            while i < entries.len()
                invariant
                    i <= entries@.len(),
                    *node == FsNode::Dir(*entries),
                    out.deep_view() + dir_paths(*entries, i as int) == dir_paths(*entries, 0),
                decreases entries@.len() - i,
            {
                proof {
                    let ghost pair = entries@[i as int];
                    assert(decreases_to!(*node => node->Dir_0));
                    assert(node->Dir_0 == *entries);
                    assert(decreases_to!(*entries => entries@));
                    assert(decreases_to!(entries@ => entries@[i as int]));
                    assert(decreases_to!(pair => pair.1));
                    assert(decreases_to!(*node => entries@[i as int].1));
                }
                let sub = flatten_dir_files_recur(&entries[i].1);
                let ghost entry_paths = with_first(
                    entries@[i as int].0@,
                    spec_rel_paths(entries@[i as int].1),
                );
                let ghost base = out.deep_view();
                let mut j: usize = 0;
                while j < sub.len()
                    invariant
                        j <= sub@.len(),
                        i < entries@.len(),
                        sub.deep_view() == spec_rel_paths(entries@[i as int].1),
                        entry_paths == with_first(
                            entries@[i as int].0@,
                            spec_rel_paths(entries@[i as int].1),
                        ),
                        base + dir_paths(*entries, i as int) == dir_paths(*entries, 0),
                        out.deep_view() == base + entry_paths.take(j as int),
                    decreases sub@.len() - j,
                {
                    let path = prepend_component(&entries[i].0, &sub[j]);
                    proof {
                        let ghost sj = sub.deep_view()[j as int];
                        assert(entry_paths[j as int] == seq![entries@[i as int].0@] + sj);
                        assert(sub.deep_view()[j as int] == sub@[j as int].deep_view());
                        assert(path.deep_view() == entry_paths[j as int]);
                    }
                    let ghost prev_out = out.deep_view();
                    out.push(path);
                    proof {
                        assert(out.deep_view() =~= prev_out.push(path.deep_view()));
                        assert(entry_paths.take(j + 1) =~= entry_paths.take(j as int).push(
                            entry_paths[j as int],
                        ));
                        assert(out.deep_view() =~= base + entry_paths.take(j + 1));
                    }
                    j = j + 1;
                }
                proof {
                    assert(entry_paths.take(entry_paths.len() as int) =~= entry_paths);
                    assert(dir_paths(*entries, i as int) == entry_paths + dir_paths(
                        *entries,
                        i + 1,
                    ));
                    assert((base + entry_paths) + dir_paths(*entries, i + 1) =~= base + (entry_paths
                        + dir_paths(*entries, i + 1)));
                }
                i = i + 1;
            }
            proof {
                assert(out.deep_view() + dir_paths(*entries, entries@.len() as int)
                    =~= out.deep_view());
                assert(spec_rel_paths(*node) == dir_paths(*entries, 0));
            }
            out
        },
    }
}

/// Flattens a captured tree root into the relative paths of all regular files
/// under it, in the traversal's enumeration order: the same captured tree
/// always flattens to the same list.
pub fn flatten_dir_files(root: &FsNode) -> (r: Vec<Vec<String>>)
    ensures
        r.deep_view() == spec_rel_paths(*root),
{
    flatten_dir_files_recur(root)
}

/// A concatenation holds an element iff one of its parts holds it.
proof fn lemma_concat_contains<A>(a: Seq<A>, b: Seq<A>, x: A)
    ensures
        (a + b).contains(x) <==> a.contains(x) || b.contains(x),
{
    if a.contains(x) {
        let j = choose|j: int| 0 <= j < a.len() && a[j] == x;
        assert((a + b)[j] == x);
    }
    if b.contains(x) {
        let j = choose|j: int| 0 <= j < b.len() && b[j] == x;
        assert((a + b)[a.len() + j] == x);
    }
    if (a + b).contains(x) {
        let j = choose|j: int| 0 <= j < (a + b).len() && (a + b)[j] == x;
        if j < a.len() {
            assert(a[j] == x);
        } else {
            assert(b[j - a.len()] == x);
        }
    }
}

/// Prepending a fixed first component relabels the paths one for one: the
/// result holds `path` iff `path` starts with `name` and the rest is held.
proof fn lemma_with_first_contains(name: Seq<char>, ps: Seq<Seq<Seq<char>>>, path: Seq<Seq<char>>)
    ensures
        with_first(name, ps).contains(path) <==> (path.len() >= 1 && path[0] == name
            && ps.contains(path.drop_first())),
{
    let mapped = with_first(name, ps);
    if mapped.contains(path) {
        let j = choose|j: int| 0 <= j < mapped.len() && mapped[j] == path;
        assert(mapped[j] == seq![name] + ps[j]);
        assert(path.drop_first() =~= ps[j]);
    }
    if path.len() >= 1 && path[0] == name && ps.contains(path.drop_first()) {
        let j = choose|j: int| 0 <= j < ps.len() && ps[j] == path.drop_first();
        assert(mapped[j] == seq![name] + ps[j]);
        assert(seq![name] + path.drop_first() =~= path);
        assert(mapped.contains(path)) by {
            assert(mapped[j] == path);
        }
    }
}

/// Law: the flattener is exact — a relative path is in the enumeration of a
/// node iff it leads to a regular file under that node; and, the enumeration
/// being a function of the captured tree, two enumerations of an unmodified
/// tree hold the same paths.
pub proof fn lemma_rel_paths_exact(node: FsNode, path: Seq<Seq<char>>)
    ensures
        spec_rel_paths(node).contains(path) <==> is_file_path(node, path),
    decreases node, 0int,
{
    match node {
        FsNode::File => {
            if path.len() == 0 {
                assert(path =~= Seq::<Seq<char>>::empty());
                assert(spec_rel_paths(node)[0] == path);
            }
            if spec_rel_paths(node).contains(path) {
                let j = choose|j: int|
                    0 <= j < spec_rel_paths(node).len() && spec_rel_paths(node)[j] == path;
                assert(path.len() == 0);
            }
        },
        FsNode::Dir(entries) => {
            lemma_dir_paths_exact(entries, 0, path);
        },
    }
}

/// The helper for directories: the paths contributed by the entries from
/// position `i` on are exactly those led to by one of those entries.
proof fn lemma_dir_paths_exact(entries: Vec<(String, FsNode)>, i: int, path: Seq<Seq<char>>)
    ensures
        dir_paths(entries, i).contains(path) <==> dir_has_file_path(entries, i, path),
    decreases entries, entries@.len() - i,
{
    if 0 <= i < entries@.len() {
        let head = with_first(entries@[i].0@, spec_rel_paths(entries@[i].1));
        let tail = dir_paths(entries, i + 1);
        lemma_concat_contains(head, tail, path);
        lemma_with_first_contains(entries@[i].0@, spec_rel_paths(entries@[i].1), path);
        assert(decreases_to!(entries@ => entries@[i]));
        lemma_rel_paths_exact(entries@[i].1, path.drop_first());
        lemma_dir_paths_exact(entries, i + 1, path);
    }
}

/// A captured tree is well-formed: within each directory the entry names are
/// distinct, as a filesystem guarantees for the entries of one directory.
pub open spec fn wf_node(node: FsNode) -> bool
    decreases node, 0int,
{
    match node {
        FsNode::File => true,
        FsNode::Dir(entries) => (forall|a: int, b: int|
            0 <= a < b < entries@.len() ==> (#[trigger] entries@[a]).0@ != (
            #[trigger] entries@[b]).0@) && wf_entries(entries, 0),
    }
}

/// Every entry node from position `i` on is well-formed.
pub open spec fn wf_entries(entries: Vec<(String, FsNode)>, i: int) -> bool
    decreases entries, entries@.len() - i,
{
    i < 0 || i >= entries@.len() || (wf_node(entries@[i].1) && wf_entries(entries, i + 1))
}

/// Prepending a fixed first component keeps paths distinct.
proof fn lemma_with_first_no_dup(name: Seq<char>, ps: Seq<Seq<Seq<char>>>)
    requires
        ps.no_duplicates(),
    ensures
        with_first(name, ps).no_duplicates(),
{
    let mapped = with_first(name, ps);
    assert forall|a: int, b: int|
        0 <= a < mapped.len() && 0 <= b < mapped.len() && a != b implies mapped[a]
        != mapped[b] by {
        assert(mapped[a] == seq![name] + ps[a]);
        assert(mapped[b] == seq![name] + ps[b]);
        if mapped[a] == mapped[b] {
            assert(ps[a] =~= mapped[a].drop_first());
            assert(ps[b] =~= mapped[b].drop_first());
        }
    }
}

/// A concatenation of two duplicate-free sequences with no common element is
/// duplicate-free.
proof fn lemma_concat_no_dup<A>(a: Seq<A>, b: Seq<A>)
    requires
        a.no_duplicates(),
        b.no_duplicates(),
        forall|x: A| a.contains(x) ==> !b.contains(x),
    ensures
        (a + b).no_duplicates(),
{
    assert forall|k1: int, k2: int|
        0 <= k1 < (a + b).len() && 0 <= k2 < (a + b).len() && k1 != k2 implies (a + b)[k1] != (a
        + b)[k2] by {
        if k1 < a.len() && k2 < a.len() {
            assert((a + b)[k1] == a[k1] && (a + b)[k2] == a[k2]);
        } else if k1 >= a.len() && k2 >= a.len() {
            assert((a + b)[k1] == b[k1 - a.len()] && (a + b)[k2] == b[k2 - a.len()]);
        } else if k1 < a.len() && k2 >= a.len() {
            assert(a.contains(a[k1]));
            assert(b.contains(b[k2 - a.len()]));
        } else {
            assert(a.contains(a[k2]));
            assert(b.contains(b[k1 - a.len()]));
        }
    }
}

/// Every path contributed by the entries from position `i` on starts with the
/// name of the entry, at position `i` or later, that leads to its file.
proof fn lemma_dir_paths_first_component(
    entries: Vec<(String, FsNode)>,
    i: int,
    path: Seq<Seq<char>>,
)
    requires
        dir_paths(entries, i).contains(path),
    ensures
        path.len() >= 1,
        exists|j: int| i <= j < entries@.len() && path[0] == (#[trigger] entries@[j]).0@,
    decreases entries, entries@.len() - i,
{
    if 0 <= i < entries@.len() {
        let head = with_first(entries@[i].0@, spec_rel_paths(entries@[i].1));
        let tail = dir_paths(entries, i + 1);
        lemma_concat_contains(head, tail, path);
        if head.contains(path) {
            lemma_with_first_contains(entries@[i].0@, spec_rel_paths(entries@[i].1), path);
            assert(path[0] == entries@[i].0@);
        } else {
            lemma_dir_paths_first_component(entries, i + 1, path);
        }
    } else {
        assert(dir_paths(entries, i) =~= Seq::<Seq<Seq<char>>>::empty());
    }
}

/// Law: a well-formed tree flattens to a duplicate-free enumeration — each
/// relative path identifies one file, so it can serve as the join key between
/// a source file and its copy under every destination root.
pub proof fn lemma_rel_paths_no_dup(node: FsNode)
    requires
        wf_node(node),
    ensures
        spec_rel_paths(node).no_duplicates(),
    decreases node, 0int,
{
    match node {
        FsNode::File => {},
        FsNode::Dir(entries) => {
            lemma_dir_paths_no_dup(entries, 0);
        },
    }
}

/// The helper for directories: distinct names and well-formed entry nodes
/// from position `i` on give duplicate-free contributed paths.
proof fn lemma_dir_paths_no_dup(entries: Vec<(String, FsNode)>, i: int)
    requires
        forall|a: int, b: int|
            0 <= a < b < entries@.len() ==> (#[trigger] entries@[a]).0@ != (
            #[trigger] entries@[b]).0@,
        wf_entries(entries, i),
    ensures
        dir_paths(entries, i).no_duplicates(),
    decreases entries, entries@.len() - i,
{
    if 0 <= i < entries@.len() {
        let head = with_first(entries@[i].0@, spec_rel_paths(entries@[i].1));
        let tail = dir_paths(entries, i + 1);
        assert(decreases_to!(entries@ => entries@[i]));
        lemma_rel_paths_no_dup(entries@[i].1);
        lemma_with_first_no_dup(entries@[i].0@, spec_rel_paths(entries@[i].1));
        lemma_dir_paths_no_dup(entries, i + 1);
        assert forall|x: Seq<Seq<char>>| head.contains(x) implies !tail.contains(x) by {
            lemma_with_first_contains(entries@[i].0@, spec_rel_paths(entries@[i].1), x);
            if tail.contains(x) {
                lemma_dir_paths_first_component(entries, i + 1, x);
                let j = choose|j: int|
                    i + 1 <= j < entries@.len() && x[0] == (#[trigger] entries@[j]).0@;
                assert(entries@[i].0@ != entries@[j].0@);
            }
        }
        lemma_concat_no_dup(head, tail);
    }
}

} // verus!
