use vstd::prelude::*;

verus! {

/// One entry of a scanned tree: a file, or a directory with its children.
pub struct FileNode {
    pub name: String,
    /// Bytes allocated on disk (for a directory: the sum over its children).
    pub size: u64,
    pub path: String,
    /// Present for directories (possibly empty), absent for files.
    pub children: Option<Vec<FileNode>>,
    pub is_directory: bool,
}

/// The sum of the sizes of a sequence of nodes.
pub open spec fn sum_sizes(cs: Seq<FileNode>) -> int
    decreases cs.len(),
{
    if cs.len() == 0 {
        0
    } else {
        sum_sizes(cs.drop_last()) + cs.last().size
    }
}

/// A size clamped to what a `u64` holds.
pub open spec fn clamp_u64(x: int) -> int {
    if x > u64::MAX as int {
        u64::MAX as int
    } else {
        x
    }
}

/// Every directory in the tree holds the (clamped) sum of its children's sizes,
/// and no file has children.
pub open spec fn well_sized(n: FileNode) -> bool
    decreases n, 0nat,
{
    match n.children {
        None => !n.is_directory,
        Some(cs) => n.is_directory && n.size == clamp_u64(sum_sizes(cs@)) && all_well_sized(cs@),
    }
}

/// Every node of the sequence is well sized.
pub open spec fn all_well_sized(s: Seq<FileNode>) -> bool
    decreases s, s.len(),
{
    if s.len() == 0 {
        true
    } else {
        all_well_sized(s.drop_last()) && well_sized(s.last())
    }
}

/// The wire form of a node: the same tree without paths.
pub struct CompactFileNode {
    pub name: String,
    pub size: u64,
    pub children: Option<Vec<CompactFileNode>>,
    pub is_directory: bool,
}

/// `c` is `n` without its paths, at every level.
pub open spec fn is_compact_of(c: CompactFileNode, n: FileNode) -> bool
    decreases n, 0nat,
{
    &&& c.name@ == n.name@
    &&& c.size == n.size
    &&& c.is_directory == n.is_directory
    &&& match n.children {
        None => c.children is None,
        Some(ns) => match c.children {
            None => false,
            Some(cs) => all_compact_of(cs@, ns@),
        },
    }
}

/// Each node of `cs` is the wire form of the node of `ns` at the same place.
pub open spec fn all_compact_of(cs: Seq<CompactFileNode>, ns: Seq<FileNode>) -> bool
    decreases ns, ns.len(),
{
    &&& cs.len() == ns.len()
    &&& ns.len() > 0 ==> all_compact_of(cs.drop_last(), ns.drop_last()) && is_compact_of(
        cs.last(),
        ns.last(),
    )
}

/// `r` is the snapshot of `n`, which stands at `depth` below the root, cut at `max_depth`:
/// every node keeps its name, size, path and kind; a node at or below the cut keeps no
/// descendants (an empty list for a directory, none for a file).
pub open spec fn is_snapshot_of(r: FileNode, n: FileNode, depth: nat, max_depth: nat) -> bool
    decreases n, 0nat,
{
    &&& r.name@ == n.name@
    &&& r.size == n.size
    &&& r.path@ == n.path@
    &&& r.is_directory == n.is_directory
    &&& if depth >= max_depth {
        if n.is_directory {
            r.children is Some && r.children->Some_0@.len() == 0
        } else {
            r.children is None
        }
    } else {
        match n.children {
            None => r.children is None,
            Some(ns) => match r.children {
                None => false,
                Some(rs) => all_snapshot_of(rs@, ns@, depth + 1, max_depth),
            },
        }
    }
}

/// Each node of `rs` is the snapshot of the node of `ns` at the same place.
pub open spec fn all_snapshot_of(
    rs: Seq<FileNode>,
    ns: Seq<FileNode>,
    depth: nat,
    max_depth: nat,
) -> bool
    decreases ns, ns.len(),
{
    &&& rs.len() == ns.len()
    &&& ns.len() > 0 ==> all_snapshot_of(rs.drop_last(), ns.drop_last(), depth, max_depth)
        && is_snapshot_of(rs.last(), ns.last(), depth, max_depth)
}

proof fn lemma_child_decreases(n: FileNode, cs: Vec<FileNode>, i: int)
    requires
        n.children == Some(cs),
        0 <= i < cs@.len(),
    ensures
        decreases_to!(n => cs@[i]),
{
    broadcast use vstd::std_specs::vec::axiom_vec_decreases_to_view, vstd::seq::axiom_seq_index_decreases;

    assert(decreases_to!(n => n.children));
    assert(decreases_to!(n.children => n.children->Some_0));
    assert(decreases_to!(cs => cs@));
    assert(decreases_to!(cs@ => cs@[i]));
}

/// Copies a tree into its wire form, dropping the paths.
pub fn to_compact_node(node: &FileNode) -> (r: CompactFileNode)
    ensures
        is_compact_of(r, *node),
    decreases node,
{
    let children = match &node.children {
        None => None,
        Some(cs) => {
            let mut out: Vec<CompactFileNode> = Vec::new();
            let mut i: usize = 0;
            while i < cs.len()
                invariant
                    node.children == Some(*cs),
                    i <= cs@.len(),
                    all_compact_of(out@, cs@.subrange(0, i as int)),
                decreases cs@.len() - i,
            {
                proof {
                    lemma_child_decreases(*node, *cs, i as int);
                }
                let c = to_compact_node(&cs[i]);
                proof {
                    let next = cs@.subrange(0, i + 1);
                    assert(next.drop_last() =~= cs@.subrange(0, i as int));
                    assert(next.last() == cs@[i as int]);
                    assert(out@.push(c).drop_last() =~= out@);
                }
                out.push(c);
                i = i + 1;
            }
            assert(cs@.subrange(0, i as int) =~= cs@);
            Some(out)
        },
    };
    CompactFileNode {
        name: node.name.clone(),
        size: node.size,
        children,
        is_directory: node.is_directory,
    }
}

/// The snapshot of a node standing `current_depth` levels below the root, cut at `max_depth`.
pub fn build_limited_depth_node_recursive(
    node: &FileNode,
    current_depth: usize,
    max_depth: usize,
) -> (r: FileNode)
    ensures
        is_snapshot_of(r, *node, current_depth as nat, max_depth as nat),
    decreases node,
{
    if current_depth >= max_depth {
        return FileNode {
            name: node.name.clone(),
            size: node.size,
            path: node.path.clone(),
            children: if node.is_directory {
                Some(Vec::new())
            } else {
                None
            },
            is_directory: node.is_directory,
        };
    }
    let children = match &node.children {
        None => None,
        Some(cs) => {
            let mut out: Vec<FileNode> = Vec::new();
            let mut i: usize = 0;
            while i < cs.len()
                invariant
                    node.children == Some(*cs),
                    current_depth < max_depth,
                    i <= cs@.len(),
                    all_snapshot_of(
                        out@,
                        cs@.subrange(0, i as int),
                        current_depth as nat + 1,
                        max_depth as nat,
                    ),
                decreases cs@.len() - i,
            {
                proof {
                    lemma_child_decreases(*node, *cs, i as int);
                }
                let c = build_limited_depth_node_recursive(&cs[i], current_depth + 1, max_depth);
                proof {
                    let next = cs@.subrange(0, i + 1);
                    assert(next.drop_last() =~= cs@.subrange(0, i as int));
                    assert(next.last() == cs@[i as int]);
                    assert(out@.push(c).drop_last() =~= out@);
                }
                out.push(c);
                i = i + 1;
            }
            assert(cs@.subrange(0, i as int) =~= cs@);
            Some(out)
        },
    };
    FileNode {
        name: node.name.clone(),
        size: node.size,
        path: node.path.clone(),
        children,
        is_directory: node.is_directory,
    }
}

/// The snapshot of a whole tree, cut `max_depth` levels below its root.
pub fn build_limited_depth_node(node: &FileNode, max_depth: usize) -> (r: FileNode)
    ensures
        is_snapshot_of(r, *node, 0, max_depth as nat),
{
    build_limited_depth_node_recursive(node, 0, max_depth)
}

/// In a well-sized tree, a directory's size is the sum of its direct children's sizes
/// (wherever that sum fits in a `u64`); the same holds of every directory below it.
pub proof fn lemma_directory_size_is_child_sum(n: FileNode)
    requires
        well_sized(n),
        n.is_directory,
        sum_sizes(n.children->Some_0@) <= u64::MAX,
    ensures
        n.children is Some,
        n.size == sum_sizes(n.children->Some_0@),
        all_well_sized(n.children->Some_0@),
{
}

proof fn lemma_snapshot_sums(rs: Seq<FileNode>, ns: Seq<FileNode>, depth: nat, max_depth: nat)
    requires
        all_snapshot_of(rs, ns, depth, max_depth),
    ensures
        sum_sizes(rs) == sum_sizes(ns),
    decreases ns.len(),
{
    if ns.len() > 0 {
        lemma_snapshot_sums(rs.drop_last(), ns.drop_last(), depth, max_depth);
        assert(is_snapshot_of(rs.last(), ns.last(), depth, max_depth));
        assert(rs.last().size == ns.last().size);
    }
}

/// A snapshot keeps the true sizes: its root reports the full tree's size, and when the
/// cut lies below the root, that size is still the sum of the root's listed children,
/// which keep their own true sizes.
pub proof fn lemma_snapshot_keeps_root_total(r: FileNode, n: FileNode, max_depth: nat)
    requires
        is_snapshot_of(r, n, 0, max_depth),
        well_sized(n),
        n.is_directory,
        max_depth > 0,
        sum_sizes(n.children->Some_0@) <= u64::MAX,
    ensures
        r.size == n.size,
        r.children is Some,
        r.size == sum_sizes(r.children->Some_0@),
{
    lemma_snapshot_sums(r.children->Some_0@, n.children->Some_0@, 1, max_depth);
}

/// A node at or below the cut keeps its size and kind but lists no descendants: a
/// directory there reports an empty list.
pub proof fn lemma_snapshot_cut(r: FileNode, n: FileNode, depth: nat, max_depth: nat)
    requires
        is_snapshot_of(r, n, depth, max_depth),
        depth >= max_depth,
    ensures
        r.size == n.size,
        r.is_directory == n.is_directory,
        n.is_directory ==> r.children is Some && r.children->Some_0@.len() == 0,
        !n.is_directory ==> r.children is None,
{
}

/// The sum of the sizes of the leaves below `n` (a leaf is a node with no or an empty
/// list of children, and counts its own size).
pub open spec fn leaf_total(n: FileNode) -> int
    decreases n, 0nat,
{
    match n.children {
        None => n.size as int,
        Some(cs) => if cs@.len() == 0 {
            n.size as int
        } else {
            leaf_total_all(cs@)
        },
    }
}

/// The sum of the leaf totals of a sequence of nodes.
pub open spec fn leaf_total_all(s: Seq<FileNode>) -> int
    decreases s, s.len(),
{
    if s.len() == 0 {
        0
    } else {
        leaf_total_all(s.drop_last()) + leaf_total(s.last())
    }
}

proof fn lemma_leaf_total_nonneg(n: FileNode)
    ensures
        leaf_total(n) >= 0,
    decreases n, 0nat,
{
    match n.children {
        None => {},
        Some(cs) => {
            if cs@.len() > 0 {
                lemma_leaf_total_all_nonneg(cs@);
            }
        },
    }
}

proof fn lemma_leaf_total_all_nonneg(s: Seq<FileNode>)
    ensures
        leaf_total_all(s) >= 0,
    decreases s, s.len(),
{
    if s.len() > 0 {
        lemma_leaf_total_all_nonneg(s.drop_last());
        lemma_leaf_total_nonneg(s.last());
    }
}

/// In a well-sized tree whose leaves' sizes sum within a `u64`, every node's size is
/// the sum of the sizes of the leaves below it: the per-directory sums hold
/// transitively up to the root.
pub proof fn lemma_size_is_leaf_total(n: FileNode)
    requires
        well_sized(n),
        leaf_total(n) <= u64::MAX,
    ensures
        n.size == leaf_total(n),
    decreases n, 0nat,
{
    match n.children {
        None => {},
        Some(cs) => {
            if cs@.len() > 0 {
                lemma_sizes_are_leaf_totals(cs@);
            }
        },
    }
}

/// The sequence form of `lemma_size_is_leaf_total`: the sizes of well-sized nodes add
/// up to their leaf totals.
pub proof fn lemma_sizes_are_leaf_totals(s: Seq<FileNode>)
    requires
        all_well_sized(s),
        leaf_total_all(s) <= u64::MAX,
    ensures
        sum_sizes(s) == leaf_total_all(s),
    decreases s, s.len(),
{
    if s.len() > 0 {
        lemma_leaf_total_all_nonneg(s.drop_last());
        lemma_leaf_total_nonneg(s.last());
        lemma_sizes_are_leaf_totals(s.drop_last());
        lemma_size_is_leaf_total(s.last());
    }
}

/// A snapshot changes structure only: every node it keeps has the size, name, path and
/// kind of the node it stands for, at every depth.
pub proof fn lemma_snapshot_keeps_every_size(
    r: FileNode,
    n: FileNode,
    depth: nat,
    max_depth: nat,
)
    requires
        is_snapshot_of(r, n, depth, max_depth),
    ensures
        r.size == n.size,
        r.name@ == n.name@,
        r.path@ == n.path@,
        r.is_directory == n.is_directory,
        depth < max_depth && n.children is Some ==> r.children is Some && r.children->Some_0@.len()
            == n.children->Some_0@.len() && forall|i: int|
            0 <= i < n.children->Some_0@.len() ==> is_snapshot_of(
                #[trigger] r.children->Some_0@[i],
                n.children->Some_0@[i],
                depth + 1,
                max_depth,
            ),
{
    if depth < max_depth && n.children is Some {
        lemma_all_snapshot_index(r.children->Some_0@, n.children->Some_0@, depth + 1, max_depth);
    }
}

proof fn lemma_all_snapshot_index(rs: Seq<FileNode>, ns: Seq<FileNode>, depth: nat, max_depth: nat)
    requires
        all_snapshot_of(rs, ns, depth, max_depth),
    ensures
        rs.len() == ns.len(),
        forall|i: int| 0 <= i < ns.len() ==> is_snapshot_of(#[trigger] rs[i], ns[i], depth, max_depth),
    decreases ns.len(),
{
    if ns.len() > 0 {
        lemma_all_snapshot_index(rs.drop_last(), ns.drop_last(), depth, max_depth);
        assert forall|i: int| 0 <= i < ns.len() implies is_snapshot_of(
            #[trigger] rs[i],
            ns[i],
            depth,
            max_depth,
        ) by {
            if i < ns.len() - 1 {
                assert(rs.drop_last()[i] == rs[i]);
                assert(ns.drop_last()[i] == ns[i]);
            }
        }
    }
}

} // verus!
