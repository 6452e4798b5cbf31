use vstd::prelude::*;
use crate::report::{PartialScanResult, is_path_update, is_batch, path_update_message, compact_batch_message};
use crate::session::{ScanState, ScanStateView, sat_add, BATCH_SIZE, PATH_UPDATE_INTERVAL};
use crate::text::{chars_of, starts_with_chars};
use crate::tree::{FileNode, CompactFileNode, sum_sizes, clamp_u64, well_sized, all_well_sized, is_compact_of, to_compact_node};

verus! {

/// What a symbolic link points at.
pub enum LinkTarget {
    /// A regular file, with its on-disk allocation and (on systems that have one) its
    /// object identity.
    File { size: u64, identity: Option<u64> },
    /// A directory, with its path and (where it resolves) its canonical form.
    Directory { path: String, canonical: Option<String> },
    /// Broken or unresolvable.
    Unresolved,
}

/// What kind of object an entry is.
pub enum EntryKind {
    /// A regular file, with its on-disk allocation.
    File { size: u64 },
    /// A directory (anything that is neither a file nor a link is walked as one).
    Directory,
    Symlink { target: LinkTarget },
}

/// What was read about one entry before it is visited.
pub struct EntryProbe {
    pub name: String,
    pub path: String,
    /// Canonical form of the path, where it resolves.
    pub canonical: Option<String>,
    /// Stable object identity (an inode number), on systems that have one.
    pub identity: Option<u64>,
    /// None where the entry's metadata could not be read.
    pub kind: Option<EntryKind>,
}

/// The result of a finished visit.
pub enum Outcome {
    Node(FileNode),
    /// The entry could not be read: it has no node and counts for nothing.
    Omitted,
    Cancelled,
}

/// What to do after the first look at an entry.
pub enum Visit {
    Finished(Outcome),
    /// A directory to walk: read its entries, push it with `enter_directory`, visit each,
    /// then call `finish_directory`.
    Descend,
    /// A link to a directory: visit the target path in place of the link.
    Follow(String),
}

/// `c` lies in the subtree rooted at `root` (component-wise prefix).
pub open spec fn within(c: Seq<char>, root: Seq<char>) -> bool {
    ||| c == root
    ||| root.is_prefix_of(c) && ((root.len() > 0 && root.last() == '/') || (c.len() > root.len()
        && c[root.len() as int] == '/'))
}

/// The entry must be treated as an empty leaf: it resolves outside the root, or onto a
/// directory that is being descended into.
pub open spec fn guarded(s: ScanStateView, root: Option<String>, c: Option<String>) -> bool {
    c is Some && ((root is Some && !within(c->Some_0@, root->Some_0@)) || s.stack.contains(
        c->Some_0@,
    ))
}

/// `n` is a childless, non-directory node with this name, path and size.
pub open spec fn is_leaf(n: FileNode, name: Seq<char>, path: Seq<char>, size: u64) -> bool {
    &&& n.name@ == name
    &&& n.path@ == path
    &&& n.size == size
    &&& n.children is None
    &&& !n.is_directory
}

pub open spec fn is_leaf_visit(v: Visit, p: EntryProbe, size: u64) -> bool {
    v matches Visit::Finished(Outcome::Node(n)) && is_leaf(n, p.name@, p.path@, size)
}

/// The session after the heartbeat bookkeeping of a visit to `path`.
pub open spec fn after_heartbeat(s: ScanStateView, path: Seq<char>) -> ScanStateView {
    ScanStateView {
        current_path: path,
        ticks: if s.ticks + 1 == PATH_UPDATE_INTERVAL {
            0
        } else {
            s.ticks + 1
        },
        ..s
    }
}

/// The session after an entry is admitted: its identity marked, and one more visit
/// counted unless the entry is the scan root itself.
pub open spec fn after_admit(s: ScanStateView, identity: Option<u64>, is_root: bool) -> ScanStateView {
    ScanStateView {
        visited: match identity {
            Some(x) => s.visited.insert(x),
            None => s.visited,
        },
        counter: if is_root {
            s.counter
        } else {
            sat_add(s.counter, 1)
        },
        ..s
    }
}

/// The first look at one entry, from session `s0` to session `s`, with result `v`.
pub open spec fn visit_spec(
    s0: ScanStateView,
    root: Option<String>,
    p: EntryProbe,
    is_root: bool,
    v: Visit,
    s: ScanStateView,
) -> bool {
    if s0.cancelled {
        v == Visit::Finished(Outcome::Cancelled) && s == s0
    } else {
        let s1 = after_heartbeat(s0, p.path@);
        if guarded(s1, root, p.canonical) {
            is_leaf_visit(v, p, 0) && s == s1
        } else if p.kind is None {
            v == Visit::Finished(Outcome::Omitted) && s == s1
        } else if p.identity is Some && s1.visited.contains(p.identity->Some_0) {
            is_leaf_visit(v, p, 0) && s == s1
        } else {
            let s2 = after_admit(s1, p.identity, is_root);
            match p.kind->Some_0 {
                EntryKind::File { size } => is_leaf_visit(v, p, size) && s == (ScanStateView {
                    scanned_size: sat_add(s2.scanned_size, size),
                    ..s2
                }),
                EntryKind::Directory => v == Visit::Descend && s == s2,
                EntryKind::Symlink { target } => match target {
                    LinkTarget::File { size, identity } => if identity is Some && s2.visited.contains(
                        identity->Some_0,
                    ) {
                        is_leaf_visit(v, p, 0) && s == s2
                    } else {
                        is_leaf_visit(v, p, size) && s == (ScanStateView {
                            scanned_size: sat_add(s2.scanned_size, size),
                            visited: match identity {
                                Some(x) => s2.visited.insert(x),
                                None => s2.visited,
                            },
                            ..s2
                        })
                    },
                    LinkTarget::Directory { path, canonical } => if guarded(s2, root, canonical) {
                        is_leaf_visit(v, p, 0) && s == s2
                    } else {
                        v matches Visit::Follow(t) && t@ == path@ && s == s2
                    },
                    LinkTarget::Unresolved => is_leaf_visit(v, p, 0) && s == s2,
                },
            }
        }
    }
}

fn within_exec(c: &String, root: &String) -> (r: bool)
    ensures
        r == within(c@, root@),
{
    let cc = chars_of(c.as_str());
    let rc = chars_of(root.as_str());
    if !starts_with_chars(&cc, &rc) {
        return false;
    }
    if cc.len() == rc.len() {
        assert(cc@ =~= rc@);
        return true;
    }
    (rc.len() > 0 && rc[rc.len() - 1] == '/') || cc[rc.len()] == '/'
}

fn guarded_exec(state: &ScanState, root: &Option<String>, c: &Option<String>) -> (r: bool)
    ensures
        r == guarded(state@, *root, *c),
{
    match c {
        None => false,
        Some(cp) => {
            let outside = match root {
                Some(rp) => !within_exec(cp, rp),
                None => false,
            };
            outside || state.is_in_recursion_stack(cp.as_str())
        },
    }
}

fn leaf(p: &EntryProbe, size: u64) -> (v: Visit)
    ensures
        is_leaf_visit(v, *p, size),
{
    Visit::Finished(
        Outcome::Node(
            FileNode {
                name: p.name.clone(),
                size,
                path: p.path.clone(),
                children: None,
                is_directory: false,
            },
        ),
    )
}

/// The first look at one entry of the walk. `root` is the canonical form of the scan
/// root; `is_root` is set for the visit of the scan root itself, which is not counted
/// among the visited entries. Returns what to do next, and the heartbeat message that is
/// due, if one is.
pub fn visit_entry(
    state: &mut ScanState,
    root: &Option<String>,
    probe: &EntryProbe,
    is_root: bool,
) -> (r: (
    Visit,
    Option<PartialScanResult>,
))
    requires
        old(state).wf(),
    ensures
        final(state).wf(),
        visit_spec(old(state)@, *root, *probe, is_root, r.0, final(state)@),
        match r.1 {
            None => old(state)@.cancelled || old(state)@.ticks + 1 != PATH_UPDATE_INTERVAL,
            Some(m) => !old(state)@.cancelled && old(state)@.ticks + 1 == PATH_UPDATE_INTERVAL
                && is_path_update(m, after_heartbeat(old(state)@, probe.path@)),
        },
        r.0 matches Visit::Finished(Outcome::Node(n)) ==> well_sized(n),
{
    if state.is_cancelled() {
        return (Visit::Finished(Outcome::Cancelled), None);
    }
    state.set_current_path(probe.path.as_str());
    let heartbeat = if state.should_send_path_update() {
        Some(path_update_message(state))
    } else {
        None
    };
    if guarded_exec(state, root, &probe.canonical) {
        return (leaf(probe, 0), heartbeat);
    }
    let kind = match &probe.kind {
        None => {
            return (Visit::Finished(Outcome::Omitted), heartbeat);
        },
        Some(k) => k,
    };
    match probe.identity {
        Some(x) => {
            if state.is_visited_inode(x) {
                return (leaf(probe, 0), heartbeat);
            }
            state.mark_visited_inode(x);
        },
        None => {},
    }
    if !is_root {
        state.increment_counter();
    }
    let v = match kind {
        EntryKind::File { size } => {
            state.add_size(*size);
            leaf(probe, *size)
        },
        EntryKind::Directory => Visit::Descend,
        EntryKind::Symlink { target } => match target {
            LinkTarget::File { size, identity } => {
                let seen = match identity {
                    Some(x) => {
                        if state.is_visited_inode(*x) {
                            true
                        } else {
                            state.mark_visited_inode(*x);
                            false
                        }
                    },
                    None => false,
                };
                if seen {
                    leaf(probe, 0)
                } else {
                    state.add_size(*size);
                    leaf(probe, *size)
                }
            },
            LinkTarget::Directory { path, canonical } => {
                if guarded_exec(state, root, canonical) {
                    leaf(probe, 0)
                } else {
                    Visit::Follow(path.clone())
                }
            },
            LinkTarget::Unresolved => leaf(probe, 0),
        },
    };
    (v, heartbeat)
}

/// The nodes among a list of outcomes, in order.
pub open spec fn nodes_of(s: Seq<Outcome>) -> Seq<FileNode>
    decreases s.len(),
{
    if s.len() == 0 {
        Seq::empty()
    } else {
        match s.last() {
            Outcome::Node(n) => nodes_of(s.drop_last()).push(n),
            _ => nodes_of(s.drop_last()),
        }
    }
}

/// Some visit in the list was cancelled.
pub open spec fn any_cancelled(s: Seq<Outcome>) -> bool {
    exists|i: int| 0 <= i < s.len() && #[trigger] s[i] is Cancelled
}

/// Every node in the list is well sized.
pub open spec fn outcomes_well_sized(s: Seq<Outcome>) -> bool {
    forall|i: int| 0 <= i < s.len() ==> (#[trigger] s[i] matches Outcome::Node(n) ==> well_sized(n))
}

proof fn lemma_sum_sizes_nonneg(s: Seq<FileNode>)
    ensures
        sum_sizes(s) >= 0,
    decreases s.len(),
{
    if s.len() > 0 {
        lemma_sum_sizes_nonneg(s.drop_last());
    }
}

proof fn lemma_nodes_of_well_sized(s: Seq<Outcome>)
    requires
        outcomes_well_sized(s),
    ensures
        forall|i: int| 0 <= i < nodes_of(s).len() ==> well_sized(#[trigger] nodes_of(s)[i]),
    decreases s.len(),
{
    if s.len() > 0 {
        assert(outcomes_well_sized(s.drop_last())) by {
            assert forall|i: int| 0 <= i < s.drop_last().len() implies (#[trigger] s.drop_last()[i] matches Outcome::Node(n) ==> well_sized(n)) by {
                assert(s.drop_last()[i] == s[i]);
            }
        }
        lemma_nodes_of_well_sized(s.drop_last());
        let prev = nodes_of(s.drop_last());
        assert(s[s.len() - 1] == s.last());
        match s.last() {
            Outcome::Node(n) => {
                assert(well_sized(n));
                assert forall|i: int| 0 <= i < nodes_of(s).len() implies well_sized(
                    #[trigger] nodes_of(s)[i],
                ) by {
                    if i < prev.len() {
                        assert(nodes_of(s)[i] == prev[i]);
                    }
                }
            },
            _ => {},
        }
    }
}

/// Marks a directory as being descended into, by its canonical path where it resolves.
pub fn enter_directory(state: &mut ScanState, canonical: &Option<String>)
    requires
        old(state).wf(),
    ensures
        final(state).wf(),
        final(state)@ == (ScanStateView {
            stack: match canonical {
                Some(c) => old(state)@.stack.insert(c@),
                None => old(state)@.stack,
            },
            ..old(state)@
        }),
{
    match canonical {
        Some(c) => {
            state.push_to_recursion_stack(c.as_str());
        },
        None => {},
    }
}

/// The node of a directory whose entries could not be listed: empty, of size 0.
pub fn unreadable_directory(name: String, path: String) -> (n: FileNode)
    ensures
        n.name@ == name@,
        n.path@ == path@,
        n.size == 0,
        n.is_directory,
        n.children is Some && n.children->Some_0@.len() == 0,
        well_sized(n),
{
    let n = FileNode { name, size: 0, path, children: Some(Vec::new()), is_directory: true };
    assert(n.children->Some_0@ =~= Seq::<FileNode>::empty());
    n
}

/// Closes the walk of a directory once all its entries were visited: takes it off the
/// recursion stack, and unless a visit below was cancelled, builds its node from the
/// entries that could be read, with their sizes summed. A directory directly under the
/// scan root (`is_depth1`) goes to the pending batch in wire form, and the batch message
/// is returned when that fills the batch.
pub fn finish_directory(
    state: &mut ScanState,
    name: String,
    path: String,
    canonical: &Option<String>,
    is_depth1: bool,
    outcomes: Vec<Outcome>,
) -> (r: (Outcome, Option<PartialScanResult>))
    requires
        old(state).wf(),
    ensures
        final(state).wf(),
        ({
            let s1 = ScanStateView {
                stack: match canonical {
                    Some(c) => old(state)@.stack.remove(c@),
                    None => old(state)@.stack,
                },
                ..old(state)@
            };
            if any_cancelled(outcomes@) {
                r.0 is Cancelled && r.1 is None && final(state)@ == s1
            } else {
                r.0 matches Outcome::Node(d) && {
                    &&& d.name@ == name@
                    &&& d.path@ == path@
                    &&& d.is_directory
                    &&& d.children is Some
                    &&& d.children->Some_0@ == nodes_of(outcomes@)
                    &&& d.size == clamp_u64(sum_sizes(nodes_of(outcomes@)))
                    &&& outcomes_well_sized(outcomes@) ==> well_sized(d)
                    &&& if !is_depth1 {
                        r.1 is None && final(state)@ == s1
                    } else {
                        exists|c: CompactFileNode| #[trigger] is_compact_of(c, d) && {
                            let buf = s1.buffer.push(c);
                            if buf.len() >= BATCH_SIZE {
                                &&& r.1 matches Some(m) && is_batch(m, s1, buf)
                                &&& final(state)@ == (ScanStateView { buffer: Seq::empty(), ..s1 })
                            } else {
                                r.1 is None && final(state)@ == (ScanStateView { buffer: buf, ..s1 })
                            }
                        }
                    }
                }
            }
        }),
{
    match canonical {
        Some(c) => {
            state.pop_from_recursion_stack(c.as_str());
        },
        None => {},
    }
    let ghost orig = outcomes@;
    let mut outcomes = outcomes;
    let mut reversed: Vec<FileNode> = Vec::new();
    let mut cancelled = false;
    while outcomes.len() > 0
        invariant
            orig.len() >= outcomes@.len(),
            outcomes@ == orig.take(outcomes@.len() as int),
            nodes_of(orig).len() == nodes_of(outcomes@).len() + reversed@.len(),
            forall|i: int|
                0 <= i < nodes_of(outcomes@).len() ==> nodes_of(orig)[i] == nodes_of(outcomes@)[i],
            forall|j: int|
                0 <= j < reversed@.len() ==> nodes_of(orig)[nodes_of(orig).len() - 1 - j]
                    == reversed@[j],
            cancelled == exists|i: int|
                outcomes@.len() <= i < orig.len() && #[trigger] orig[i] is Cancelled,
        decreases outcomes@.len(),
    {
        let ghost before = outcomes@;
        let o = outcomes.pop().unwrap();
        proof {
            assert(outcomes@ == before.drop_last());
            assert(orig.take(outcomes@.len() as int) =~= before.drop_last());
            assert(o == orig[outcomes@.len() as int]);
        }
        match o {
            Outcome::Node(n) => {
                reversed.push(n);
            },
            Outcome::Omitted => {},
            Outcome::Cancelled => {
                cancelled = true;
            },
        }
    }
    assert(orig.take(0) =~= outcomes@);
    if cancelled {
        return (Outcome::Cancelled, None);
    }
    assert(!any_cancelled(orig));
    let ghost all = nodes_of(orig);
    proof {
        if outcomes_well_sized(orig) {
            lemma_nodes_of_well_sized(orig);
        }
    }
    let mut children: Vec<FileNode> = Vec::new();
    let mut total: u64 = 0;
    while reversed.len() > 0
        invariant
            children@.len() + reversed@.len() == all.len(),
            forall|i: int| 0 <= i < children@.len() ==> children@[i] == all[i],
            forall|j: int| 0 <= j < reversed@.len() ==> all[all.len() - 1 - j] == reversed@[j],
            total == clamp_u64(sum_sizes(children@)),
            outcomes_well_sized(orig) ==> all_well_sized(children@),
            outcomes_well_sized(orig) ==> forall|i: int| 0 <= i < all.len() ==> well_sized(#[trigger] all[i]),
        decreases reversed@.len(),
    {
        let ghost before = children@;
        let n = reversed.pop().unwrap();
        proof {
            lemma_sum_sizes_nonneg(before);
            assert(before.push(n).drop_last() =~= before);
        }
        total = total.saturating_add(n.size);
        children.push(n);
    }
    assert(children@ =~= all);
    let d = FileNode { name, size: total, path, children: Some(children), is_directory: true };
    if !is_depth1 {
        return (Outcome::Node(d), None);
    }
    let c = to_compact_node(&d);
    let full = state.add_compact_to_buffer(c);
    let msg = if full {
        Some(compact_batch_message(state))
    } else {
        None
    };
    (Outcome::Node(d), msg)
}

/// An entry whose canonical path is a directory still being descended into (a cycle)
/// ends the descent there: it becomes an empty leaf of size 0, and nothing is counted.
pub proof fn lemma_cycle_entry_is_empty_leaf(
    s0: ScanStateView,
    root: Option<String>,
    p: EntryProbe,
    is_root: bool,
    v: Visit,
    s: ScanStateView,
)
    requires
        visit_spec(s0, root, p, is_root, v, s),
        !s0.cancelled,
        p.canonical is Some,
        s0.stack.contains(p.canonical->Some_0@),
    ensures
        is_leaf_visit(v, p, 0),
        s.counter == s0.counter,
        s.scanned_size == s0.scanned_size,
        s.stack == s0.stack,
{
}

/// A link to a directory that is still being descended into is not followed: it
/// becomes an empty leaf of size 0 and adds nothing to the total size.
pub proof fn lemma_cyclic_link_is_empty_leaf(
    s0: ScanStateView,
    root: Option<String>,
    p: EntryProbe,
    is_root: bool,
    v: Visit,
    s: ScanStateView,
)
    requires
        visit_spec(s0, root, p, is_root, v, s),
        !s0.cancelled,
        p.kind matches Some(EntryKind::Symlink { target: LinkTarget::Directory { path, canonical } })
            && canonical is Some && s0.stack.contains(canonical->Some_0@),
    ensures
        is_leaf_visit(v, p, 0),
        !(v is Follow),
        s.scanned_size == s0.scanned_size,
        s.stack == s0.stack,
{
}

/// Two links to one file (same object identity) are counted once: after the first is
/// visited, the second adds nothing to the total size and reports size 0.
pub proof fn lemma_hard_link_counted_once(
    s0: ScanStateView,
    root: Option<String>,
    pa: EntryProbe,
    root1: bool,
    v1: Visit,
    s1: ScanStateView,
    pb: EntryProbe,
    root2: bool,
    v2: Visit,
    s2: ScanStateView,
    size: u64,
)
    requires
        visit_spec(s0, root, pa, root1, v1, s1),
        visit_spec(s1, root, pb, root2, v2, s2),
        !s0.cancelled,
        pa.identity is Some,
        pb.identity == pa.identity,
        !s0.visited.contains(pa.identity->Some_0),
        !guarded(s0, root, pa.canonical),
        pa.kind == Some(EntryKind::File { size }),
        pb.kind is Some,
        s0.scanned_size + size <= u64::MAX,
    ensures
        is_leaf_visit(v1, pa, size),
        s1.scanned_size == s0.scanned_size + size,
        s2.scanned_size == s1.scanned_size,
        s2.counter == s1.counter,
        is_leaf_visit(v2, pb, 0),
{
    assert(after_heartbeat(s0, pa.path@).stack == s0.stack);
}

/// A link to a file whose object was already counted (directly or through another
/// link) reports size 0 and adds nothing to the total size.
pub proof fn lemma_link_to_counted_file_adds_nothing(
    s0: ScanStateView,
    root: Option<String>,
    p: EntryProbe,
    is_root: bool,
    v: Visit,
    s: ScanStateView,
)
    requires
        visit_spec(s0, root, p, is_root, v, s),
        p.kind matches Some(EntryKind::Symlink { target: LinkTarget::File { size, identity } })
            && identity is Some && s0.visited.contains(identity->Some_0),
        !s0.cancelled,
    ensures
        is_leaf_visit(v, p, 0),
        s.scanned_size == s0.scanned_size,
{
}

/// Once a scan is cancelled, every further visit stops at once with a cancellation and
/// changes nothing.
pub proof fn lemma_cancelled_visit_stops(
    s0: ScanStateView,
    root: Option<String>,
    p: EntryProbe,
    is_root: bool,
    v: Visit,
    s: ScanStateView,
)
    requires
        visit_spec(s0, root, p, is_root, v, s),
        s0.cancelled,
    ensures
        v == Visit::Finished(Outcome::Cancelled),
        s == s0,
{
}

} // verus!
