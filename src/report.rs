use vstd::prelude::*;
use crate::disk::DiskInfo;
use crate::session::{ScanState, ScanStateView, MAX_DEPTH};
use crate::tree::{
    CompactFileNode,
    FileNode,
    is_compact_of,
    is_snapshot_of,
    build_limited_depth_node,
    to_compact_node,
};

verus! {

/// One message of a running scan: a heartbeat, a batch of wire nodes, or the final
/// result, with the running totals.
pub struct PartialScanResult {
    pub compact_nodes: Vec<CompactFileNode>,
    pub total_scanned: u64,
    pub total_size: u64,
    pub is_complete: bool,
    pub root_node: Option<FileNode>,
    pub disk_info: Option<DiskInfo>,
    pub current_path: Option<String>,
}

/// `m` is a heartbeat carrying the totals of `s` and the path being visited.
pub open spec fn is_path_update(m: PartialScanResult, s: ScanStateView) -> bool {
    &&& m.compact_nodes@.len() == 0
    &&& m.total_scanned == s.counter
    &&& m.total_size == s.scanned_size
    &&& !m.is_complete
    &&& m.root_node is None
    &&& m.disk_info is None
    &&& m.current_path is Some && m.current_path->Some_0@ == s.current_path
}

/// `m` is a batch of the nodes `nodes` with the totals of `s`.
pub open spec fn is_batch(m: PartialScanResult, s: ScanStateView, nodes: Seq<CompactFileNode>) -> bool {
    &&& m.compact_nodes@ == nodes
    &&& m.total_scanned == s.counter
    &&& m.total_size == s.scanned_size
    &&& !m.is_complete
    &&& m.root_node is None
    &&& m.disk_info is None
}

/// The first message of a scan whose root's volume capacity is known.
pub fn initial_message(path: &str, disk_info: DiskInfo) -> (m: PartialScanResult)
    ensures
        m.compact_nodes@.len() == 0,
        m.total_scanned == 0,
        m.total_size == 0,
        !m.is_complete,
        m.root_node is None,
        m.disk_info == Some(disk_info),
        m.current_path is Some && m.current_path->Some_0@ == path@,
{
    PartialScanResult {
        compact_nodes: Vec::new(),
        total_scanned: 0,
        total_size: 0,
        is_complete: false,
        root_node: None,
        disk_info: Some(disk_info),
        current_path: Some(path.to_owned()),
    }
}

/// A heartbeat: the running totals and the path being visited.
pub fn path_update_message(state: &ScanState) -> (m: PartialScanResult)
    ensures
        is_path_update(m, state@),
{
    let (total_items, total_size) = state.get_stats();
    PartialScanResult {
        compact_nodes: Vec::new(),
        total_scanned: total_items,
        total_size,
        is_complete: false,
        root_node: None,
        disk_info: None,
        current_path: Some(state.get_current_path()),
    }
}

/// Drains the pending batch into one message, with the totals and the current path.
pub fn compact_batch_message(state: &mut ScanState) -> (m: PartialScanResult)
    requires
        old(state).wf(),
    ensures
        final(state).wf(),
        final(state)@ == (ScanStateView { buffer: Seq::empty(), ..old(state)@ }),
        is_batch(m, old(state)@, old(state)@.buffer),
        m.current_path is Some && m.current_path->Some_0@ == old(state)@.current_path,
{
    let (total_items, total_size) = state.get_stats();
    let current_path = state.get_current_path();
    let compact_nodes = state.clear_compact_buffer();
    PartialScanResult {
        compact_nodes,
        total_scanned: total_items,
        total_size,
        is_complete: false,
        root_node: None,
        disk_info: None,
        current_path: Some(current_path),
    }
}

/// The wire forms of the files (not directories) among `cs`, in order.
pub open spec fn root_files_ok(out: Seq<CompactFileNode>, cs: Seq<FileNode>) -> bool
    decreases cs.len(),
{
    if cs.len() == 0 {
        out.len() == 0
    } else if cs.last().is_directory {
        root_files_ok(out, cs.drop_last())
    } else {
        out.len() > 0 && root_files_ok(out.drop_last(), cs.drop_last()) && is_compact_of(
            out.last(),
            cs.last(),
        )
    }
}

/// The wire forms of the files directly under the root, which no directory batch holds.
fn root_files(root: &FileNode) -> (r: Vec<CompactFileNode>)
    ensures
        match root.children {
            None => r@.len() == 0,
            Some(cs) => root_files_ok(r@, cs@),
        },
{
    let mut out: Vec<CompactFileNode> = Vec::new();
    match &root.children {
        None => {},
        Some(cs) => {
            let mut i: usize = 0;
            while i < cs.len()
                invariant
                    i <= cs@.len(),
                    root_files_ok(out@, cs@.take(i as int)),
                decreases cs@.len() - i,
            {
                proof {
                    assert(cs@.take(i + 1).drop_last() =~= cs@.take(i as int));
                    assert(cs@.take(i + 1).last() == cs@[i as int]);
                }
                if !cs[i].is_directory {
                    let c = to_compact_node(&cs[i]);
                    proof {
                        assert(out@.push(c).drop_last() =~= out@);
                    }
                    out.push(c);
                }
                i = i + 1;
            }
            assert(cs@.take(i as int) =~= cs@);
        },
    }
    out
}

/// The closing messages of a scan whose walk produced `root`: none if the scan was
/// cancelled; otherwise a batch of what is still pending plus the files directly under
/// the root (when there are any), then the one completion message, which carries the
/// totals, the snapshot of the tree cut at the maximum depth, and the volume capacity.
pub fn final_messages(state: &mut ScanState, root: &FileNode, disk_info: Option<DiskInfo>) -> (r:
    Vec<PartialScanResult>)
    requires
        old(state).wf(),
    ensures
        final(state).wf(),
        old(state)@.cancelled ==> r@.len() == 0 && final(state)@ == old(state)@,
        !old(state)@.cancelled ==> {
            &&& final(state)@ == (ScanStateView { buffer: Seq::empty(), ..old(state)@ })
            &&& r@.len() >= 1
            &&& forall|i: int| 0 <= i < r@.len() - 1 ==> !(#[trigger] r@[i]).is_complete
            &&& r@.len() <= 2
            &&& r@.len() == 2 ==> {
                let files = r@[0].compact_nodes@.subrange(
                    old(state)@.buffer.len() as int,
                    r@[0].compact_nodes@.len() as int,
                );
                &&& is_batch(r@[0], old(state)@, r@[0].compact_nodes@)
                &&& r@[0].current_path is None
                &&& r@[0].compact_nodes@.len() > 0
                &&& old(state)@.buffer.is_prefix_of(r@[0].compact_nodes@)
                &&& match root.children {
                    None => files.len() == 0,
                    Some(cs) => root_files_ok(files, cs@),
                }
            }
            &&& r@.len() == 1 ==> old(state)@.buffer.len() == 0 && match root.children {
                None => true,
                Some(cs) => root_files_ok(Seq::empty(), cs@),
            }
            &&& {
                let last = r@[r@.len() - 1];
                &&& last.is_complete
                &&& last.total_scanned == old(state)@.counter
                &&& last.total_size == old(state)@.scanned_size
                &&& last.compact_nodes@.len() == 0
                &&& last.disk_info == disk_info
                &&& last.current_path is None
                &&& last.root_node is Some
                &&& is_snapshot_of(last.root_node->Some_0, *root, 0, MAX_DEPTH as nat)
            }
        },
{
    let mut out: Vec<PartialScanResult> = Vec::new();
    if state.is_cancelled() {
        return out;
    }
    let (total_items, total_size) = state.get_stats();
    let mut remaining = state.clear_compact_buffer();
    let ghost pending = remaining@;
    let mut files = root_files(root);
    let ghost file_nodes = files@;
    remaining.append(&mut files);
    assert(remaining@ =~= pending + file_nodes);
    assert(remaining@.subrange(pending.len() as int, remaining@.len() as int) =~= file_nodes);
    assert(pending.is_prefix_of(remaining@)) by {
        assert(remaining@.subrange(0, pending.len() as int) =~= pending);
    }
    if remaining.len() == 0 {
        assert(file_nodes =~= Seq::<CompactFileNode>::empty());
    } else {
        out.push(
            PartialScanResult {
                compact_nodes: remaining,
                total_scanned: total_items,
                total_size,
                is_complete: false,
                root_node: None,
                disk_info: None,
                current_path: None,
            },
        );
    }
    let limited = build_limited_depth_node(root, MAX_DEPTH);
    out.push(
        PartialScanResult {
            compact_nodes: Vec::new(),
            total_scanned: total_items,
            total_size,
            is_complete: true,
            root_node: Some(limited),
            disk_info,
            current_path: None,
        },
    );
    out
}

} // verus!
