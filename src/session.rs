use vstd::prelude::*;
use std::collections::HashSet;
use crate::tree::CompactFileNode;

verus! {

broadcast use vstd::std_specs::hash::group_hash_axioms;

/// Number of buffered wire nodes at which a batch is sent.
pub const BATCH_SIZE: usize = 10000;

/// Depth below the root at which the final snapshot is cut.
pub const MAX_DEPTH: usize = 100;

/// A "currently visiting" update is due once every this many visits.
pub const PATH_UPDATE_INTERVAL: usize = 10;

/// What a scan session holds, as plain values.
pub struct ScanStateView {
    pub counter: u64,
    pub scanned_size: u64,
    pub buffer: Seq<CompactFileNode>,
    pub visited: Set<u64>,
    pub stack: Set<Seq<char>>,
    pub cancelled: bool,
    pub current_path: Seq<char>,
    pub ticks: nat,
}

/// `a + b`, or `u64::MAX` where the sum does not fit.
pub open spec fn sat_add(a: u64, b: u64) -> u64 {
    if a as int + b as int > u64::MAX as int {
        u64::MAX
    } else {
        (a + b) as u64
    }
}

/// The texts of a list of strings, as a set.
pub open spec fn texts(v: Seq<String>) -> Set<Seq<char>> {
    Set::new(|p: Seq<char>| exists|i: int| 0 <= i < v.len() && #[trigger] v[i]@ == p)
}

/// The shared state of one scan: counters, cancellation, cycle guards, pending batch,
/// and the "currently visiting" path.
pub struct ScanState {
    counter: u64,
    scanned_size: u64,
    compact_batch_buffer: Vec<CompactFileNode>,
    visited_inodes: HashSet<u64>,
    recursion_stack: Vec<String>,
    cancelled: bool,
    current_path: String,
    path_update_counter: usize,
}

impl View for ScanState {
    type V = ScanStateView;

    closed spec fn view(&self) -> ScanStateView {
        ScanStateView {
            counter: self.counter,
            scanned_size: self.scanned_size,
            buffer: self.compact_batch_buffer@,
            visited: self.visited_inodes@,
            stack: texts(self.recursion_stack@),
            cancelled: self.cancelled,
            current_path: self.current_path@,
            ticks: self.path_update_counter as nat,
        }
    }
}

impl ScanState {
    /// The session's own invariant: the heartbeat count stays below its interval and
    /// the recursion stack holds each path once.
    pub closed spec fn wf(&self) -> bool {
        &&& self.path_update_counter < PATH_UPDATE_INTERVAL
        &&& forall|i: int, j: int|
            0 <= i < j < self.recursion_stack@.len() ==> #[trigger] self.recursion_stack@[i]@
                != #[trigger] self.recursion_stack@[j]@
    }

    /// A fresh session: nothing counted, nothing visited, not cancelled.
    pub fn new() -> (r: Self)
        ensures
            r.wf(),
            r@ == (ScanStateView {
                counter: 0,
                scanned_size: 0,
                buffer: Seq::empty(),
                visited: Set::empty(),
                stack: Set::empty(),
                cancelled: false,
                current_path: Seq::empty(),
                ticks: 0,
            }),
    {
        let r = ScanState {
            counter: 0,
            scanned_size: 0,
            compact_batch_buffer: Vec::new(),
            visited_inodes: HashSet::new(),
            recursion_stack: Vec::new(),
            cancelled: false,
            current_path: String::new(),
            path_update_counter: 0,
        };
        assert(texts(r.recursion_stack@) =~= Set::empty());
        r
    }

    pub fn is_cancelled(&self) -> (r: bool)
        ensures
            r == self@.cancelled,
    {
        self.cancelled
    }

    /// Sets the one-way cancellation flag.
    pub fn cancel(&mut self)
        requires
            old(self).wf(),
        ensures
            final(self).wf(),
            final(self)@ == (ScanStateView { cancelled: true, ..old(self)@ }),
    {
        self.cancelled = true;
    }

    /// Counts one more visited entry (saturating).
    pub fn increment_counter(&mut self)
        requires
            old(self).wf(),
        ensures
            final(self).wf(),
            final(self)@ == (ScanStateView { counter: sat_add(old(self)@.counter, 1), ..old(self)@ }),
    {
        self.counter = self.counter.saturating_add(1);
    }

    /// Adds bytes to the running total (saturating).
    pub fn add_size(&mut self, size: u64)
        requires
            old(self).wf(),
        ensures
            final(self).wf(),
            final(self)@ == (ScanStateView {
                scanned_size: sat_add(old(self)@.scanned_size, size),
                ..old(self)@
            }),
    {
        self.scanned_size = self.scanned_size.saturating_add(size);
    }

    /// The running totals: entries visited and bytes counted.
    pub fn get_stats(&self) -> (r: (u64, u64))
        ensures
            r == (self@.counter, self@.scanned_size),
    {
        (self.counter, self.scanned_size)
    }

    /// Appends a node to the pending batch; tells whether the batch is now full.
    pub fn add_compact_to_buffer(&mut self, node: CompactFileNode) -> (full: bool)
        requires
            old(self).wf(),
        ensures
            final(self).wf(),
            final(self)@ == (ScanStateView { buffer: old(self)@.buffer.push(node), ..old(self)@ }),
            full == (final(self)@.buffer.len() >= BATCH_SIZE),
    {
        self.compact_batch_buffer.push(node);
        self.compact_batch_buffer.len() >= BATCH_SIZE
    }

    /// Takes the pending batch out, leaving it empty.
    pub fn clear_compact_buffer(&mut self) -> (r: Vec<CompactFileNode>)
        requires
            old(self).wf(),
        ensures
            final(self).wf(),
            r@ == old(self)@.buffer,
            final(self)@ == (ScanStateView { buffer: Seq::empty(), ..old(self)@ }),
    {
        let mut taken: Vec<CompactFileNode> = Vec::new();
        std::mem::swap(&mut taken, &mut self.compact_batch_buffer);
        taken
    }

    pub fn is_visited_inode(&self, inode: u64) -> (r: bool)
        ensures
            r == self@.visited.contains(inode),
    {
        self.visited_inodes.contains(&inode)
    }

    /// Records an object identity; tells whether it was new.
    pub fn mark_visited_inode(&mut self, inode: u64) -> (new: bool)
        requires
            old(self).wf(),
        ensures
            final(self).wf(),
            new == !old(self)@.visited.contains(inode),
            final(self)@ == (ScanStateView { visited: old(self)@.visited.insert(inode), ..old(self)@ }),
    {
        self.visited_inodes.insert(inode)
    }

    /// Position of `path` on the recursion stack, if it is there.
    fn stack_position(&self, path: &String) -> (r: Option<usize>)
        ensures
            match r {
                Some(i) => i < self.recursion_stack@.len() && self.recursion_stack@[i as int]@
                    == path@,
                None => !texts(self.recursion_stack@).contains(path@),
            },
    {
        let mut i: usize = 0;
        while i < self.recursion_stack.len()
            invariant
                i <= self.recursion_stack@.len(),
                forall|j: int| 0 <= j < i ==> self.recursion_stack@[j]@ != path@,
            decreases self.recursion_stack@.len() - i,
        {
            if self.recursion_stack[i] == *path {
                return Some(i);
            }
            i = i + 1;
        }
        None
    }

    pub fn is_in_recursion_stack(&self, path: &str) -> (r: bool)
        ensures
            r == self@.stack.contains(path@),
    {
        let p = path.to_owned();
        match self.stack_position(&p) {
            Some(_) => true,
            None => false,
        }
    }

    /// Puts a directory's canonical path on the recursion stack; tells whether it was
    /// not there yet (false signals a cycle).
    pub fn push_to_recursion_stack(&mut self, path: &str) -> (new: bool)
        requires
            old(self).wf(),
        ensures
            final(self).wf(),
            new == !old(self)@.stack.contains(path@),
            final(self)@ == (ScanStateView { stack: old(self)@.stack.insert(path@), ..old(self)@ }),
    {
        let p = path.to_owned();
        match self.stack_position(&p) {
            Some(_) => {
                assert(texts(self.recursion_stack@).insert(path@) =~= texts(self.recursion_stack@));
                false
            },
            None => {
                let ghost before = self.recursion_stack@;
                self.recursion_stack.push(p);
                assert(texts(self.recursion_stack@) =~= texts(before).insert(path@)) by {
                    assert(self.recursion_stack@[before.len() as int]@ == path@);
                    assert forall|q: Seq<char>| texts(before).contains(q) implies texts(
                        self.recursion_stack@,
                    ).contains(q) by {
                        let i = choose|i: int| 0 <= i < before.len() && #[trigger] before[i]@ == q;
                        assert(self.recursion_stack@[i]@ == q);
                    }
                    assert forall|q: Seq<char>| texts(self.recursion_stack@).contains(q) implies texts(
                        before,
                    ).insert(path@).contains(q) by {
                        let i = choose|i: int|
                            0 <= i < self.recursion_stack@.len() && #[trigger] self.recursion_stack@[i]@
                                == q;
                        if i < before.len() {
                            assert(before[i]@ == q);
                        }
                    }
                }
                true
            },
        }
    }

    /// Takes a directory's canonical path off the recursion stack.
    pub fn pop_from_recursion_stack(&mut self, path: &str)
        requires
            old(self).wf(),
        ensures
            final(self).wf(),
            final(self)@ == (ScanStateView { stack: old(self)@.stack.remove(path@), ..old(self)@ }),
    {
        let p = path.to_owned();
        match self.stack_position(&p) {
            Some(k) => {
                let ghost before = self.recursion_stack@;
                self.recursion_stack.remove(k);
                assert(texts(self.recursion_stack@) =~= texts(before).remove(path@)) by {
                    assert forall|q: Seq<char>| texts(before).remove(path@).contains(q) implies texts(
                        self.recursion_stack@,
                    ).contains(q) by {
                        let i = choose|i: int| 0 <= i < before.len() && #[trigger] before[i]@ == q;
                        if i < k {
                            assert(self.recursion_stack@[i]@ == q);
                        } else {
                            assert(i != k);
                            assert(self.recursion_stack@[i - 1]@ == q);
                        }
                    }
                    assert forall|q: Seq<char>| texts(self.recursion_stack@).contains(q) implies texts(
                        before,
                    ).remove(path@).contains(q) by {
                        let i = choose|i: int|
                            0 <= i < self.recursion_stack@.len() && #[trigger] self.recursion_stack@[i]@
                                == q;
                        if i < k {
                            assert(before[i]@ == q);
                            assert(q != path@);
                        } else {
                            assert(before[i + 1]@ == q);
                            assert(q != path@);
                        }
                    }
                }
            },
            None => {
                assert(texts(self.recursion_stack@).remove(path@) =~= texts(self.recursion_stack@));
            },
        }
    }

    /// Records the path being visited.
    pub fn set_current_path(&mut self, path: &str)
        requires
            old(self).wf(),
        ensures
            final(self).wf(),
            final(self)@ == (ScanStateView { current_path: path@, ..old(self)@ }),
    {
        self.current_path = path.to_owned();
    }

    pub fn get_current_path(&self) -> (r: String)
        ensures
            r@ == self@.current_path,
    {
        self.current_path.clone()
    }

    /// Counts one visit toward the heartbeat; true exactly on every tenth call.
    pub fn should_send_path_update(&mut self) -> (due: bool)
        requires
            old(self).wf(),
        ensures
            final(self).wf(),
            due == (old(self)@.ticks + 1 == PATH_UPDATE_INTERVAL),
            final(self)@ == (ScanStateView {
                ticks: if due {
                    0
                } else {
                    old(self)@.ticks + 1
                },
                ..old(self)@
            }),
    {
        self.path_update_counter = self.path_update_counter + 1;
        if self.path_update_counter >= PATH_UPDATE_INTERVAL {
            self.path_update_counter = 0;
            return true;
        }
        false
    }
}

} // verus!
