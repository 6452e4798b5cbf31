use vstd::prelude::*;
use crate::session::sat_add;
use crate::tree::clamp_u64;

verus! {

/// One progress message of a batch deletion: an item being started, or (with
/// `completed`) the closing summary.
pub struct DeletionProgress {
    /// 1-based index of the item (the item count on the summary).
    pub current: usize,
    pub total: usize,
    pub current_path: String,
    pub success: bool,
    pub completed: bool,
    pub deleted_size: Option<u64>,
    pub deleted_count: Option<usize>,
    pub failed_count: Option<usize>,
}

/// The tallies of a batch deletion so far.
pub struct DeletionRunView {
    pub total: nat,
    pub index: nat,
    pub deleted_count: nat,
    pub deleted_size: u64,
    pub failed_count: nat,
}

/// A batch deletion in progress: items are taken one at a time, in order.
pub struct DeletionRun {
    total: usize,
    index: usize,
    deleted_count: usize,
    deleted_size: u64,
    failed_count: usize,
}

impl View for DeletionRun {
    type V = DeletionRunView;

    closed spec fn view(&self) -> DeletionRunView {
        DeletionRunView {
            total: self.total as nat,
            index: self.index as nat,
            deleted_count: self.deleted_count as nat,
            deleted_size: self.deleted_size,
            failed_count: self.failed_count as nat,
        }
    }
}

impl DeletionRun {
    /// Every item taken so far was either deleted or failed, and no more than the
    /// batch holds were taken.
    pub open spec fn wf(&self) -> bool {
        &&& self@.index <= self@.total
        &&& self@.deleted_count + self@.failed_count == self@.index
    }

    /// A run over `total` items, none taken yet.
    pub fn new(total: usize) -> (r: Self)
        ensures
            r.wf(),
            r@ == (DeletionRunView {
                total: total as nat,
                index: 0,
                deleted_count: 0,
                deleted_size: 0,
                failed_count: 0,
            }),
    {
        DeletionRun { total, index: 0, deleted_count: 0, deleted_size: 0, failed_count: 0 }
    }

    /// Whether every item has been taken.
    pub fn is_done(&self) -> (r: bool)
        ensures
            r == (self@.index == self@.total),
    {
        self.index == self.total
    }

    /// The message sent as the next item (at path `path`) is started.
    pub fn begin_item(&self, path: &str) -> (m: DeletionProgress)
        requires
            self.wf(),
            self@.index < self@.total,
        ensures
            m.current == self@.index + 1,
            m.total == self@.total,
            m.current_path@ == path@,
            !m.success,
            !m.completed,
            m.deleted_size is None,
            m.deleted_count is None,
            m.failed_count is None,
    {
        DeletionProgress {
            current: self.index + 1,
            total: self.total,
            current_path: path.to_owned(),
            success: false,
            completed: false,
            deleted_size: None,
            deleted_count: None,
            failed_count: None,
        }
    }

    /// Records how the current item went: removed (with the size it had before), or
    /// failed. A failure never stops the run.
    pub fn record(&mut self, removed: bool, size_before: u64)
        requires
            old(self).wf(),
            old(self)@.index < old(self)@.total,
        ensures
            final(self).wf(),
            final(self)@ == (if removed {
                DeletionRunView {
                    index: old(self)@.index + 1,
                    deleted_count: old(self)@.deleted_count + 1,
                    deleted_size: sat_add(old(self)@.deleted_size, size_before),
                    ..old(self)@
                }
            } else {
                DeletionRunView {
                    index: old(self)@.index + 1,
                    failed_count: old(self)@.failed_count + 1,
                    ..old(self)@
                }
            }),
    {
        self.index = self.index + 1;
        if removed {
            self.deleted_count = self.deleted_count + 1;
            self.deleted_size = self.deleted_size.saturating_add(size_before);
        } else {
            self.failed_count = self.failed_count + 1;
        }
    }

    /// The closing summary: all items counted, success only if none failed.
    pub fn finish(&self) -> (m: DeletionProgress)
        requires
            self.wf(),
        ensures
            m.current == self@.total,
            m.total == self@.total,
            m.current_path@.len() == 0,
            m.success == (self@.failed_count == 0),
            m.completed,
            m.deleted_size == Some(self@.deleted_size),
            m.deleted_count == Some(self@.deleted_count as usize),
            m.failed_count == Some(self@.failed_count as usize),
    {
        DeletionProgress {
            current: self.total,
            total: self.total,
            current_path: String::new(),
            success: self.failed_count == 0,
            completed: true,
            deleted_size: Some(self.deleted_size),
            deleted_count: Some(self.deleted_count),
            failed_count: Some(self.failed_count),
        }
    }
}

/// The sum of a list of sizes.
pub open spec fn sum_u64(s: Seq<u64>) -> int
    decreases s.len(),
{
    if s.len() == 0 {
        0
    } else {
        sum_u64(s.drop_last()) + s.last()
    }
}

proof fn lemma_sum_u64_nonneg(s: Seq<u64>)
    ensures
        sum_u64(s) >= 0,
    decreases s.len(),
{
    if s.len() > 0 {
        lemma_sum_u64_nonneg(s.drop_last());
    }
}

/// The total of the on-disk sizes of the files under a directory, saturating at the
/// largest `u64`.
pub fn total_size(sizes: &Vec<u64>) -> (r: u64)
    ensures
        r == clamp_u64(sum_u64(sizes@)),
{
    let mut total: u64 = 0;
    let mut i: usize = 0;
    while i < sizes.len()
        invariant
            i <= sizes@.len(),
            total == clamp_u64(sum_u64(sizes@.take(i as int))),
        decreases sizes@.len() - i,
    {
        proof {
            assert(sizes@.take(i + 1).drop_last() =~= sizes@.take(i as int));
            lemma_sum_u64_nonneg(sizes@.take(i as int));
        }
        total = total.saturating_add(sizes[i]);
        i = i + 1;
    }
    assert(sizes@.take(i as int) =~= sizes@);
    total
}

} // verus!
