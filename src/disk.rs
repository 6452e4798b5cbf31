use vstd::prelude::*;
use crate::text::{chars_of, starts_with_chars, same_chars, no_slash_in};
use crate::session::sat_add;

verus! {

/// Space on the volume that holds a scan root.
pub struct DiskInfo {
    pub total_space: u64,
    pub available_space: u64,
    pub used_space: u64,
}

/// One mounted volume as the system lists it.
pub struct DiskEntry {
    pub mount_point: String,
    pub total_space: u64,
    pub available_space: u64,
}

/// `a - b`, or 0 where `b` exceeds `a`.
pub open spec fn sat_sub(a: u64, b: u64) -> u64 {
    if a >= b {
        (a - b) as u64
    } else {
        0
    }
}

/// The space figures of one volume, with "used" recomputed as total minus available.
pub open spec fn info_of(d: DiskEntry) -> DiskInfo {
    DiskInfo {
        total_space: d.total_space,
        available_space: d.available_space,
        used_space: sat_sub(d.total_space, d.available_space),
    }
}

/// A path component: not empty, no '/'.
pub open spec fn is_segment(s: Seq<char>) -> bool {
    s.len() > 0 && !s.contains('/')
}

/// `p` is `prefix` followed by exactly one path component.
pub open spec fn one_segment_after(p: Seq<char>, prefix: Seq<char>) -> bool {
    prefix.is_prefix_of(p) && is_segment(p.subrange(prefix.len() as int, p.len() as int))
}

/// `p` is `prefix` followed by exactly two path components.
pub open spec fn two_segments_after(p: Seq<char>, prefix: Seq<char>) -> bool {
    prefix.is_prefix_of(p) && exists|k: int|
        prefix.len() <= k < p.len() && p[k] == '/' && is_segment(
            p.subrange(prefix.len() as int, k),
        ) && is_segment(p.subrange(k + 1, p.len() as int))
}

/// A drive root such as `C:\`.
pub open spec fn is_drive_root(p: Seq<char>) -> bool {
    p.len() == 3 && (p[0] as u32) < 128 && p[1] == ':' && p[2] == '\\'
}

/// A filesystem root or a mount point: `/`, `\`, a drive root, `/Volumes/<name>`,
/// `/mnt/<name>` or `/media/<user>/<name>`.
pub open spec fn is_root_path(p: Seq<char>) -> bool {
    ||| p == "/"@
    ||| p == "\\"@
    ||| is_drive_root(p)
    ||| one_segment_after(p, "/Volumes/"@)
    ||| one_segment_after(p, "/mnt/"@)
    ||| two_segments_after(p, "/media/"@)
}

fn one_segment_after_exec(c: &Vec<char>, prefix: &Vec<char>) -> (r: bool)
    ensures
        r == one_segment_after(c@, prefix@),
{
    if !starts_with_chars(c, prefix) || prefix.len() >= c.len() {
        return false;
    }
    no_slash_in(c, prefix.len(), c.len())
}

fn two_segments_after_exec(c: &Vec<char>, prefix: &Vec<char>) -> (r: bool)
    ensures
        r == two_segments_after(c@, prefix@),
{
    if !starts_with_chars(c, prefix) {
        return false;
    }
    let lo = prefix.len();
    let mut k: usize = lo;
    while k < c.len() && c[k] != '/'
        invariant
            lo <= k <= c@.len(),
            forall|j: int| lo <= j < k ==> c@[j] != '/',
        decreases c@.len() - k,
    {
        k = k + 1;
    }
    if k == c.len() {
        proof {
            if two_segments_after(c@, prefix@) {
                let m = choose|m: int|
                    lo <= m < c@.len() && c@[m] == '/' && is_segment(c@.subrange(lo as int, m))
                        && is_segment(c@.subrange(m + 1, c@.len() as int));
                assert(c@[m] != '/');
            }
        }
        return false;
    }
    let r = k > lo && k + 1 < c.len() && no_slash_in(c, k + 1, c.len());
    proof {
        if r {
            assert(no_slash_in_range(c@, lo as int, k as int)) by {
                assert forall|j: int| 0 <= j < k - lo implies c@.subrange(lo as int, k as int)[j]
                    != '/' by {
                    assert(c@[lo + j] != '/');
                }
            }
        }
        if two_segments_after(c@, prefix@) {
            let m = choose|m: int|
                lo <= m < c@.len() && c@[m] == '/' && is_segment(c@.subrange(lo as int, m))
                    && is_segment(c@.subrange(m + 1, c@.len() as int));
            if m < k {
                assert(c@[m] != '/');
            } else if m > k {
                assert(c@.subrange(lo as int, m)[k - lo] == '/');
            }
        }
    }
    r
}

spec fn no_slash_in_range(c: Seq<char>, lo: int, hi: int) -> bool {
    !c.subrange(lo, hi).contains('/')
}

/// Whether a scan root is a filesystem root or a mount point, whose volume's
/// capacity is then reported with the scan.
pub fn is_root_directory(path: &str) -> (r: bool)
    ensures
        r == is_root_path(path@),
{
    let c = chars_of(path);
    let slash = chars_of("/");
    let backslash = chars_of("\\");
    let volumes = chars_of("/Volumes/");
    let mnt = chars_of("/mnt/");
    let media = chars_of("/media/");
    proof {
        reveal_strlit("\\");
    }
    let drive = c.len() == 3 && (c[0] as u32) < 128 && c[1] == ':' && c[2] == '\\';
    same_chars(&c, &slash) || same_chars(&c, &backslash) || drive || one_segment_after_exec(
        &c,
        &volumes,
    ) || one_segment_after_exec(&c, &mnt) || two_segments_after_exec(&c, &media)
}

/// A path separator: '/' or '\\'.
pub open spec fn is_separator(c: char) -> bool {
    c == '/' || c == '\\'
}

/// The volume mounted at `d` holds `path`: its mount point is the path itself, or the
/// path continues below it past a separator (whole components only, so `/mnt/disk`
/// does not hold `/mnt/disk2`).
pub open spec fn mounted_under(path: Seq<char>, d: DiskEntry) -> bool {
    let m = d.mount_point@;
    &&& m.is_prefix_of(path)
    &&& m.len() == path.len() || (m.len() > 0 && is_separator(m.last())) || is_separator(
        path[m.len() as int],
    )
}

/// `i` is the volume that holds `path` with the longest mount point (the first such).
pub open spec fn is_best_match(path: Seq<char>, disks: Seq<DiskEntry>, i: int) -> bool {
    &&& 0 <= i < disks.len()
    &&& mounted_under(path, disks[i])
    &&& forall|j: int|
        0 <= j < disks.len() && mounted_under(path, #[trigger] disks[j]) ==> {
            &&& disks[j].mount_point@.len() <= disks[i].mount_point@.len()
            &&& j < i ==> disks[j].mount_point@.len() < disks[i].mount_point@.len()
        }
}

/// Volumes that share one capacity pool with the system root.
pub open spec fn is_pool_member(m: Seq<char>) -> bool {
    ||| m == "/"@
    ||| "/System/Volumes/Data"@.is_prefix_of(m)
    ||| "/System/Volumes/Preboot"@.is_prefix_of(m)
    ||| "/System/Volumes/VM"@.is_prefix_of(m)
    ||| "/System/Volumes/Update"@.is_prefix_of(m)
}

/// Used space summed (saturating) over the pool's volumes.
pub open spec fn pool_used(disks: Seq<DiskEntry>) -> u64
    decreases disks.len(),
{
    if disks.len() == 0 {
        0
    } else if is_pool_member(disks.last().mount_point@) {
        sat_add(
            pool_used(disks.drop_last()),
            sat_sub(disks.last().total_space, disks.last().available_space),
        )
    } else {
        pool_used(disks.drop_last())
    }
}

/// The last volume of the pool in the list (total and available space are shared by
/// the pool, so any member reports them).
pub open spec fn pool_last(disks: Seq<DiskEntry>) -> Option<DiskEntry>
    decreases disks.len(),
{
    if disks.len() == 0 {
        None
    } else if is_pool_member(disks.last().mount_point@) {
        Some(disks.last())
    } else {
        pool_last(disks.drop_last())
    }
}

fn mounted_under_exec(c: &Vec<char>, d: &DiskEntry) -> (r: bool)
    ensures
        r == mounted_under(c@, *d),
{
    let m = chars_of(d.mount_point.as_str());
    if !starts_with_chars(c, &m) {
        return false;
    }
    if m.len() == c.len() {
        return true;
    }
    let ends_sep = m.len() > 0 && (m[m.len() - 1] == '/' || m[m.len() - 1] == '\\');
    ends_sep || c[m.len()] == '/' || c[m.len()] == '\\'
}

/// The volume holding the path with the longest mount point (the first such).
fn best_mount(c: &Vec<char>, disks: &Vec<DiskEntry>) -> (r: Option<usize>)
    ensures
        match r {
            None => forall|i: int| 0 <= i < disks@.len() ==> !mounted_under(c@, #[trigger] disks@[i]),
            Some(b) => is_best_match(c@, disks@, b as int),
        },
{
    let mut best: Option<usize> = None;
    let mut best_len: usize = 0;
    let mut i: usize = 0;
    while i < disks.len()
        invariant
            i <= disks@.len(),
            match best {
                None => forall|j: int| 0 <= j < i ==> !mounted_under(c@, #[trigger] disks@[j]),
                Some(b) => b < i && best_len == disks@[b as int].mount_point@.len()
                    && mounted_under(c@, disks@[b as int]) && forall|j: int|
                    0 <= j < i && mounted_under(c@, #[trigger] disks@[j]) ==> {
                        &&& disks@[j].mount_point@.len() <= best_len
                        &&& j < b ==> disks@[j].mount_point@.len() < best_len
                    },
            },
        decreases disks@.len() - i,
    {
        if mounted_under_exec(c, &disks[i]) {
            let len = chars_of(disks[i].mount_point.as_str()).len();
            match best {
                None => {
                    best = Some(i);
                    best_len = len;
                },
                Some(_) => {
                    if len > best_len {
                        best = Some(i);
                        best_len = len;
                    }
                },
            }
        }
        i = i + 1;
    }
    best
}

/// The capacity of the volume that holds `path`: of the volumes whose mount point
/// holds the path, the one with the longest mount point.
pub fn resolve_disk_info(path: &str, disks: &Vec<DiskEntry>) -> (r: Option<DiskInfo>)
    ensures
        match r {
            None => forall|i: int| 0 <= i < disks@.len() ==> !mounted_under(path@, #[trigger] disks@[i]),
            Some(info) => exists|i: int|
                #[trigger] is_best_match(path@, disks@, i) && info == info_of(disks@[i]),
        },
{
    let c = chars_of(path);
    match best_mount(&c, disks) {
        None => None,
        Some(b) => {
            let d = &disks[b];
            Some(
                DiskInfo {
                    total_space: d.total_space,
                    available_space: d.available_space,
                    used_space: d.total_space.saturating_sub(d.available_space),
                },
            )
        },
    }
}

/// The capacity of the volume that holds `path`, for systems whose volumes share a
/// pool: the volume with the longest mount point that holds the path; for the system
/// root itself, used space is summed over the pool's volumes.
pub fn resolve_disk_info_pooled(path: &str, disks: &Vec<DiskEntry>) -> (r: Option<DiskInfo>)
    ensures
        match r {
            None => forall|i: int| 0 <= i < disks@.len() ==> !mounted_under(path@, #[trigger] disks@[i]),
            Some(info) => exists|i: int|
                #[trigger] is_best_match(path@, disks@, i) && if path@ == "/"@
                    && disks@[i].mount_point@ == "/"@ {
                    pool_last(disks@) is Some && info == (DiskInfo {
                        total_space: pool_last(disks@)->Some_0.total_space,
                        available_space: pool_last(disks@)->Some_0.available_space,
                        used_space: pool_used(disks@),
                    })
                } else {
                    info == info_of(disks@[i])
                },
        },
{
    let c = chars_of(path);
    let b = match best_mount(&c, disks) {
        None => {
            return None;
        },
        Some(b) => b,
    };
    assert(is_best_match(path@, disks@, b as int));
    let root = chars_of("/");
    let m = chars_of(disks[b].mount_point.as_str());
    if same_chars(&c, &root) && same_chars(&m, &root) {
        let mut used: u64 = 0;
        let mut last: Option<usize> = None;
        let mut k: usize = 0;
        while k < disks.len()
            invariant
                k <= disks@.len(),
                used == pool_used(disks@.take(k as int)),
                match last {
                    None => pool_last(disks@.take(k as int)) is None,
                    Some(l) => l < k && pool_last(disks@.take(k as int)) == Some(disks@[l as int]),
                },
            decreases disks@.len() - k,
        {
            proof {
                assert(disks@.take(k + 1).drop_last() =~= disks@.take(k as int));
                assert(disks@.take(k + 1).last() == disks@[k as int]);
            }
            if is_pool_mount(disks[k].mount_point.as_str()) {
                let d = &disks[k];
                used = used.saturating_add(d.total_space.saturating_sub(d.available_space));
                last = Some(k);
            }
            k = k + 1;
        }
        assert(disks@.take(k as int) =~= disks@);
        proof {
            lemma_pool_member_found(disks@, b as int);
        }
        let l = match last {
            Some(l) => l,
            None => {
                return None;
            },
        };
        return Some(
            DiskInfo {
                total_space: disks[l].total_space,
                available_space: disks[l].available_space,
                used_space: used,
            },
        );
    }
    let d = &disks[b];
    Some(
        DiskInfo {
            total_space: d.total_space,
            available_space: d.available_space,
            used_space: d.total_space.saturating_sub(d.available_space),
        },
    )
}

proof fn lemma_pool_member_found(disks: Seq<DiskEntry>, b: int)
    requires
        0 <= b < disks.len(),
        is_pool_member(disks[b].mount_point@),
    ensures
        pool_last(disks) is Some,
    decreases disks.len(),
{
    if b < disks.len() - 1 && !is_pool_member(disks.last().mount_point@) {
        lemma_pool_member_found(disks.drop_last(), b);
    }
}

fn is_pool_mount(m: &str) -> (r: bool)
    ensures
        r == is_pool_member(m@),
{
    let c = chars_of(m);
    same_chars(&c, &chars_of("/")) || starts_with_chars(&c, &chars_of("/System/Volumes/Data"))
        || starts_with_chars(&c, &chars_of("/System/Volumes/Preboot")) || starts_with_chars(
        &c,
        &chars_of("/System/Volumes/VM"),
    ) || starts_with_chars(&c, &chars_of("/System/Volumes/Update"))
}

} // verus!
