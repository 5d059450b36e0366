//! Remaining space on the partition holding the media directory.

use vstd::prelude::*;
use vstd::utf8::encode_utf8;

use crate::text::{all_digits, concatenated, decimal, decimal_text, decimal_value, lemma_decimal_text_reads_back, owned};

verus! {

/// Remaining space on a partition.
pub struct FreeSpace {
    /// Number of remaining GiB.
    free_space_gib: u64,
    /// Number of total GiB.
    total_space_gib: u64,
    /// Percentage of remaining available space.
    free_space_percent: u64,
}

impl View for FreeSpace {
    /// Free GiB, total GiB, free percentage.
    type V = (u64, u64, u64);

    closed spec fn view(&self) -> (u64, u64, u64) {
        (self.free_space_gib, self.total_space_gib, self.free_space_percent)
    }
}

/// The text of a free space report: `P% (F / T GiB)`.
pub open spec fn free_space_text(v: (u64, u64, u64)) -> Seq<char> {
    decimal_text(v.2 as nat) + "% ("@ + decimal_text(v.0 as nat) + " / "@ + decimal_text(v.1 as nat) + " GiB)"@
}

/// A mounted file system, as listed by the system.
pub struct MountInfo {
    pub dev_name: String,
    pub mount_dir: String,
    /// The canonical form of `dev_name`, when it could be resolved.
    pub dev_canonical: Option<String>,
}

/// Whether `path` starts with the components of `base`, as `Path::starts_with` decides.
pub uninterp spec fn path_component_prefix(path: Seq<char>, base: Seq<char>) -> bool;

/// Trusted: `std::path::Path::starts_with`, a function of the two paths
/// (prefix by whole components); only named here.
#[verifier::external_body]
fn path_starts_with(path: &str, base: &str) -> (res: bool)
    ensures
        res == path_component_prefix(path@, base@),
{
    std::path::Path::new(path).starts_with(base)
}

/// The mount whose device resolves to `path` itself.
pub open spec fn is_device_of(m: MountInfo, path: Seq<char>) -> bool {
    m.dev_canonical matches Some(c) && c@ == path
}

/// Index of the first mount whose device is `path`.
pub open spec fn device_mount(path: Seq<char>, ms: Seq<MountInfo>) -> Option<int>
    decreases ms.len(),
{
    if ms.len() == 0 {
        None
    } else {
        match device_mount(path, ms.drop_last()) {
            Some(i) => Some(i),
            None => if is_device_of(ms.last(), path) {
                Some(ms.len() - 1)
            } else {
                None
            },
        }
    }
}

/// Byte length of a mount directory (as `str::len` reports it).
pub open spec fn dir_len(m: MountInfo) -> usize {
    encode_utf8(m.mount_dir@).len() as usize
}

/// Index of the mount with the longest directory containing `path` (the last
/// one among equally long ones, as `Iterator::max_by_key` picks).
pub open spec fn deepest_mount(path: Seq<char>, ms: Seq<MountInfo>) -> Option<int>
    decreases ms.len(),
{
    if ms.len() == 0 {
        None
    } else {
        let prev = deepest_mount(path, ms.drop_last());
        if path_component_prefix(path, ms.last().mount_dir@) && (prev matches Some(p) ==> dir_len(ms.last()) >= dir_len(ms[p])) {
            Some(ms.len() - 1)
        } else {
            prev
        }
    }
}

/// The mount that holds `path`: the device itself, else the deepest mount directory.
pub open spec fn mount_of(path: Seq<char>, ms: Seq<MountInfo>) -> Option<int> {
    match device_mount(path, ms) {
        Some(i) => Some(i),
        None => deepest_mount(path, ms),
    }
}

proof fn lemma_device_mount_range(path: Seq<char>, ms: Seq<MountInfo>)
    ensures
        device_mount(path, ms) matches Some(i) ==> 0 <= i < ms.len(),
        deepest_mount(path, ms) matches Some(i) ==> 0 <= i < ms.len(),
    decreases ms.len(),
{
    if ms.len() > 0 {
        lemma_device_mount_range(path, ms.drop_last());
    }
}

proof fn lemma_device_mount_found(path: Seq<char>, ms: Seq<MountInfo>)
    ensures
        device_mount(path, ms) matches Some(i) ==> 0 <= i < ms.len() && is_device_of(ms[i], path),
        device_mount(path, ms) is None ==> forall|j: int| 0 <= j < ms.len() ==> !is_device_of(#[trigger] ms[j], path),
    decreases ms.len(),
{
    if ms.len() > 0 {
        lemma_device_mount_found(path, ms.drop_last());
        assert forall|j: int| 0 <= j < ms.len() - 1 implies #[trigger] ms[j] == ms.drop_last()[j] by {}
    }
}

proof fn lemma_deepest_mount_found(path: Seq<char>, ms: Seq<MountInfo>)
    ensures
        deepest_mount(path, ms) matches Some(i) ==> 0 <= i < ms.len() && path_component_prefix(path, ms[i].mount_dir@)
            && forall|j: int|
            0 <= j < ms.len() && path_component_prefix(path, (#[trigger] ms[j]).mount_dir@) ==> dir_len(ms[j]) <= dir_len(
                ms[i],
            ),
        deepest_mount(path, ms) is None ==> forall|j: int|
            0 <= j < ms.len() ==> !path_component_prefix(path, (#[trigger] ms[j]).mount_dir@),
    decreases ms.len(),
{
    if ms.len() > 0 {
        let pre = ms.drop_last();
        lemma_deepest_mount_found(path, pre);
        assert forall|j: int| 0 <= j < ms.len() - 1 implies #[trigger] ms[j] == pre[j] by {}
        assert(ms.last() == ms[ms.len() - 1]);
    }
}

/// Law: the selected mount holds the path: it is the path's own device, or
/// a mount whose directory contains the path and is at least as long as any
/// other such directory; the path's device, when mounted, is always chosen;
/// no mount is selected only when none holds the path.
pub proof fn lemma_mount_holds_path(path: Seq<char>, ms: Seq<MountInfo>)
    ensures
        mount_of(path, ms) matches Some(i) ==> 0 <= i < ms.len() && (is_device_of(ms[i], path) || path_component_prefix(
            path,
            ms[i].mount_dir@,
        )),
        (exists|j: int| 0 <= j < ms.len() && is_device_of(#[trigger] ms[j], path)) ==> (mount_of(path, ms) matches Some(
            i,
        ) && is_device_of(ms[i], path)),
        (forall|j: int| 0 <= j < ms.len() ==> !is_device_of(#[trigger] ms[j], path)) ==> (mount_of(path, ms) matches Some(
            i,
        ) ==> forall|j: int|
            0 <= j < ms.len() && path_component_prefix(path, (#[trigger] ms[j]).mount_dir@) ==> dir_len(ms[j]) <= dir_len(
                ms[i],
            )),
        mount_of(path, ms) is None ==> forall|j: int|
            0 <= j < ms.len() ==> !is_device_of(#[trigger] ms[j], path) && !path_component_prefix(path, ms[j].mount_dir@),
{
    lemma_device_mount_found(path, ms);
    lemma_deepest_mount_found(path, ms);
}

/// Picks the mount that holds the canonical path `path`.
pub fn select_mount(path: &str, mounts: &Vec<MountInfo>) -> (res: Option<usize>)
    ensures
        match mount_of(path@, mounts@) {
            Some(i) => res == Some(i as usize),
            None => res is None,
        },
{
    let mut device: Option<usize> = None;
    let mut deepest: Option<usize> = None;
    let mut i: usize = 0;
    proof {
        assert(mounts@.subrange(0, 0) =~= Seq::<MountInfo>::empty());
    }
    while i < mounts.len()
        invariant
            i <= mounts@.len(),
            match device_mount(path@, mounts@.subrange(0, i as int)) {
                Some(k) => device == Some(k as usize),
                None => device is None,
            },
            match deepest_mount(path@, mounts@.subrange(0, i as int)) {
                Some(k) => deepest == Some(k as usize),
                None => deepest is None,
            },
            device matches Some(k) ==> k < i,
            deepest matches Some(k) ==> k < i,
        decreases mounts@.len() - i,
    {
        let m = &mounts[i];
        let ghost pre = mounts@.subrange(0, i as int);
        let ghost cur = mounts@.subrange(0, i + 1);
        assert(cur.drop_last() == pre);
        proof {
            lemma_device_mount_range(path@, pre);
            lemma_device_mount_range(path@, cur);
        }
        if device.is_none() {
            let is_dev = match &m.dev_canonical {
                Some(c) => crate::text::str_eq(c.as_str(), path),
                None => false,
            };
            if is_dev {
                device = Some(i);
            }
        }
        let inside = path_starts_with(path, m.mount_dir.as_str());
        let here = m.mount_dir.as_str();
        let here_len = here.len();
        let longer = match deepest {
            Some(d) => {
                let there = mounts[d].mount_dir.as_str();
                let there_len = there.len();
                here_len >= there_len
            },
            None => true,
        };
        proof {
            if let Some(d) = deepest {
                assert(cur[d as int] == pre[d as int]);
                assert(cur[d as int] == mounts@[d as int]);
            }
            assert(inside == path_component_prefix(path@, cur.last().mount_dir@));
            assert(longer == (deepest_mount(path@, pre) matches Some(p) ==> dir_len(cur.last()) >= dir_len(cur[p])));
        }
        if inside && longer {
            deepest = Some(i);
        }
        i = i + 1;
    }
    assert(mounts@.subrange(0, mounts@.len() as int) == mounts@);
    match device {
        Some(d) => Some(d),
        None => deepest,
    }
}

/// The path on which the file system of `m` is queried: its directory, or its device when unnamed.
pub fn stat_path(m: &MountInfo) -> (res: String)
    ensures
        res@ == if m.mount_dir@.len() == 0 { m.dev_name@ } else { m.mount_dir@ },
{
    if m.mount_dir.as_str().is_empty() {
        owned(m.dev_name.as_str())
    } else {
        owned(m.mount_dir.as_str())
    }
}

impl FreeSpace {
    /// A report of `free_space_gib` free out of `total_space_gib`, with
    /// `free_space_percent` percent available.
    pub fn new(free_space_gib: u64, total_space_gib: u64, free_space_percent: u64) -> (res: FreeSpace)
        ensures
            res@ == (free_space_gib, total_space_gib, free_space_percent),
    {
        FreeSpace { free_space_gib, total_space_gib, free_space_percent }
    }

    /// The report as text: `P% (F / T GiB)`.
    pub fn to_string(&self) -> (res: String)
        ensures
            res@ == free_space_text(self@),
    {
        let percent = decimal(self.free_space_percent);
        let free = decimal(self.free_space_gib);
        let total = decimal(self.total_space_gib);
        let a = concatenated(percent.as_str(), "% (");
        let b = concatenated(a.as_str(), free.as_str());
        let c = concatenated(b.as_str(), " / ");
        let d = concatenated(c.as_str(), total.as_str());
        concatenated(d.as_str(), " GiB)")
    }
}


/// Law: a free space report reads back as its three numbers: the free
/// percentage, then `% (`, the free GiB, ` / `, the total GiB, and ` GiB)`,
/// each number written with decimal digits.
pub proof fn lemma_free_space_text_reads_back(free_gib: u64, total_gib: u64, percent: u64)
    ensures
        exists|a: Seq<char>, b: Seq<char>, c: Seq<char>|
            #![trigger decimal_value(a), decimal_value(b), decimal_value(c)]
            a.len() > 0 && b.len() > 0 && c.len() > 0 && all_digits(a) && all_digits(b) && all_digits(c)
                && decimal_value(a) == percent && decimal_value(b) == free_gib && decimal_value(c) == total_gib
                && free_space_text((free_gib, total_gib, percent)) == a + "% ("@ + b + " / "@ + c + " GiB)"@,
{
    lemma_decimal_text_reads_back(percent as nat);
    lemma_decimal_text_reads_back(free_gib as nat);
    lemma_decimal_text_reads_back(total_gib as nat);
    let a = decimal_text(percent as nat);
    let b = decimal_text(free_gib as nat);
    let c = decimal_text(total_gib as nat);
    assert(decimal_value(a) == percent && decimal_value(b) == free_gib && decimal_value(c) == total_gib);
}

} // verus!
