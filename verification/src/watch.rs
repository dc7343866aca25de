//! Change detection for the development server: which watched files are
//! scanned, and which paths changed between two scans.
use vstd::prelude::*;
use crate::paths::components;
use crate::serve::{generated_asset_dir, in_output, is_generated_bookshelf_asset_path};
use crate::shelf::json::key_index;
use crate::text::{copy_string, str_eq};

verus! {

/// What a scan records of a file: its kind, modification time and length.
#[derive(Debug, Clone, Copy, PartialEq, Eq, Structural)]
pub struct FileStamp {
    pub is_dir: bool,
    pub is_file: bool,
    pub is_symlink: bool,
    pub modified_secs: u64,
    pub modified_nanos: u32,
    pub len: u64,
}

/// Whether a path is scanned: not the output directory or inside it, and
/// not inside a directory of generated assets.
pub open spec fn watched(path: Seq<char>, output_dir: Seq<char>) -> bool {
    !in_output(path, output_dir) && !components(path).contains(generated_asset_dir())
}

/// Whether a path is scanned for changes.
pub fn is_watched_path(path: &str, output_dir: &str) -> (r: bool)
    ensures
        r == watched(path@, output_dir@),
{
    !crate::serve::is_in_output(path, output_dir) && !is_generated_bookshelf_asset_path(path)
}

/// Scan entries as plain values.
pub open spec fn stamps_view(v: Seq<(String, FileStamp)>) -> Seq<(Seq<char>, FileStamp)> {
    v.map_values(|e: (String, FileStamp)| (e.0@, e.1))
}

/// The stamp recorded first for `path`.
pub open spec fn stamp_of(v: Seq<(Seq<char>, FileStamp)>, path: Seq<char>) -> Option<FileStamp> {
    match key_index(v, path) {
        Some(i) => Some(v[i].1),
        None => None,
    }
}

/// The paths of the first `n` new entries that are new or whose stamp
/// changed.
pub open spec fn changed_in_new(
    old: Seq<(Seq<char>, FileStamp)>,
    new: Seq<(Seq<char>, FileStamp)>,
    n: int,
) -> Seq<Seq<char>>
    decreases n,
{
    if n <= 0 {
        Seq::empty()
    } else if stamp_of(old, new[n - 1].0) == Some(new[n - 1].1) {
        changed_in_new(old, new, n - 1)
    } else {
        changed_in_new(old, new, n - 1).push(new[n - 1].0)
    }
}

/// The paths of the first `n` old entries that the new scan lacks.
pub open spec fn removed_from_old(
    old: Seq<(Seq<char>, FileStamp)>,
    new: Seq<(Seq<char>, FileStamp)>,
    n: int,
) -> Seq<Seq<char>>
    decreases n,
{
    if n <= 0 {
        Seq::empty()
    } else if stamp_of(new, old[n - 1].0) is None {
        removed_from_old(old, new, n - 1).push(old[n - 1].0)
    } else {
        removed_from_old(old, new, n - 1)
    }
}

/// The changed paths between two scans: the new or changed paths in the
/// order of the new scan, then the removed paths in the order of the old.
pub open spec fn changed_paths_of(old: Seq<(Seq<char>, FileStamp)>, new: Seq<(Seq<char>, FileStamp)>) -> Seq<Seq<char>> {
    changed_in_new(old, new, new.len() as int) + removed_from_old(old, new, old.len() as int)
}

fn find_stamp(v: &Vec<(String, FileStamp)>, path: &str) -> (r: Option<FileStamp>)
    ensures
        r == stamp_of(stamps_view(v@), path@),
{
    let ghost sv = stamps_view(v@);
    let mut i: usize = 0;
    while i < v.len()
        invariant
            i <= v.len(),
            sv == stamps_view(v@),
            forall|j: int| 0 <= j < i ==> v@[j].0@ != path@,
        decreases v.len() - i,
    {
        if str_eq(v[i].0.as_str(), path) {
            proof {
                assert(sv[i as int].0 == path@);
                crate::shelf::json::lemma_key_index(sv, path@);
                if let Some(j) = key_index(sv, path@) {
                    if j < i {
                        assert(sv[j].0 == v@[j].0@);
                    }
                }
            }
            return Some(v[i].1);
        }
        i += 1;
    }
    proof {
        crate::shelf::json::lemma_key_index(sv, path@);
        if let Some(j) = key_index(sv, path@) {
            assert(sv[j].0 == v@[j].0@);
        }
    }
    None
}

/// The paths that changed between two scans.
pub fn changed_paths(old: &Vec<(String, FileStamp)>, new: &Vec<(String, FileStamp)>) -> (r: Vec<String>)
    ensures
        r.deep_view() == changed_paths_of(stamps_view(old@), stamps_view(new@)),
{
    let ghost ov = stamps_view(old@);
    let ghost nv = stamps_view(new@);
    let mut r: Vec<String> = Vec::new();
    let mut i: usize = 0;
    while i < new.len()
        invariant
            i <= new.len(),
            ov == stamps_view(old@),
            nv == stamps_view(new@),
            r.deep_view() == changed_in_new(ov, nv, i as int),
        decreases new.len() - i,
    {
        assert(nv[i as int] == (new@[i as int].0@, new@[i as int].1));
        let unchanged = match find_stamp(old, new[i].0.as_str()) {
            Some(s) => s == new[i].1,
            None => false,
        };
        if !unchanged {
            let ghost before = r.deep_view();
            r.push(copy_string(&new[i].0));
            assert(r.deep_view() =~= before.push(nv[i as int].0));
        }
        i += 1;
    }
    let ghost head = r.deep_view();
    let mut k: usize = 0;
    while k < old.len()
        invariant
            k <= old.len(),
            ov == stamps_view(old@),
            nv == stamps_view(new@),
            head == changed_in_new(ov, nv, nv.len() as int),
            r.deep_view() == head + removed_from_old(ov, nv, k as int),
        decreases old.len() - k,
    {
        assert(ov[k as int] == (old@[k as int].0@, old@[k as int].1));
        if find_stamp(new, old[k].0.as_str()).is_none() {
            let ghost before = r.deep_view();
            r.push(copy_string(&old[k].0));
            assert(r.deep_view() =~= before.push(ov[k as int].0));
        }
        k += 1;
    }
    r
}

/// No two entries of a scan name the same path.
pub open spec fn distinct_paths(v: Seq<(Seq<char>, FileStamp)>) -> bool {
    forall|i: int, j: int| 0 <= i < j < v.len() ==> (#[trigger] v[i]).0 != (#[trigger] v[j]).0
}

proof fn lemma_stamp_of_entry(v: Seq<(Seq<char>, FileStamp)>, i: int)
    requires
        distinct_paths(v),
        0 <= i < v.len(),
    ensures
        stamp_of(v, v[i].0) == Some(v[i].1),
{
    crate::shelf::json::lemma_key_index(v, v[i].0);
    if let Some(j) = key_index(v, v[i].0) {
        if j < i {
            assert(v[j].0 != v[i].0);
        } else if j > i {
        }
    }
}

/// A scan compared with itself shows no change: every path keeps its
/// stamp and none is removed.
pub proof fn lemma_unchanged_scan_has_no_changes(v: Seq<(Seq<char>, FileStamp)>)
    requires
        distinct_paths(v),
    ensures
        changed_paths_of(v, v).len() == 0,
{
    assert forall|n: int| 0 <= n <= v.len() implies #[trigger] changed_in_new(v, v, n).len() == 0 by {
        lemma_no_change_prefix(v, n);
    }
    assert forall|n: int| 0 <= n <= v.len() implies #[trigger] removed_from_old(v, v, n).len() == 0 by {
        lemma_no_removal_prefix(v, n);
    }
    assert(changed_in_new(v, v, v.len() as int).len() == 0);
    assert(removed_from_old(v, v, v.len() as int).len() == 0);
}

proof fn lemma_no_change_prefix(v: Seq<(Seq<char>, FileStamp)>, n: int)
    requires
        distinct_paths(v),
        0 <= n <= v.len(),
    ensures
        changed_in_new(v, v, n).len() == 0,
    decreases n,
{
    if n > 0 {
        lemma_no_change_prefix(v, n - 1);
        lemma_stamp_of_entry(v, n - 1);
    }
}

proof fn lemma_no_removal_prefix(v: Seq<(Seq<char>, FileStamp)>, n: int)
    requires
        distinct_paths(v),
        0 <= n <= v.len(),
    ensures
        removed_from_old(v, v, n).len() == 0,
    decreases n,
{
    if n > 0 {
        lemma_no_removal_prefix(v, n - 1);
        lemma_stamp_of_entry(v, n - 1);
    }
}

} // verus!
