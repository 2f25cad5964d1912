//! Assembly of a scan: the files found under each source root become the
//! entries of an upload session, each tied to the local file it came from.
use vstd::prelude::*;
use vstd::string::*;
use crate::paths::{base_name, join_path, remote_key, same_text, spec_base_name, spec_join, spec_remote_key};
use crate::progress::{EntryView, FileEntry, SyncError};

verus! {

/// A regular file found while walking a root: its path relative to the root,
/// with `/` between components, and its size in bytes.
pub struct ScannedFile {
    pub relative: String,
    pub size: u64,
}

/// A source root and the regular files found under it, in walk order.
pub struct ScannedRoot {
    pub path: String,
    pub files: Vec<ScannedFile>,
}

/// The entries of an upload session and, at the same index, the local path
/// that each was found at.
pub struct ScanResult {
    pub entries: Vec<FileEntry>,
    pub sources: Vec<String>,
}

pub open spec fn file_entry_of(root: Seq<char>, f: ScannedFile) -> EntryView {
    EntryView { path: spec_remote_key(spec_base_name(root), f.relative@), size: f.size, is_dir: false }
}

pub open spec fn source_of(root: Seq<char>, f: ScannedFile) -> Seq<char> {
    spec_join(root, f.relative@)
}

/// Entries for the files of one root, in walk order.
pub open spec fn root_entries(r: ScannedRoot) -> Seq<EntryView> {
    r.files@.map_values(|f: ScannedFile| file_entry_of(r.path@, f))
}

/// Local paths for the files of one root, in walk order.
pub open spec fn root_sources(r: ScannedRoot) -> Seq<Seq<char>> {
    r.files@.map_values(|f: ScannedFile| source_of(r.path@, f))
}

/// Entries of a whole scan: those of each root, roots in the order given.
pub open spec fn scan_entries(roots: Seq<ScannedRoot>) -> Seq<EntryView>
    decreases roots.len(),
{
    if roots.len() == 0 {
        Seq::empty()
    } else {
        scan_entries(roots.drop_last()) + root_entries(roots.last())
    }
}

/// Local paths of a whole scan, at the same positions as `scan_entries`.
pub open spec fn scan_sources(roots: Seq<ScannedRoot>) -> Seq<Seq<char>>
    decreases roots.len(),
{
    if roots.len() == 0 {
        Seq::empty()
    } else {
        scan_sources(roots.drop_last()) + root_sources(roots.last())
    }
}

pub open spec fn entry_views(v: Seq<FileEntry>) -> Seq<EntryView> {
    v.map_values(|e: FileEntry| e@)
}

pub open spec fn string_views(v: Seq<String>) -> Seq<Seq<char>> {
    v.map_values(|s: String| s@)
}

impl ScanResult {
    pub open spec fn entries_view(&self) -> Seq<EntryView> {
        entry_views(self.entries@)
    }

    pub open spec fn sources_view(&self) -> Seq<Seq<char>> {
        string_views(self.sources@)
    }
}

/// The entries of a scan, in root order and walk order within each root,
/// each with the local path of its file.
pub fn build_scan(roots: &Vec<ScannedRoot>) -> (r: ScanResult)
    ensures
        r.entries_view() == scan_entries(roots@),
        r.sources_view() == scan_sources(roots@),
        r.entries@.len() == r.sources@.len(),
{
    let mut entries: Vec<FileEntry> = Vec::new();
    let mut sources: Vec<String> = Vec::new();
    let mut i: usize = 0;
    proof {
        assert(roots@.take(0) =~= Seq::<ScannedRoot>::empty());
        assert(entry_views(entries@) =~= Seq::<EntryView>::empty());
        assert(string_views(sources@) =~= Seq::<Seq<char>>::empty());
    }
    while i < roots.len()
        invariant
            i <= roots@.len(),
            entry_views(entries@) == scan_entries(roots@.take(i as int)),
            string_views(sources@) == scan_sources(roots@.take(i as int)),
            entries@.len() == sources@.len(),
        decreases roots@.len() - i,
    {
        let root = &roots[i];
        let base = base_name(root.path.as_str());
        let ghost before_e = entry_views(entries@);
        let ghost before_s = string_views(sources@);
        let mut j: usize = 0;
        proof {
            assert(root_entries(*root).take(0) =~= Seq::<EntryView>::empty());
            assert(root_sources(*root).take(0) =~= Seq::<Seq<char>>::empty());
            assert(before_e + root_entries(*root).take(0) =~= before_e);
            assert(before_s + root_sources(*root).take(0) =~= before_s);
        }
        while j < root.files.len()
            invariant
                i < roots@.len(),
                *root == roots@[i as int],
                base@ == spec_base_name(root.path@),
                j <= root.files@.len(),
                entry_views(entries@) == before_e + root_entries(*root).take(j as int),
                string_views(sources@) == before_s + root_sources(*root).take(j as int),
                entries@.len() == sources@.len(),
            decreases root.files@.len() - j,
        {
            let f = &root.files[j];
            let key = remote_key(base.as_str(), f.relative.as_str());
            let src = join_path(root.path.as_str(), f.relative.as_str());
            let ghost old_entries = entries@;
            let ghost old_sources = sources@;
            entries.push(FileEntry { path: key, size: f.size, is_dir: false });
            sources.push(src);
            proof {
                assert(root_entries(*root).take(j + 1) =~= root_entries(*root).take(j as int).push(
                    file_entry_of(root.path@, *f),
                ));
                assert(root_sources(*root).take(j + 1) =~= root_sources(*root).take(j as int).push(
                    source_of(root.path@, *f),
                ));
                assert(entry_views(entries@) =~= entry_views(old_entries).push(
                    file_entry_of(root.path@, *f),
                ));
                assert(string_views(sources@) =~= string_views(old_sources).push(
                    source_of(root.path@, *f),
                ));
            }
            j = j + 1;
        }
        proof {
            assert(root_entries(*root).take(j as int) =~= root_entries(*root));
            assert(root_sources(*root).take(j as int) =~= root_sources(*root));
            assert(roots@.take(i + 1).drop_last() =~= roots@.take(i as int));
            assert(roots@.take(i + 1).last() == roots@[i as int]);
        }
        i = i + 1;
    }
    proof {
        assert(roots@.take(i as int) =~= roots@);
    }
    ScanResult { entries, sources }
}

impl ScanResult {
    /// Local path of the first entry whose remote key is `key`.
    ///
    /// The association is the one recorded by the scan: a key resolves to
    /// the file it was made from, except where two roots with the same base
    /// name hold the same relative path; that key then resolves to the file
    /// of the earlier root. The index of an entry (`sources`) tells such
    /// files apart.
    pub fn find_source(&self, key: &str) -> (r: Result<String, SyncError>)
        requires
            self.entries@.len() == self.sources@.len(),
        ensures
            match r {
                Ok(p) => exists|i: int|
                    0 <= i < self.entries@.len() && self.entries@[i].path@ == key@
                        && p@ == self.sources@[i]@ && forall|k: int|
                        0 <= k < i ==> self.entries@[k].path@ != key@,
                Err(e) => e is SourceNotFound && e->SourceNotFound_0@ == key@ && forall|k: int|
                    0 <= k < self.entries@.len() ==> self.entries@[k].path@ != key@,
            },
    {
        let mut i: usize = 0;
        while i < self.entries.len()
            invariant
                i <= self.entries@.len(),
                self.entries@.len() == self.sources@.len(),
                forall|k: int| 0 <= k < i ==> self.entries@[k].path@ != key@,
            decreases self.entries@.len() - i,
        {
            if same_text(self.entries[i].path.as_str(), key) {
                return Ok(self.sources[i].clone());
            }
            i = i + 1;
        }
        Err(SyncError::SourceNotFound(String::from_str(key)))
    }
}

} // verus!
