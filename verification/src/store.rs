//! The object store: path-addressed storage of file bytes and their metadata
//! sidecar, with tree enumeration and entry-type discrimination.
//!
//! The store's durable tree is carried as an explicit [`FsState`] value: a
//! flat map from relative paths to file bytes (with the classifier's MIME
//! answer for each), plus the decoded sidecar for each sidecar path and the
//! decoded grouping entries. Callers that keep the tree on disk materialize
//! an `FsState` from it and write the store's decisions back; every storage
//! rule — classification, occupancy, creation order, deletion — is verified
//! here against that state.

use vstd::prelude::*;
use vstd::utf8::{encode_utf8, valid_utf8};
use crate::error::VaultError;
use crate::hash::{compute_hash, digest_of};
use crate::strutil::{
    concat2, concat3, ends_with, starts_with, str_ends_with, str_starts_with,
};
use crate::types::{
    clone_meta, clone_opt_string, is_empty_meta, kind_of_mime, meta_eq, source_eq,
    File, FileInfo, FileKind, FileMeta,
};

verus! {

/// One file reference inside a gallery, with its per-item weight carrier.
#[derive(Clone, Debug)]
pub struct GalleryItem {
    pub path: String,
    pub _hash: Option<String>,
}

/// A named, ordered grouping of file references, stored under a
/// `.gallery.yaml` path.
#[derive(Clone, Debug)]
pub struct Gallery {
    pub path: String,
    pub title: String,
    pub description: Option<String>,
    pub items: GalleryItem,
}

/// An opaque transform script, stored under an `.importer.js` path.
#[derive(Clone, Debug)]
pub struct Importer {
    pub path: String,
    pub content: String,
}

/// A tree entry, classified by its path suffix.
#[derive(Debug)]
pub enum StorageItem {
    File(File),
    Gallery(Gallery),
    Importer(Importer),
}

/// One plain file of the tree: its relative path, its bytes, and the
/// external classifier's one-line MIME answer for it.
#[derive(Debug)]
pub struct FileEntry {
    pub path: String,
    pub content: Vec<u8>,
    pub mime: Option<String>,
}

/// One decoded sidecar, keyed by the sidecar's own path.
#[derive(Debug)]
pub struct MetaEntry {
    pub path: String,
    pub meta: FileMeta,
}

/// One decoded gallery, keyed by its path.
#[derive(Debug)]
pub struct GalleryEntry {
    pub path: String,
    pub gallery: Gallery,
}

/// The sidecar path of a content path.
pub open spec fn sidecar_of(p: Seq<char>) -> Seq<char> {
    p + ".meta.yaml"@
}

/// The filesystem truth the store works on: every plain file, every decoded
/// sidecar, and every decoded gallery, each keyed by a unique relative path.
#[derive(Debug)]
pub struct FsState {
    pub files: Vec<FileEntry>,
    pub metas: Vec<MetaEntry>,
    pub galleries: Vec<GalleryEntry>,
}

impl FsState {
    /// Paths are unique within each table, sidecar paths carry the sidecar
    /// suffix, plain files carry neither the sidecar nor the gallery suffix,
    /// and every file fits the index's signed size column.
    pub open spec fn wf(self) -> bool {
        &&& forall|i: int, j: int|
            0 <= i < j < self.files@.len() ==> self.files@[i].path@ != self.files@[j].path@
        &&& forall|i: int, j: int|
            0 <= i < j < self.metas@.len() ==> self.metas@[i].path@ != self.metas@[j].path@
        &&& forall|i: int, j: int|
            0 <= i < j < self.galleries@.len()
                ==> self.galleries@[i].path@ != self.galleries@[j].path@
        &&& forall|i: int|
            0 <= i < self.metas@.len() ==> ends_with(#[trigger] self.metas@[i].path@, ".meta.yaml"@)
        &&& forall|i: int|
            0 <= i < self.files@.len() ==> !ends_with(#[trigger] self.files@[i].path@, ".meta.yaml"@)
        &&& forall|i: int|
            0 <= i < self.files@.len()
                ==> !ends_with(#[trigger] self.files@[i].path@, ".gallery.yaml"@)
        &&& forall|i: int|
            0 <= i < self.galleries@.len()
                ==> ends_with(#[trigger] self.galleries@[i].path@, ".gallery.yaml"@)
        &&& forall|i: int|
            0 <= i < self.files@.len() ==> (#[trigger] self.files@[i].content@).len() <= i64::MAX
    }

    /// A plain file lives at `p`.
    pub open spec fn has_file(self, p: Seq<char>) -> bool {
        exists|i: int| 0 <= i < self.files@.len() && (#[trigger] self.files@[i].path@) == p
    }

    /// The index of the plain file at `p`.
    pub open spec fn file_idx(self, p: Seq<char>) -> int {
        choose|i: int| 0 <= i < self.files@.len() && (#[trigger] self.files@[i].path@) == p
    }

    /// The plain file at `p`.
    pub open spec fn file_entry(self, p: Seq<char>) -> FileEntry {
        self.files@[self.file_idx(p)]
    }

    /// A decoded sidecar lives at `p`.
    pub open spec fn has_meta(self, p: Seq<char>) -> bool {
        exists|i: int| 0 <= i < self.metas@.len() && (#[trigger] self.metas@[i].path@) == p
    }

    /// The index of the sidecar at `p`.
    pub open spec fn meta_idx(self, p: Seq<char>) -> int {
        choose|i: int| 0 <= i < self.metas@.len() && (#[trigger] self.metas@[i].path@) == p
    }

    /// The sidecar at `p`.
    pub open spec fn meta_entry(self, p: Seq<char>) -> MetaEntry {
        self.metas@[self.meta_idx(p)]
    }

    /// A decoded gallery lives at `p`.
    pub open spec fn has_gallery(self, p: Seq<char>) -> bool {
        exists|i: int| 0 <= i < self.galleries@.len() && (#[trigger] self.galleries@[i].path@) == p
    }

    /// The index of the gallery at `p`.
    pub open spec fn gallery_idx(self, p: Seq<char>) -> int {
        choose|i: int|
            0 <= i < self.galleries@.len() && (#[trigger] self.galleries@[i].path@) == p
    }

    /// The gallery at `p`.
    pub open spec fn gallery_entry(self, p: Seq<char>) -> Gallery {
        self.galleries@[self.gallery_idx(p)].gallery
    }

    /// Some entry — file, sidecar or gallery — occupies `p`.
    pub open spec fn occupied(self, p: Seq<char>) -> bool {
        self.has_file(p) || self.has_meta(p) || self.has_gallery(p)
    }

    /// In a well-formed state the file at a path is the entry at any index
    /// that carries that path.
    pub proof fn lemma_file_at(self, p: Seq<char>, i: int)
        requires
            self.wf(),
            0 <= i < self.files@.len(),
            self.files@[i].path@ == p,
        ensures
            self.has_file(p),
            self.file_idx(p) == i,
            self.file_entry(p) == self.files@[i],
    {
        assert(self.has_file(p));
        let j = self.file_idx(p);
        if i != j {
            if i < j {
                assert(self.files@[i].path@ != self.files@[j].path@);
            } else {
                assert(self.files@[j].path@ != self.files@[i].path@);
            }
        }
    }

    /// In a well-formed state the sidecar at a path is the entry at any
    /// index that carries that path.
    pub proof fn lemma_meta_at(self, p: Seq<char>, i: int)
        requires
            self.wf(),
            0 <= i < self.metas@.len(),
            self.metas@[i].path@ == p,
        ensures
            self.has_meta(p),
            self.meta_idx(p) == i,
            self.meta_entry(p) == self.metas@[i],
    {
        assert(self.has_meta(p));
        let j = self.meta_idx(p);
        if i != j {
            if i < j {
                assert(self.metas@[i].path@ != self.metas@[j].path@);
            } else {
                assert(self.metas@[j].path@ != self.metas@[i].path@);
            }
        }
    }

    /// An empty tree: no files, no sidecars, no galleries.
    pub fn new() -> (r: FsState)
        ensures
            r.wf(),
            r.files@.len() == 0,
            r.metas@.len() == 0,
            r.galleries@.len() == 0,
    {
        FsState { files: Vec::new(), metas: Vec::new(), galleries: Vec::new() }
    }

    /// Decides well-formedness, so that a caller that built a state by
    /// hand — say, from a directory walk — can test it before relying on
    /// operations that require it.
    #[verifier::loop_isolation(false)]
    pub fn check_wf(&self) -> (r: bool)
        ensures
            r == self.wf(),
    {
        let nf = self.files.len();
        let mut i: usize = 0;
        while i < nf
            invariant
                forall|a: int|
                    0 <= a < i ==> !ends_with((#[trigger] self.files@[a]).path@, ".meta.yaml"@)
                        && !ends_with(self.files@[a].path@, ".gallery.yaml"@)
                        && self.files@[a].content@.len() <= i64::MAX,
            decreases nf - i,
        {
            let e = &self.files[i];
            if str_ends_with(e.path.as_str(), ".meta.yaml") {
                return false;
            }
            if str_ends_with(e.path.as_str(), ".gallery.yaml") {
                return false;
            }
            if (e.content.len() as u64) > (i64::MAX as u64) {
                return false;
            }
            i += 1;
        }
        let mut i: usize = 0;
        while i < nf
            invariant
                forall|a: int, b: int|
                    0 <= a < b < nf && a < i ==> self.files@[a].path@ != self.files@[b].path@,
            decreases nf - i,
        {
            let mut j: usize = i + 1;
            while j < nf
                invariant
                    i < nf,
                    i + 1 <= j,
                    forall|b: int|
                        i < b < j ==> self.files@[i as int].path@ != (#[trigger] self.files@[b]).path@,
                decreases nf - j,
            {
                if crate::strutil::str_eq(self.files[i].path.as_str(), self.files[j].path.as_str()) {
                    return false;
                }
                j += 1;
            }
            i += 1;
        }
        let nm = self.metas.len();
        let mut i: usize = 0;
        while i < nm
            invariant
                forall|a: int|
                    0 <= a < i ==> ends_with((#[trigger] self.metas@[a]).path@, ".meta.yaml"@),
            decreases nm - i,
        {
            if !str_ends_with(self.metas[i].path.as_str(), ".meta.yaml") {
                return false;
            }
            i += 1;
        }
        let mut i: usize = 0;
        while i < nm
            invariant
                forall|a: int, b: int|
                    0 <= a < b < nm && a < i ==> self.metas@[a].path@ != self.metas@[b].path@,
            decreases nm - i,
        {
            let mut j: usize = i + 1;
            while j < nm
                invariant
                    i < nm,
                    i + 1 <= j,
                    forall|b: int|
                        i < b < j ==> self.metas@[i as int].path@ != (#[trigger] self.metas@[b]).path@,
                decreases nm - j,
            {
                if crate::strutil::str_eq(self.metas[i].path.as_str(), self.metas[j].path.as_str()) {
                    return false;
                }
                j += 1;
            }
            i += 1;
        }
        let ng = self.galleries.len();
        let mut i: usize = 0;
        while i < ng
            invariant
                forall|a: int|
                    0 <= a < i ==> ends_with(
                        (#[trigger] self.galleries@[a]).path@,
                        ".gallery.yaml"@,
                    ),
            decreases ng - i,
        {
            if !str_ends_with(self.galleries[i].path.as_str(), ".gallery.yaml") {
                return false;
            }
            i += 1;
        }
        let mut i: usize = 0;
        while i < ng
            invariant
                forall|a: int, b: int|
                    0 <= a < b < ng && a < i ==> self.galleries@[a].path@ != self.galleries@[b].path@,
            decreases ng - i,
        {
            let mut j: usize = i + 1;
            while j < ng
                invariant
                    i < ng,
                    i + 1 <= j,
                    forall|b: int|
                        i < b < j ==> self.galleries@[i as int].path@
                            != (#[trigger] self.galleries@[b]).path@,
                decreases ng - j,
            {
                if crate::strutil::str_eq(
                    self.galleries[i].path.as_str(),
                    self.galleries[j].path.as_str(),
                ) {
                    return false;
                }
                j += 1;
            }
            i += 1;
        }
        true
    }

    /// Finds the position of the plain file at `path`, if one lives there.
    fn find_file(&self, path: &str) -> (r: Option<usize>)
        ensures
            match r {
                Some(i) => {
                    &&& i < self.files@.len()
                    &&& self.files@[i as int].path@ == path@
                    &&& self.has_file(path@)
                },
                None => !self.has_file(path@),
            },
    {
        let mut i: usize = 0;
        while i < self.files.len()
            invariant
                i <= self.files@.len(),
                forall|j: int| 0 <= j < i ==> (#[trigger] self.files@[j].path@) != path@,
            decreases self.files@.len() - i,
        {
            if crate::strutil::str_eq(self.files[i].path.as_str(), path) {
                return Some(i);
            }
            i += 1;
        }
        None
    }

    /// Finds the position of the sidecar at `path`, if one lives there.
    fn find_meta(&self, path: &str) -> (r: Option<usize>)
        ensures
            match r {
                Some(i) => {
                    &&& i < self.metas@.len()
                    &&& self.metas@[i as int].path@ == path@
                    &&& self.has_meta(path@)
                },
                None => !self.has_meta(path@),
            },
    {
        let mut i: usize = 0;
        while i < self.metas.len()
            invariant
                i <= self.metas@.len(),
                forall|j: int| 0 <= j < i ==> (#[trigger] self.metas@[j].path@) != path@,
            decreases self.metas@.len() - i,
        {
            if crate::strutil::str_eq(self.metas[i].path.as_str(), path) {
                return Some(i);
            }
            i += 1;
        }
        None
    }

    /// Finds the position of the gallery at `path`, if one lives there.
    fn find_gallery(&self, path: &str) -> (r: Option<usize>)
        ensures
            match r {
                Some(i) => {
                    &&& i < self.galleries@.len()
                    &&& self.galleries@[i as int].path@ == path@
                    &&& self.has_gallery(path@)
                },
                None => !self.has_gallery(path@),
            },
    {
        let mut i: usize = 0;
        while i < self.galleries.len()
            invariant
                i <= self.galleries@.len(),
                forall|j: int| 0 <= j < i ==> (#[trigger] self.galleries@[j].path@) != path@,
            decreases self.galleries@.len() - i,
        {
            if crate::strutil::str_eq(self.galleries[i].path.as_str(), path) {
                return Some(i);
            }
            i += 1;
        }
        None
    }
}

/// A parent-directory segment (`..`) stands at position `i` of the path.
pub open spec fn dotdot_segment_at(p: Seq<char>, i: int) -> bool {
    &&& 0 <= i
    &&& i + 2 <= p.len()
    &&& p[i] == '.'
    &&& p[i + 1] == '.'
    &&& (i == 0 || p[i - 1] == '/')
    &&& (i + 2 == p.len() || p[i + 2] == '/')
}

/// A relative path is safe when it is non-empty, does not start at the
/// filesystem root, and holds no parent-directory segment that could escape
/// the store's root once joined.
pub open spec fn is_safe_path(p: Seq<char>) -> bool {
    &&& p.len() > 0
    &&& p[0] != '/'
    &&& !(exists|i: int| dotdot_segment_at(p, i))
}

/// Decides whether a relative path is safe to join against the store root.
pub fn check_safe_path(path: &str) -> (r: bool)
    ensures
        r == is_safe_path(path@),
{
    let n: usize = path.unicode_len();
    if n == 0 {
        return false;
    }
    if path.get_char(0) == '/' {
        return false;
    }
    let mut i: usize = 0;
    while i < n - 1
        invariant
            n == path@.len(),
            0 < n,
            path@[0] != '/',
            i <= n,
            forall|j: int| 0 <= j < i ==> !dotdot_segment_at(path@, j),
        decreases n - i,
    {
        if path.get_char(i) == '.' && path.get_char(i + 1) == '.'
            && (i == 0 || path.get_char(i - 1) == '/')
            && (i + 2 == n || path.get_char(i + 2) == '/') {
            proof {
                assert(dotdot_segment_at(path@, i as int));
            }
            return false;
        }
        i += 1;
    }
    proof {
        assert forall|j: int| !dotdot_segment_at(path@, j) by {
            if dotdot_segment_at(path@, j) {
                assert(0 <= j && j + 2 <= n);
            }
        }
    }
    true
}

/// The kind the classifier's optional MIME answer maps to.
pub open spec fn kind_of_mime_opt(m: Option<String>) -> FileKind {
    match m {
        Some(s) => kind_of_mime(s@),
        None => FileKind::Other,
    }
}

/// The derived info a read of `e` must report: the digest of the entry's
/// bytes, its byte size, the classifier's MIME answer and the kind that
/// answer maps to; no structured media info and no store-side timestamps.
pub open spec fn info_matches(info: FileInfo, e: FileEntry) -> bool {
    &&& info.hash@ == digest_of(e.content@)
    &&& info.size == e.content@.len()
    &&& info.mime == e.mime
    &&& info.kind == kind_of_mime_opt(e.mime)
    &&& info.media is None
    &&& info.created_at is None
    &&& info.updated_at is None
}

/// The fully loaded file a read of path `p` must report: derived info for
/// the entry at `p`, and the sidecar's metadata, or the zero value where no
/// sidecar exists.
pub open spec fn file_matches(fs: FsState, p: Seq<char>, f: File) -> bool {
    &&& f.path@ == p
    &&& info_matches(f.info, fs.file_entry(p))
    &&& if fs.has_meta(sidecar_of(p)) {
        meta_eq(f.meta, fs.meta_entry(sidecar_of(p)).meta)
    } else {
        is_empty_meta(f.meta)
    }
}

/// The object store: joins relative paths against a fixed root and owns
/// every read and write of file bytes and sidecars.
#[derive(Clone, Debug)]
pub struct Storage {
    pub root: String,
}

impl Storage {
    /// A store rooted at the given directory.
    pub fn new(root: &str) -> (r: Self)
        ensures
            r.root@ == root@,
    {
        Storage { root: root.to_owned() }
    }

    /// The absolute path of a relative content path.
    pub fn file_path(&self, path: &str) -> (r: String)
        ensures
            r@ == self.root@ + "/"@ + path@,
    {
        concat3(self.root.as_str(), "/", path)
    }

    /// The absolute path of a relative path's sidecar.
    pub fn meta_path(&self, path: &str) -> (r: String)
        ensures
            r@ == sidecar_of(self.root@ + "/"@ + path@),
    {
        let mut r = concat3(self.root.as_str(), "/", path);
        r.append(".meta.yaml");
        proof {
            assert(r@ =~= sidecar_of(self.root@ + "/"@ + path@));
        }
        r
    }

    /// The relative sidecar path of a relative content path.
    pub fn sidecar_path(path: &str) -> (r: String)
        ensures
            r@ == sidecar_of(path@),
    {
        concat2(path, ".meta.yaml")
    }

    /// Reads the sidecar metadata of `path`. An absent sidecar is not an
    /// error: it stands for the zero-value metadata. (An undecodable sidecar
    /// never reaches this point: decoding it into the tree state fails
    /// first, as a hard error.)
    pub fn file_meta(&self, fs: &FsState, path: &str) -> (r: Result<FileMeta, VaultError>)
        requires
            fs.wf(),
        ensures
            meta_reported(*fs, path@, r),
    {
        let sp = Self::sidecar_path(path);
        match fs.find_meta(sp.as_str()) {
            Some(i) => {
                proof {
                    fs.lemma_meta_at(sidecar_of(path@), i as int);
                }
                Ok(clone_meta(&fs.metas[i].meta))
            },
            None => Ok(FileMeta::empty()),
        }
    }

    /// Derives the info of the file at `path`: size from the entry, hash
    /// streamed over the full content, kind from the classifier's MIME
    /// answer. Costs a full digest per call; there is no cache here.
    pub fn file_info(&self, fs: &FsState, path: &str) -> (r: Result<FileInfo, VaultError>)
        requires
            fs.wf(),
        ensures
            info_reported(*fs, path@, r),
    {
        match fs.find_file(path) {
            None => Err(VaultError::NotFound),
            Some(i) => {
                proof {
                    fs.lemma_file_at(path@, i as int);
                    assert(fs.files@[i as int].content@.len() <= i64::MAX);
                }
                let entry = &fs.files[i];
                let hash = compute_hash(&entry.content);
                let size = entry.content.len() as i64;
                let mime = clone_opt_string(&entry.mime);
                let kind = match &mime {
                    Some(m) => FileKind::from_mime(m.as_str()),
                    None => FileKind::Other,
                };
                Ok(FileInfo {
                    hash,
                    size,
                    mime,
                    kind,
                    media: None,
                    created_at: None,
                    updated_at: None,
                })
            },
        }
    }

    /// Loads the file at `path` in full: derived info plus sidecar
    /// metadata. Paths carrying a gallery or importer suffix are
    /// misclassified requests, not files.
    pub fn file(&self, fs: &FsState, path: &str) -> (r: Result<File, VaultError>)
        requires
            fs.wf(),
        ensures
            ends_with(path@, ".gallery.yaml"@) ==> (r matches Err(e) && e is InvalidArgument),
            !ends_with(path@, ".gallery.yaml"@) && ends_with(path@, ".importer.js"@)
                ==> (r matches Err(e) && e is InvalidArgument),
            !ends_with(path@, ".gallery.yaml"@) && !ends_with(path@, ".importer.js"@)
                && !fs.has_file(path@) ==> (r matches Err(e) && e is NotFound),
            !ends_with(path@, ".gallery.yaml"@) && !ends_with(path@, ".importer.js"@)
                && fs.has_file(path@) ==> r is Ok && file_matches(*fs, path@, r->Ok_0),
    {
        if str_ends_with(path, ".gallery.yaml") {
            return Err(VaultError::InvalidArgument("path is a gallery, not a file".to_owned()));
        }
        if str_ends_with(path, ".importer.js") {
            return Err(VaultError::InvalidArgument("path is an importer, not a file".to_owned()));
        }
        let info = match self.file_info(fs, path) {
            Ok(info) => info,
            Err(e) => {
                return Err(e);
            },
        };
        let meta = match self.file_meta(fs, path) {
            Ok(meta) => meta,
            Err(e) => {
                return Err(e);
            },
        };
        Ok(File { path: path.to_owned(), info, meta })
    }
}

impl FsState {
    /// Inserts or replaces the sidecar at `sp`; every other table and every
    /// other sidecar is untouched. Replacement is removal of the stale
    /// record followed by a fresh insert.
    fn put_meta(&mut self, sp: String, meta: FileMeta)
        requires
            old(self).wf(),
            ends_with(sp@, ".meta.yaml"@),
        ensures
            final(self).wf(),
            final(self).files@ == old(self).files@,
            final(self).galleries@ == old(self).galleries@,
            final(self).has_meta(sp@),
            final(self).meta_entry(sp@).meta == meta,
            forall|q: Seq<char>| q != sp@ ==> final(self).has_meta(q) == old(self).has_meta(q),
            forall|q: Seq<char>|
                q != sp@ && old(self).has_meta(q) ==> final(self).meta_entry(q) == old(
                    self,
                ).meta_entry(q),
    {
        let ghost spv = sp@;
        self.drop_meta(sp.as_str());
        let ghost mid = *self;
        self.metas.push(MetaEntry { path: sp, meta });
        proof {
            let n = mid.metas@.len() as int;
            let m = self.metas@;
            assert forall|j: int| 0 <= j < n implies mid.metas@[j].path@ != spv by {
                assert(!mid.has_meta(spv));
            }
            assert(self.wf());
            self.lemma_meta_at(spv, n);
            assert forall|q: Seq<char>| q != spv implies self.has_meta(q) == mid.has_meta(q) by {
                if mid.has_meta(q) {
                    let j = mid.meta_idx(q);
                    assert(m[j] == mid.metas@[j]);
                }
                if self.has_meta(q) {
                    let k = self.meta_idx(q);
                    assert(k != n);
                    assert(m[k] == mid.metas@[k]);
                }
            }
            assert forall|q: Seq<char>| q != spv && mid.has_meta(q) implies self.meta_entry(q)
                == mid.meta_entry(q) by {
                let j = mid.meta_idx(q);
                mid.lemma_meta_at(q, j);
                assert(m[j] == mid.metas@[j]);
                self.lemma_meta_at(q, j);
            }
        }
    }

    /// Removes the sidecar at `sp` where one exists; absence is not an
    /// error. Every other table and every other sidecar is untouched.
    fn drop_meta(&mut self, sp: &str)
        requires
            old(self).wf(),
        ensures
            final(self).wf(),
            final(self).files@ == old(self).files@,
            final(self).galleries@ == old(self).galleries@,
            !final(self).has_meta(sp@),
            forall|q: Seq<char>| q != sp@ ==> final(self).has_meta(q) == old(self).has_meta(q),
            forall|q: Seq<char>|
                q != sp@ && old(self).has_meta(q) ==> final(self).meta_entry(q) == old(
                    self,
                ).meta_entry(q),
    {
        let ghost pre = *self;
        let ghost spv = sp@;
        let found = self.find_meta(sp);
        match found {
            Some(i) => {
                proof {
                    pre.metas@.remove_ensures(i as int);
                }
                self.metas.remove(i);
                proof {
                    let gi = i as int;
                    let n = pre.metas@.len() as int;
                    let m = self.metas@;
                    assert forall|k: int| 0 <= k < n - 1 implies m[k] == pre.metas@[
                        if k < gi {
                            k
                        } else {
                            k + 1
                        }
                    ] by {}
                    assert forall|j: int| 0 <= j < n && j != gi implies pre.metas@[j].path@
                        != spv by {
                        if pre.metas@[j].path@ == spv {
                            if j < gi {
                                assert(pre.metas@[j].path@ != pre.metas@[gi].path@);
                            } else {
                                assert(pre.metas@[gi].path@ != pre.metas@[j].path@);
                            }
                        }
                    }
                    assert forall|a: int, b: int| 0 <= a < b < n - 1 implies m[a].path@ != m[b].path@ by {
                        let oa = if a < gi {
                            a
                        } else {
                            a + 1
                        };
                        let ob = if b < gi {
                            b
                        } else {
                            b + 1
                        };
                        assert(m[a] == pre.metas@[oa]);
                        assert(m[b] == pre.metas@[ob]);
                        if oa < ob {
                            assert(pre.metas@[oa].path@ != pre.metas@[ob].path@);
                        }
                    }
                    assert forall|k: int| 0 <= k < n - 1 implies ends_with(
                        #[trigger] m[k].path@,
                        ".meta.yaml"@,
                    ) by {
                        let ok = if k < gi {
                            k
                        } else {
                            k + 1
                        };
                        assert(m[k] == pre.metas@[ok]);
                        assert(ends_with(pre.metas@[ok].path@, ".meta.yaml"@));
                    }
                    assert(self.wf());
                    assert forall|k: int| 0 <= k < n - 1 implies m[k].path@ != spv by {
                        let ok = if k < gi {
                            k
                        } else {
                            k + 1
                        };
                        assert(m[k] == pre.metas@[ok]);
                    }
                    assert(!self.has_meta(spv));
                    assert forall|q: Seq<char>| q != spv implies self.has_meta(q)
                        == pre.has_meta(q) by {
                        if pre.has_meta(q) {
                            let j = pre.meta_idx(q);
                            assert(j != gi);
                            let k = if j < gi {
                                j
                            } else {
                                j - 1
                            };
                            assert(m[k] == pre.metas@[j]);
                        }
                        if self.has_meta(q) {
                            let k = self.meta_idx(q);
                            let ok = if k < gi {
                                k
                            } else {
                                k + 1
                            };
                            assert(m[k] == pre.metas@[ok]);
                        }
                    }
                    assert forall|q: Seq<char>| q != spv && pre.has_meta(q) implies
                        self.meta_entry(q) == pre.meta_entry(q) by {
                        let j = pre.meta_idx(q);
                        pre.lemma_meta_at(q, j);
                        assert(j != gi);
                        let k = if j < gi {
                            j
                        } else {
                            j - 1
                        };
                        assert(m[k] == pre.metas@[j]);
                        self.lemma_meta_at(q, k);
                    }
                }
            },
            None => {
                proof {
                    assert(!self.has_meta(spv));
                }
            },
        }
    }

    /// Removes the plain file at `path` where one exists, reporting whether
    /// it did. Every other table and every other file is untouched.
    fn drop_file(&mut self, path: &str) -> (r: bool)
        requires
            old(self).wf(),
        ensures
            final(self).wf(),
            final(self).metas@ == old(self).metas@,
            final(self).galleries@ == old(self).galleries@,
            r == old(self).has_file(path@),
            !old(self).has_file(path@) ==> final(self).files@ == old(self).files@,
            !final(self).has_file(path@),
            forall|q: Seq<char>| q != path@ ==> final(self).has_file(q) == old(self).has_file(q),
            forall|q: Seq<char>|
                q != path@ && old(self).has_file(q) ==> final(self).file_entry(q) == old(
                    self,
                ).file_entry(q),
    {
        let ghost pre = *self;
        let ghost pv = path@;
        let found = self.find_file(path);
        match found {
            Some(i) => {
                proof {
                    pre.files@.remove_ensures(i as int);
                }
                self.files.remove(i);
                proof {
                    let gi = i as int;
                    let n = pre.files@.len() as int;
                    let m = self.files@;
                    assert forall|k: int| 0 <= k < n - 1 implies m[k] == pre.files@[
                        if k < gi {
                            k
                        } else {
                            k + 1
                        }
                    ] by {}
                    assert forall|j: int| 0 <= j < n && j != gi implies pre.files@[j].path@
                        != pv by {
                        if pre.files@[j].path@ == pv {
                            if j < gi {
                                assert(pre.files@[j].path@ != pre.files@[gi].path@);
                            } else {
                                assert(pre.files@[gi].path@ != pre.files@[j].path@);
                            }
                        }
                    }
                    assert forall|a: int, b: int| 0 <= a < b < n - 1 implies m[a].path@ != m[b].path@ by {
                        let oa = if a < gi {
                            a
                        } else {
                            a + 1
                        };
                        let ob = if b < gi {
                            b
                        } else {
                            b + 1
                        };
                        assert(m[a] == pre.files@[oa]);
                        assert(m[b] == pre.files@[ob]);
                        if oa < ob {
                            assert(pre.files@[oa].path@ != pre.files@[ob].path@);
                        }
                    }
                    assert forall|k: int| 0 <= k < n - 1 implies !ends_with(
                        #[trigger] m[k].path@,
                        ".meta.yaml"@,
                    ) && !ends_with(m[k].path@, ".gallery.yaml"@) && m[k].content@.len()
                        <= i64::MAX by {
                        let ok = if k < gi {
                            k
                        } else {
                            k + 1
                        };
                        assert(m[k] == pre.files@[ok]);
                        assert(!ends_with(pre.files@[ok].path@, ".meta.yaml"@));
                        assert(!ends_with(pre.files@[ok].path@, ".gallery.yaml"@));
                        assert(pre.files@[ok].content@.len() <= i64::MAX);
                    }
                    assert(self.wf());
                    assert forall|k: int| 0 <= k < n - 1 implies m[k].path@ != pv by {
                        let ok = if k < gi {
                            k
                        } else {
                            k + 1
                        };
                        assert(m[k] == pre.files@[ok]);
                    }
                    assert(!self.has_file(pv));
                    assert forall|q: Seq<char>| q != pv implies self.has_file(q)
                        == pre.has_file(q) by {
                        if pre.has_file(q) {
                            let j = pre.file_idx(q);
                            assert(j != gi);
                            let k = if j < gi {
                                j
                            } else {
                                j - 1
                            };
                            assert(m[k] == pre.files@[j]);
                        }
                        if self.has_file(q) {
                            let k = self.file_idx(q);
                            let ok = if k < gi {
                                k
                            } else {
                                k + 1
                            };
                            assert(m[k] == pre.files@[ok]);
                        }
                    }
                    assert forall|q: Seq<char>| q != pv && pre.has_file(q) implies
                        self.file_entry(q) == pre.file_entry(q) by {
                        let j = pre.file_idx(q);
                        pre.lemma_file_at(q, j);
                        assert(j != gi);
                        let k = if j < gi {
                            j
                        } else {
                            j - 1
                        };
                        assert(m[k] == pre.files@[j]);
                        self.lemma_file_at(q, k);
                    }
                }
                true
            },
            None => {
                proof {
                    assert(!self.has_file(pv));
                }
                false
            },
        }
    }

    /// Appends a fresh plain file; the path must be unoccupied by a file
    /// and must carry no sidecar or gallery suffix. Everything else is
    /// untouched.
    fn add_file(&mut self, path: String, content: Vec<u8>, mime: Option<String>)
        requires
            old(self).wf(),
            !old(self).has_file(path@),
            !ends_with(path@, ".meta.yaml"@),
            !ends_with(path@, ".gallery.yaml"@),
            content@.len() <= i64::MAX,
        ensures
            final(self).wf(),
            final(self).metas@ == old(self).metas@,
            final(self).galleries@ == old(self).galleries@,
            final(self).has_file(path@),
            final(self).file_entry(path@).path@ == path@,
            final(self).file_entry(path@).content@ == content@,
            final(self).file_entry(path@).mime == mime,
            forall|q: Seq<char>| q != path@ ==> final(self).has_file(q) == old(self).has_file(q),
            forall|q: Seq<char>|
                q != path@ && old(self).has_file(q) ==> final(self).file_entry(q) == old(
                    self,
                ).file_entry(q),
    {
        let ghost pre = *self;
        let ghost pv = path@;
        self.files.push(FileEntry { path, content, mime });
        proof {
            let n = pre.files@.len() as int;
            let m = self.files@;
            assert forall|j: int| 0 <= j < n implies pre.files@[j].path@ != pv by {
                assert(!pre.has_file(pv));
            }
            assert(self.wf());
            self.lemma_file_at(pv, n);
            assert forall|q: Seq<char>| q != pv implies self.has_file(q) == pre.has_file(q) by {
                if pre.has_file(q) {
                    let j = pre.file_idx(q);
                    assert(m[j] == pre.files@[j]);
                }
                if self.has_file(q) {
                    let k = self.file_idx(q);
                    assert(k != n);
                    assert(m[k] == pre.files@[k]);
                }
            }
            assert forall|q: Seq<char>| q != pv && pre.has_file(q) implies self.file_entry(q)
                == pre.file_entry(q) by {
                let j = pre.file_idx(q);
                pre.lemma_file_at(q, j);
                assert(m[j] == pre.files@[j]);
                self.lemma_file_at(q, j);
            }
        }
    }
}

/// What an info read of path `p` from state `fs` reports: derived info for
/// the file living there, or `NotFound` where none does.
pub open spec fn info_reported(fs: FsState, p: Seq<char>, r: Result<FileInfo, VaultError>) -> bool {
    &&& fs.has_file(p) ==> r is Ok && info_matches(r->Ok_0, fs.file_entry(p))
    &&& !fs.has_file(p) ==> (r matches Err(e) && e is NotFound)
}

/// What a sidecar read of path `p` from state `fs` reports: the stored
/// metadata, or the zero value where no sidecar exists; never an error.
pub open spec fn meta_reported(fs: FsState, p: Seq<char>, r: Result<FileMeta, VaultError>) -> bool {
    &&& r is Ok
    &&& fs.has_meta(sidecar_of(p)) ==> meta_eq(r->Ok_0, fs.meta_entry(sidecar_of(p)).meta)
    &&& !fs.has_meta(sidecar_of(p)) ==> is_empty_meta(r->Ok_0)
}

/// A suffix that content paths may not carry: it would make the entry a
/// sidecar, a gallery or a transform script rather than a plain file.
pub open spec fn reserved_suffix(p: Seq<char>) -> bool {
    ||| ends_with(p, ".meta.yaml"@)
    ||| ends_with(p, ".gallery.yaml"@)
    ||| ends_with(p, ".importer.js"@)
}

/// State `b` is state `a` after a successful create of `p` with metadata
/// `m`, content `c` and classifier answer `mi`: the file and its sidecar
/// exist with exactly the written values, and nothing else moved.
pub open spec fn created(
    a: FsState,
    b: FsState,
    p: Seq<char>,
    m: FileMeta,
    c: Seq<u8>,
    mi: Option<String>,
) -> bool {
    &&& b.has_file(p)
    &&& b.file_entry(p).content@ == c
    &&& b.file_entry(p).mime == mi
    &&& forall|q: Seq<char>| q != p ==> b.has_file(q) == a.has_file(q)
    &&& forall|q: Seq<char>| q != p && a.has_file(q) ==> b.file_entry(q) == a.file_entry(q)
    &&& b.has_meta(sidecar_of(p))
    &&& meta_eq(b.meta_entry(sidecar_of(p)).meta, m)
    &&& forall|q: Seq<char>| q != sidecar_of(p) ==> b.has_meta(q) == a.has_meta(q)
    &&& forall|q: Seq<char>|
        q != sidecar_of(p) && a.has_meta(q) ==> b.meta_entry(q) == a.meta_entry(q)
    &&& b.galleries@ == a.galleries@
}

/// State `b` is state `a` after a successful metadata update of `p` with
/// `m`: the sidecar holds exactly `m`, file bytes and everything else are
/// untouched.
pub open spec fn meta_updated(a: FsState, b: FsState, p: Seq<char>, m: FileMeta) -> bool {
    &&& b.files@ == a.files@
    &&& b.galleries@ == a.galleries@
    &&& b.has_meta(sidecar_of(p))
    &&& meta_eq(b.meta_entry(sidecar_of(p)).meta, m)
    &&& forall|q: Seq<char>| q != sidecar_of(p) ==> b.has_meta(q) == a.has_meta(q)
    &&& forall|q: Seq<char>|
        q != sidecar_of(p) && a.has_meta(q) ==> b.meta_entry(q) == a.meta_entry(q)
}

/// State `b` is state `a` after a successful delete of `p`: neither the
/// file nor its sidecar remains, and nothing else moved.
pub open spec fn deleted(a: FsState, b: FsState, p: Seq<char>) -> bool {
    &&& !b.has_file(p)
    &&& !b.has_meta(sidecar_of(p))
    &&& forall|q: Seq<char>| q != p ==> b.has_file(q) == a.has_file(q)
    &&& forall|q: Seq<char>| q != p && a.has_file(q) ==> b.file_entry(q) == a.file_entry(q)
    &&& forall|q: Seq<char>| q != sidecar_of(p) ==> b.has_meta(q) == a.has_meta(q)
    &&& forall|q: Seq<char>|
        q != sidecar_of(p) && a.has_meta(q) ==> b.meta_entry(q) == a.meta_entry(q)
    &&& b.galleries@ == a.galleries@
}

/// A sequence always ends with its own appended suffix.
pub proof fn lemma_ends_with_concat(a: Seq<char>, b: Seq<char>)
    ensures
        ends_with(a + b, b),
{
    let s = a + b;
    assert forall|i: int| 0 <= i < b.len() implies s[s.len() - b.len() + i] == b[i] by {
        assert(s[a.len() + i] == b[i]);
    }
}

/// Deep metadata equality is transitive.
pub proof fn lemma_meta_eq_trans(a: FileMeta, b: FileMeta, c: FileMeta)
    requires
        meta_eq(a, b),
        meta_eq(b, c),
    ensures
        meta_eq(a, c),
{
    assert forall|i: int| 0 <= i < a.sources@.len() implies source_eq(
        a.sources@[i],
        c.sources@[i],
    ) by {
        assert(source_eq(a.sources@[i], b.sources@[i]));
        assert(source_eq(b.sources@[i], c.sources@[i]));
    }
}

impl Storage {
    /// Creates the file at `path`: rejects unsafe paths and reserved
    /// suffixes, fails with `AlreadyExists` where any entry occupies the
    /// path — leaving existing content untouched — and otherwise writes the
    /// content, then the sidecar, and reads the fresh file back.
    pub fn file_create(
        &self,
        fs: &mut FsState,
        path: &str,
        meta: FileMeta,
        content: Vec<u8>,
        mime: Option<String>,
    ) -> (r: Result<File, VaultError>)
        requires
            old(fs).wf(),
            content@.len() <= i64::MAX,
        ensures
            final(fs).wf(),
            !is_safe_path(path@) ==> (r matches Err(e) && e is InvalidArgument) && *final(fs)
                == *old(fs),
            is_safe_path(path@) && reserved_suffix(path@) ==> (r matches Err(e)
                && e is InvalidArgument) && *final(fs) == *old(fs),
            is_safe_path(path@) && !reserved_suffix(path@) && old(fs).occupied(path@) ==> (
            r matches Err(e) && e is AlreadyExists) && *final(fs) == *old(fs),
            is_safe_path(path@) && !reserved_suffix(path@) && !old(fs).occupied(path@) ==> r is Ok
                && created(*old(fs), *final(fs), path@, meta, content@, mime) && {
                let f = r->Ok_0;
                &&& f.path@ == path@
                &&& f.info.hash@ == digest_of(content@)
                &&& f.info.size == content@.len()
                &&& f.info.mime == mime
                &&& f.info.kind == kind_of_mime_opt(mime)
                &&& meta_eq(f.meta, meta)
            },
    {
        if !check_safe_path(path) {
            return Err(VaultError::InvalidArgument("path escapes the storage root".to_owned()));
        }
        if str_ends_with(path, ".meta.yaml") || str_ends_with(path, ".gallery.yaml")
            || str_ends_with(path, ".importer.js") {
            return Err(VaultError::InvalidArgument("path carries a reserved suffix".to_owned()));
        }
        let occupied = match fs.find_file(path) {
            Some(_) => true,
            None => match fs.find_meta(path) {
                Some(_) => true,
                None => match fs.find_gallery(path) {
                    Some(_) => true,
                    None => false,
                },
            },
        };
        if occupied {
            return Err(VaultError::AlreadyExists);
        }
        let ghost pre = *fs;
        let ghost cv = content@;
        let stored_meta = clone_meta(&meta);
        fs.add_file(path.to_owned(), content, mime);
        let sp = Self::sidecar_path(path);
        proof {
            lemma_ends_with_concat(path@, ".meta.yaml"@);
        }
        fs.put_meta(sp, stored_meta);
        proof {
            assert(created(pre, *fs, path@, meta, cv, mime));
        }
        let f = match self.file(fs, path) {
            Ok(f) => f,
            Err(e) => {
                return Err(e);
            },
        };
        proof {
            lemma_meta_eq_trans(f.meta, fs.meta_entry(sidecar_of(path@)).meta, meta);
        }
        Ok(f)
    }

    /// Replaces the sidecar of an existing file wholesale with `meta`; the
    /// file must exist, and its bytes are never rewritten. No merge happens
    /// here — merging is the facade's concern.
    pub fn file_meta_update(&self, fs: &mut FsState, path: &str, meta: FileMeta) -> (r: Result<
        File,
        VaultError,
    >)
        requires
            old(fs).wf(),
        ensures
            final(fs).wf(),
            !old(fs).has_file(path@) ==> (r matches Err(e) && e is NotFound) && *final(fs)
                == *old(fs),
            old(fs).has_file(path@) ==> r is Ok && meta_updated(*old(fs), *final(fs), path@, meta)
                && {
                let f = r->Ok_0;
                &&& f.path@ == path@
                &&& info_matches(f.info, old(fs).file_entry(path@))
                &&& f.meta == meta
            },
    {
        let info = match self.file_info(fs, path) {
            Ok(info) => info,
            Err(_) => {
                return Err(VaultError::NotFound);
            },
        };
        let stored_meta = clone_meta(&meta);
        let sp = Self::sidecar_path(path);
        proof {
            lemma_ends_with_concat(path@, ".meta.yaml"@);
        }
        fs.put_meta(sp, stored_meta);
        Ok(File { path: path.to_owned(), info, meta })
    }

    /// Deletes the file at `path`: removes the sidecar where one exists —
    /// its absence is ignored — then removes the content, whose absence is
    /// an error.
    pub fn file_delete(&self, fs: &mut FsState, path: &str) -> (r: Result<(), VaultError>)
        requires
            old(fs).wf(),
        ensures
            final(fs).wf(),
            old(fs).has_file(path@) ==> r is Ok && deleted(*old(fs), *final(fs), path@),
            !old(fs).has_file(path@) ==> (r matches Err(e) && e is NotFound)
                && final(fs).files@ == old(fs).files@
                && final(fs).galleries@ == old(fs).galleries@
                && !final(fs).has_meta(sidecar_of(path@))
                && (forall|q: Seq<char>|
                    q != sidecar_of(path@) ==> final(fs).has_meta(q) == old(fs).has_meta(q))
                && (forall|q: Seq<char>|
                    q != sidecar_of(path@) && old(fs).has_meta(q)
                        ==> final(fs).meta_entry(q) == old(fs).meta_entry(q)),
    {
        let sp = Self::sidecar_path(path);
        fs.drop_meta(sp.as_str());
        if fs.drop_file(path) {
            Ok(())
        } else {
            Err(VaultError::NotFound)
        }
    }
}

/// Creating a file and then reading its info back: the reported hash is
/// exactly the digest of the written bytes, and the reported size their
/// count.
pub proof fn lemma_create_then_info(
    a: FsState,
    b: FsState,
    p: Seq<char>,
    m: FileMeta,
    c: Seq<u8>,
    mi: Option<String>,
    r: Result<FileInfo, VaultError>,
)
    requires
        created(a, b, p, m, c, mi),
        info_reported(b, p, r),
    ensures
        r is Ok,
        r->Ok_0.hash@ == digest_of(c),
        r->Ok_0.size == c.len(),
{
}

/// Writing metadata and then reading the sidecar back yields exactly the
/// written record, independent of the file's derived info.
pub proof fn lemma_update_then_read_meta(
    a: FsState,
    b: FsState,
    p: Seq<char>,
    m: FileMeta,
    r: Result<FileMeta, VaultError>,
)
    requires
        meta_updated(a, b, p, m),
        meta_reported(b, p, r),
    ensures
        r is Ok,
        meta_eq(r->Ok_0, m),
{
    lemma_meta_eq_trans(r->Ok_0, b.meta_entry(sidecar_of(p)).meta, m);
}

/// Deleting a file and then reading it back: the info read fails with
/// `NotFound`, and the sidecar read reports the zero-value metadata, the
/// sidecar itself being gone.
pub proof fn lemma_delete_then_reads(
    a: FsState,
    b: FsState,
    p: Seq<char>,
    ri: Result<FileInfo, VaultError>,
    rm: Result<FileMeta, VaultError>,
)
    requires
        deleted(a, b, p),
        info_reported(b, p, ri),
        meta_reported(b, p, rm),
    ensures
        ri matches Err(e) && e is NotFound,
        rm is Ok,
        is_empty_meta(rm->Ok_0),
{
}

/// Two creates on distinct paths never interfere: after the first create
/// the second path is still unoccupied — so the second create is owed
/// success — and after the second, both files hold their own bytes, so
/// each info read reports its own digest.
pub proof fn lemma_creates_independent(
    fs0: FsState,
    fs1: FsState,
    fs2: FsState,
    p1: Seq<char>,
    m1: FileMeta,
    c1: Seq<u8>,
    mi1: Option<String>,
    p2: Seq<char>,
    m2: FileMeta,
    c2: Seq<u8>,
    mi2: Option<String>,
)
    requires
        p1 != p2,
        p2 != sidecar_of(p1),
        !fs0.occupied(p2),
        created(fs0, fs1, p1, m1, c1, mi1),
        created(fs1, fs2, p2, m2, c2, mi2),
    ensures
        !fs1.occupied(p2),
        fs2.has_file(p1),
        fs2.file_entry(p1).content@ == c1,
        fs2.has_file(p2),
        fs2.file_entry(p2).content@ == c2,
{
    assert(fs1.has_file(p2) == fs0.has_file(p2));
    assert(fs1.has_meta(p2) == fs0.has_meta(p2));
    assert(fs1.galleries@ == fs0.galleries@);
    assert(!fs1.has_gallery(p2)) by {
        if fs1.has_gallery(p2) {
            let i = fs1.gallery_idx(p2);
            assert(fs0.galleries@[i].path@ == p2);
        }
    }
    assert(fs2.has_file(p1) == fs1.has_file(p1));
    assert(fs2.file_entry(p1) == fs1.file_entry(p1));
}

/// Relies on String::from_utf8: it succeeds exactly on valid UTF-8 input
/// and decodes the bytes to the characters that encode them.
#[verifier::external_body]
fn utf8_to_string(v: &Vec<u8>) -> (r: Option<String>)
    ensures
        r is Some <==> valid_utf8(v@),
        r matches Some(s) ==> encode_utf8(s@) == v@,
{
    match String::from_utf8(v.clone()) {
        Ok(s) => Some(s),
        Err(_) => None,
    }
}

/// The gallery a read of path `p` must report: the stored record, with its
/// path field set to the path it was requested under.
pub open spec fn gallery_matches(g: Gallery, stored: Gallery, p: Seq<char>) -> bool {
    &&& g.path@ == p
    &&& g.title == stored.title
    &&& g.description == stored.description
    &&& g.items.path == stored.items.path
    &&& g.items._hash == stored.items._hash
}

/// What an item read of path `p` from state `fs` reports, after classifying
/// the path by its suffix.
pub open spec fn item_reported(fs: FsState, p: Seq<char>, r: Result<StorageItem, VaultError>) -> bool {
    if ends_with(p, ".gallery.yaml"@) {
        match r {
            Ok(StorageItem::Gallery(g)) => fs.has_gallery(p) && gallery_matches(
                g,
                fs.gallery_entry(p),
                p,
            ),
            Err(e) => !fs.has_gallery(p) && e is NotFound,
            _ => false,
        }
    } else if ends_with(p, ".importer.js"@) {
        match r {
            Ok(StorageItem::Importer(imp)) => fs.has_file(p) && imp.path@ == p && valid_utf8(
                fs.file_entry(p).content@,
            ) && encode_utf8(imp.content@) == fs.file_entry(p).content@,
            Err(e) => (!fs.has_file(p) && e is NotFound) || (fs.has_file(p) && !valid_utf8(
                fs.file_entry(p).content@,
            ) && e is MalformedData),
            _ => false,
        }
    } else {
        match r {
            Ok(StorageItem::File(f)) => fs.has_file(p) && file_matches(fs, p, f),
            Err(e) => !fs.has_file(p) && e is NotFound,
            _ => false,
        }
    }
}

/// An enumeration output is justified when it reports some in-scope entry
/// of the tree.
pub open spec fn justified(
    fs: FsState,
    scope: Option<Seq<char>>,
    it: Result<StorageItem, VaultError>,
) -> bool {
    exists|p: Seq<char>|
        in_scope(p, scope) && (fs.has_file(p) || fs.has_gallery(p)) && #[trigger] item_reported(
            fs,
            p,
            it,
        )
}

/// Whether a path falls under the requested subtree: under `None` the whole
/// tree is in scope, otherwise exactly the paths below the subdirectory.
pub open spec fn in_scope(p: Seq<char>, scope: Option<Seq<char>>) -> bool {
    match scope {
        None => true,
        Some(s) => starts_with(p, s + "/"@),
    }
}

/// The subtree a caller's optional argument denotes.
pub open spec fn scope_of(sub: Option<&str>) -> Option<Seq<char>> {
    match sub {
        Some(s) => Some(s@),
        None => None,
    }
}

impl Storage {
    /// Loads the gallery at `path`; the path must carry the gallery suffix
    /// and a decoded gallery must live there.
    pub fn gallery(&self, fs: &FsState, path: &str) -> (r: Result<Gallery, VaultError>)
        requires
            fs.wf(),
        ensures
            !ends_with(path@, ".gallery.yaml"@) ==> (r matches Err(e) && e is InvalidArgument),
            ends_with(path@, ".gallery.yaml"@) && !fs.has_gallery(path@) ==> (r matches Err(e)
                && e is NotFound),
            ends_with(path@, ".gallery.yaml"@) && fs.has_gallery(path@) ==> r is Ok
                && gallery_matches(r->Ok_0, fs.gallery_entry(path@), path@),
    {
        if !str_ends_with(path, ".gallery.yaml") {
            return Err(VaultError::InvalidArgument(
                "gallery path must end with .gallery.yaml".to_owned(),
            ));
        }
        match fs.find_gallery(path) {
            None => Err(VaultError::NotFound),
            Some(i) => {
                proof {
                    let j = fs.gallery_idx(path@);
                    if i as int != j {
                        if (i as int) < j {
                            assert(fs.galleries@[i as int].path@ != fs.galleries@[j].path@);
                        } else {
                            assert(fs.galleries@[j].path@ != fs.galleries@[i as int].path@);
                        }
                    }
                }
                let stored = &fs.galleries[i].gallery;
                Ok(Gallery {
                    path: path.to_owned(),
                    title: stored.title.clone(),
                    description: clone_opt_string(&stored.description),
                    items: GalleryItem {
                        path: stored.items.path.clone(),
                        _hash: clone_opt_string(&stored.items._hash),
                    },
                })
            },
        }
    }

    /// Loads the transform script at `path`; the path must carry the
    /// importer suffix, and the stored bytes must decode as UTF-8 text.
    pub fn importer(&self, fs: &FsState, path: &str) -> (r: Result<Importer, VaultError>)
        requires
            fs.wf(),
        ensures
            !ends_with(path@, ".importer.js"@) ==> (r matches Err(e) && e is InvalidArgument),
            ends_with(path@, ".importer.js"@) && !fs.has_file(path@) ==> (r matches Err(e)
                && e is NotFound),
            ends_with(path@, ".importer.js"@) && fs.has_file(path@) && valid_utf8(
                fs.file_entry(path@).content@,
            ) ==> r is Ok && r->Ok_0.path@ == path@ && encode_utf8(r->Ok_0.content@)
                == fs.file_entry(path@).content@,
            ends_with(path@, ".importer.js"@) && fs.has_file(path@) && !valid_utf8(
                fs.file_entry(path@).content@,
            ) ==> (r matches Err(e) && e is MalformedData),
    {
        if !str_ends_with(path, ".importer.js") {
            return Err(VaultError::InvalidArgument(
                "importer path must end with .importer.js".to_owned(),
            ));
        }
        match fs.find_file(path) {
            None => Err(VaultError::NotFound),
            Some(i) => {
                proof {
                    fs.lemma_file_at(path@, i as int);
                }
                match utf8_to_string(&fs.files[i].content) {
                    Some(content) => Ok(Importer { path: path.to_owned(), content }),
                    None => Err(VaultError::MalformedData("importer script is not UTF-8".to_owned())),
                }
            },
        }
    }

    /// Loads the entry at `path`, classified by suffix: a gallery, a
    /// transform script, or a plain file.
    pub fn item(&self, fs: &FsState, path: &str) -> (r: Result<StorageItem, VaultError>)
        requires
            fs.wf(),
        ensures
            item_reported(*fs, path@, r),
    {
        if str_ends_with(path, ".gallery.yaml") {
            match self.gallery(fs, path) {
                Ok(g) => Ok(StorageItem::Gallery(g)),
                Err(e) => Err(e),
            }
        } else if str_ends_with(path, ".importer.js") {
            match self.importer(fs, path) {
                Ok(imp) => Ok(StorageItem::Importer(imp)),
                Err(e) => Err(e),
            }
        } else {
            match self.file(fs, path) {
                Ok(f) => Ok(StorageItem::File(f)),
                Err(e) => Err(e),
            }
        }
    }

    /// Enumerates the tree below the root, or below the given subdirectory:
    /// every plain file and every gallery in scope, each loaded as `item`
    /// loads it, each entry's failure isolated in its own result. Sidecars
    /// are not listed — they belong to the file they describe.
    pub fn items(&self, fs: &FsState, sub: Option<&str>) -> (r: Vec<Result<StorageItem, VaultError>>)
        requires
            fs.wf(),
        ensures
            r@.len() <= fs.files@.len() + fs.galleries@.len(),
            forall|i: int|
                0 <= i < fs.files@.len() && in_scope(
                    (#[trigger] fs.files@[i]).path@,
                    scope_of(sub),
                ) ==> exists|k: int|
                    0 <= k < r@.len() && item_reported(*fs, fs.files@[i].path@, #[trigger] r@[k]),
            forall|i: int|
                0 <= i < fs.galleries@.len() && in_scope(
                    (#[trigger] fs.galleries@[i]).path@,
                    scope_of(sub),
                ) ==> exists|k: int|
                    0 <= k < r@.len() && item_reported(
                        *fs,
                        fs.galleries@[i].path@,
                        #[trigger] r@[k],
                    ),
            forall|k: int| 0 <= k < r@.len() ==> justified(*fs, scope_of(sub), #[trigger] r@[k]),
    {
        let mut out: Vec<Result<StorageItem, VaultError>> = Vec::new();
        let ghost mut ps: Seq<Seq<char>> = Seq::empty();
        let mut i: usize = 0;
        while i < fs.files.len()
            invariant
                fs.wf(),
                i <= fs.files@.len(),
                out@.len() <= i,
                ps.len() == out@.len(),
                forall|j: int|
                    0 <= j < i && in_scope((#[trigger] fs.files@[j]).path@, scope_of(sub))
                        ==> exists|k: int|
                        0 <= k < out@.len() && item_reported(
                            *fs,
                            fs.files@[j].path@,
                            #[trigger] out@[k],
                        ),
                forall|k: int|
                    0 <= k < out@.len() ==> in_scope(#[trigger] ps[k], scope_of(sub)) && (
                    fs.has_file(ps[k]) || fs.has_gallery(ps[k])) && item_reported(
                        *fs,
                        ps[k],
                        out@[k],
                    ),
                forall|k: int|
                    0 <= k < out@.len() ==> justified(*fs, scope_of(sub), #[trigger] out@[k]),
            decreases fs.files@.len() - i,
        {
            let entry_path = &fs.files[i].path;
            let keep = match sub {
                None => true,
                Some(s) => {
                    let prefix = concat2(s, "/");
                    crate::strutil::str_starts_with(entry_path.as_str(), prefix.as_str())
                },
            };
            if keep {
                proof {
                    fs.lemma_file_at(entry_path@, i as int);
                    assert(in_scope(entry_path@, scope_of(sub)));
                }
                let loaded = self.item(fs, entry_path.as_str());
                let ghost pre_out = out@;
                let ghost lv = loaded;
                out.push(loaded);
                proof {
                    ps = ps.push(entry_path@);
                    let n = pre_out.len() as int;
                    assert(out@ == pre_out.push(lv));
                    assert(out@[n] == lv);
                    assert(ps[n] == entry_path@);
                    assert(item_reported(*fs, fs.files@[i as int].path@, out@[n]));
                    assert forall|j: int|
                        0 <= j < i + 1 && in_scope(
                            (#[trigger] fs.files@[j]).path@,
                            scope_of(sub),
                        ) implies exists|k: int|
                        0 <= k < out@.len() && item_reported(
                            *fs,
                            fs.files@[j].path@,
                            #[trigger] out@[k],
                        ) by {
                        if j < i {
                            let k = choose|k: int|
                                0 <= k < pre_out.len() && item_reported(
                                    *fs,
                                    fs.files@[j].path@,
                                    #[trigger] pre_out[k],
                                );
                            assert(out@[k] == pre_out[k]);
                            assert(item_reported(*fs, fs.files@[j].path@, out@[k]));
                        } else {
                            assert(item_reported(*fs, fs.files@[j].path@, out@[n]));
                        }
                    }
                    assert forall|k: int| 0 <= k < out@.len() implies in_scope(
                        #[trigger] ps[k],
                        scope_of(sub),
                    ) && (fs.has_file(ps[k]) || fs.has_gallery(ps[k])) && item_reported(
                        *fs,
                        ps[k],
                        out@[k],
                    ) by {
                        if k < n {
                            assert(ps[k] == ps.drop_last()[k]);
                            assert(out@[k] == pre_out[k]);
                        }
                    }
                    assert forall|k: int| 0 <= k < out@.len() implies justified(
                        *fs,
                        scope_of(sub),
                        #[trigger] out@[k],
                    ) by {
                        if k < n {
                            assert(out@[k] == pre_out[k]);
                            assert(justified(*fs, scope_of(sub), pre_out[k]));
                        } else {
                            assert(in_scope(ps[k], scope_of(sub)) && (fs.has_file(ps[k])
                                || fs.has_gallery(ps[k])) && item_reported(*fs, ps[k], out@[k]));
                        }
                    }
                }
            }
            i += 1;
        }
        let mut g: usize = 0;
        while g < fs.galleries.len()
            invariant
                fs.wf(),
                g <= fs.galleries@.len(),
                out@.len() <= fs.files@.len() + g,
                ps.len() == out@.len(),
                forall|j: int|
                    0 <= j < fs.files@.len() && in_scope(
                        (#[trigger] fs.files@[j]).path@,
                        scope_of(sub),
                    ) ==> exists|k: int|
                        0 <= k < out@.len() && item_reported(
                            *fs,
                            fs.files@[j].path@,
                            #[trigger] out@[k],
                        ),
                forall|j: int|
                    0 <= j < g && in_scope((#[trigger] fs.galleries@[j]).path@, scope_of(sub))
                        ==> exists|k: int|
                        0 <= k < out@.len() && item_reported(
                            *fs,
                            fs.galleries@[j].path@,
                            #[trigger] out@[k],
                        ),
                forall|k: int|
                    0 <= k < out@.len() ==> in_scope(#[trigger] ps[k], scope_of(sub)) && (
                    fs.has_file(ps[k]) || fs.has_gallery(ps[k])) && item_reported(
                        *fs,
                        ps[k],
                        out@[k],
                    ),
                forall|k: int|
                    0 <= k < out@.len() ==> justified(*fs, scope_of(sub), #[trigger] out@[k]),
            decreases fs.galleries@.len() - g,
        {
            let entry_path = &fs.galleries[g].path;
            let keep = match sub {
                None => true,
                Some(s) => {
                    let prefix = concat2(s, "/");
                    crate::strutil::str_starts_with(entry_path.as_str(), prefix.as_str())
                },
            };
            if keep {
                proof {
                    assert(fs.galleries@[g as int].path@ == entry_path@);
                    assert(fs.has_gallery(entry_path@));
                    assert(in_scope(entry_path@, scope_of(sub)));
                }
                let loaded = self.item(fs, entry_path.as_str());
                let ghost pre_out = out@;
                let ghost lv = loaded;
                out.push(loaded);
                proof {
                    ps = ps.push(entry_path@);
                    let n = pre_out.len() as int;
                    assert(out@ == pre_out.push(lv));
                    assert(out@[n] == lv);
                    assert(ps[n] == entry_path@);
                    assert(item_reported(*fs, fs.galleries@[g as int].path@, out@[n]));
                    assert forall|j: int|
                        0 <= j < fs.files@.len() && in_scope(
                            (#[trigger] fs.files@[j]).path@,
                            scope_of(sub),
                        ) implies exists|k: int|
                        0 <= k < out@.len() && item_reported(
                            *fs,
                            fs.files@[j].path@,
                            #[trigger] out@[k],
                        ) by {
                        let k = choose|k: int|
                            0 <= k < pre_out.len() && item_reported(
                                *fs,
                                fs.files@[j].path@,
                                #[trigger] pre_out[k],
                            );
                        assert(out@[k] == pre_out[k]);
                        assert(item_reported(*fs, fs.files@[j].path@, out@[k]));
                    }
                    assert forall|j: int|
                        0 <= j < g + 1 && in_scope(
                            (#[trigger] fs.galleries@[j]).path@,
                            scope_of(sub),
                        ) implies exists|k: int|
                        0 <= k < out@.len() && item_reported(
                            *fs,
                            fs.galleries@[j].path@,
                            #[trigger] out@[k],
                        ) by {
                        if j < g {
                            let k = choose|k: int|
                                0 <= k < pre_out.len() && item_reported(
                                    *fs,
                                    fs.galleries@[j].path@,
                                    #[trigger] pre_out[k],
                                );
                            assert(out@[k] == pre_out[k]);
                            assert(item_reported(*fs, fs.galleries@[j].path@, out@[k]));
                        } else {
                            assert(item_reported(*fs, fs.galleries@[j].path@, out@[n]));
                        }
                    }
                    assert forall|k: int| 0 <= k < out@.len() implies in_scope(
                        #[trigger] ps[k],
                        scope_of(sub),
                    ) && (fs.has_file(ps[k]) || fs.has_gallery(ps[k])) && item_reported(
                        *fs,
                        ps[k],
                        out@[k],
                    ) by {
                        if k < n {
                            assert(ps[k] == ps.drop_last()[k]);
                            assert(out@[k] == pre_out[k]);
                        }
                    }
                    assert forall|k: int| 0 <= k < out@.len() implies justified(
                        *fs,
                        scope_of(sub),
                        #[trigger] out@[k],
                    ) by {
                        if k < n {
                            assert(out@[k] == pre_out[k]);
                            assert(justified(*fs, scope_of(sub), pre_out[k]));
                        } else {
                            assert(in_scope(ps[k], scope_of(sub)) && (fs.has_file(ps[k])
                                || fs.has_gallery(ps[k])) && item_reported(*fs, ps[k], out@[k]));
                        }
                    }
                }
            }
            g += 1;
        }
        out
    }
}

} // verus!
