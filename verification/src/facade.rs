//! The application facade: orchestrates the object store and the catalog
//! index for single-item reads and writes, and the one-way reconciliation
//! pass from store truth into the index.
//!
//! Each operation borrows one index connection for its duration and runs to
//! completion on it; concurrent operations on distinct keys interleave
//! freely, and callers needing per-key serialization add their own.

use vstd::prelude::*;
use crate::db::Db;
use crate::error::VaultError;
use crate::store::{deleted, info_matches, meta_updated, sidecar_of, FsState, Storage};
use crate::types::{clone_strings, source_eq, File, FileMeta, FileQuery, FileSource, FileUpdate, FilesPage};

verus! {

/// Where the index database and the storage root live.
#[derive(Clone, Debug)]
pub struct Config {
    pub db_path: String,
    pub storage_path: String,
}

/// The facade over one store root and one index database.
#[derive(Clone, Debug)]
pub struct App {
    pub config: Config,
    pub storage: Storage,
}

/// Merges a partial update over the currently stored metadata: supplied
/// fields win, unset fields keep their prior value, tags replace wholesale
/// when supplied, sources always carry over, and the identity override is
/// cleared.
pub fn merge_meta(update: &FileUpdate, cur: FileMeta) -> (r: FileMeta)
    ensures
        r.title == (if update.title is Some {
            update.title
        } else {
            cur.title
        }),
        r.description == (if update.description is Some {
            update.description
        } else {
            cur.description
        }),
        (match update.tags {
            Some(ts) => r.tags@ == ts@,
            None => r.tags@ == cur.tags@,
        }),
        r.sources@ == cur.sources@,
        r.hash is None,
{
    let title = match &update.title {
        Some(t) => Some(t.clone()),
        None => cur.title,
    };
    let description = match &update.description {
        Some(d) => Some(d.clone()),
        None => cur.description,
    };
    let tags = match &update.tags {
        Some(ts) => clone_strings(ts),
        None => cur.tags,
    };
    FileMeta { title, description, tags, sources: cur.sources, hash: None }
}

/// The record a metadata update of path `p` writes, relative to the prior
/// state: supplied fields win; unset fields keep the sidecar's prior value
/// — the zero value where no sidecar existed; tags replace wholesale only
/// when supplied; sources always carry over; the identity override is
/// cleared.
pub open spec fn merged_meta_at(fs: FsState, p: Seq<char>, data: FileUpdate, m: FileMeta) -> bool {
    let had = fs.has_meta(sidecar_of(p));
    let prior = fs.meta_entry(sidecar_of(p)).meta;
    &&& m.title == (if data.title is Some {
        data.title
    } else if had {
        prior.title
    } else {
        None::<String>
    })
    &&& m.description == (if data.description is Some {
        data.description
    } else if had {
        prior.description
    } else {
        None::<String>
    })
    &&& (match data.tags {
        Some(ts) => m.tags@ == ts@,
        None => m.tags@ == (if had {
            prior.tags@
        } else {
            Seq::<String>::empty()
        }),
    })
    &&& if had {
        m.sources@.len() == prior.sources@.len() && (forall|i: int|
            0 <= i < m.sources@.len() ==> source_eq(m.sources@[i], prior.sources@[i]))
    } else {
        m.sources@ == Seq::<FileSource>::empty()
    }
    &&& m.hash is None
}

impl App {
    /// A facade over the given configuration; the store is rooted at the
    /// configured storage path. (The caller owns the database pool, the
    /// schema migration and the root directory itself.)
    pub fn new(config: Config) -> (r: App)
        ensures
            r.config == config,
            r.storage.root@ == r.config.storage_path@,
    {
        let storage = Storage::new(config.storage_path.as_str());
        App { config, storage }
    }

    /// Reads one file from the index by hash.
    pub fn file(&self, conn: &rusqlite::Connection, hash: &str) -> (r: Result<File, VaultError>)
        ensures
            r matches Ok(f) ==> f.info.media is None && (f.meta.hash matches Some(h) && h
                == f.info.hash),
            r matches Err(e) ==> e is NotFound || e is IoFailure,
    {
        Db::new(conn).file(hash)
    }

    /// Lists files from the index: filtered, sorted, paginated.
    pub fn files(&self, conn: &rusqlite::Connection, query: FileQuery) -> (r: Result<
        FilesPage,
        VaultError,
    >)
        requires
            query.page * query.page_size <= u32::MAX,
        ensures
            r matches Ok(page) ==> page.page == query.page && page.page_size == query.page_size,
            r matches Err(e) ==> e is IoFailure || e is MalformedData,
    {
        Db::new(conn).files(query)
    }

    /// Applies a partial metadata update to the file the hash names: loads
    /// the file from the index, merges the supplied fields over the
    /// currently stored metadata, replaces the sidecar wholesale, and
    /// writes the refreshed file through to the index. The file's bytes are
    /// never rewritten, whether the call succeeds or fails.
    pub fn file_update(&self, conn: &rusqlite::Connection, fs: &mut FsState, data: FileUpdate) -> (r:
        Result<File, VaultError>)
        requires
            old(fs).wf(),
        ensures
            final(fs).wf(),
            final(fs).files@ == old(fs).files@,
            final(fs).galleries@ == old(fs).galleries@,
            r matches Ok(f) ==> exists|p: Seq<char>|
                {
                    &&& old(fs).has_file(p)
                    &&& f.path@ == p
                    &&& #[trigger] info_matches(f.info, old(fs).file_entry(p))
                    &&& merged_meta_at(*old(fs), p, data, f.meta)
                    &&& meta_updated(*old(fs), *final(fs), p, f.meta)
                },
    {
        let db = Db::new(conn);
        let file = match db.file(data.hash.as_str()) {
            Ok(file) => file,
            Err(e) => {
                return Err(e);
            },
        };
        let cur_meta = match self.storage.file_meta(fs, file.path.as_str()) {
            Ok(m) => m,
            Err(e) => {
                return Err(e);
            },
        };
        let meta = merge_meta(&data, cur_meta);
        let ghost p = file.path@;
        let updated = match self.storage.file_meta_update(fs, file.path.as_str(), meta) {
            Ok(f) => f,
            Err(e) => {
                return Err(e);
            },
        };
        proof {
            assert(old(fs).has_file(p));
            assert(merged_meta_at(*old(fs), p, data, updated.meta));
        }
        match db.file_persist(&updated) {
            Ok(_) => Ok(updated),
            Err(e) => Err(e),
        }
    }

    /// Deletes the file the hash names: removes its bytes and sidecar from
    /// the store, then its row — and, by cascade, its tags — from the
    /// index. On failure the bytes are untouched, except when the store
    /// delete succeeded and only the index-row delete failed: the store
    /// side is then already gone, as the contract's last clause records.
    pub fn file_delete(&self, conn: &rusqlite::Connection, fs: &mut FsState, hash: &str) -> (r:
        Result<(), VaultError>)
        requires
            old(fs).wf(),
        ensures
            final(fs).wf(),
            r is Ok ==> exists|p: Seq<char>| deleted(*old(fs), *final(fs), p),
            r is Err ==> final(fs).files@ == old(fs).files@ || (exists|p: Seq<char>|
                deleted(*old(fs), *final(fs), p)),
    {
        let db = Db::new(conn);
        let file = match db.file(hash) {
            Ok(file) => file,
            Err(e) => {
                return Err(e);
            },
        };
        match self.storage.file_delete(fs, file.path.as_str()) {
            Ok(_) => (),
            Err(e) => {
                return Err(e);
            },
        }
        match db.file_delete(hash) {
            Ok(_) => Ok(()),
            Err(e) => Err(e),
        }
    }

    /// Reconciles store truth into the index, one way: every plain file of
    /// the tree is loaded and upserted; galleries and transform scripts are
    /// not indexed, and one entry's load failure does not stop the pass.
    /// Nothing is pruned: index rows whose backing file vanished out of
    /// band stay.
    pub fn index(&self, conn: &rusqlite::Connection, fs: &FsState) -> (r: Result<(), VaultError>)
        requires
            fs.wf(),
        ensures
            fs.files@.len() == 0 ==> r is Ok,
            r matches Err(e) ==> e is IoFailure,
    {
        let db = Db::new(conn);
        let mut i: usize = 0;
        while i < fs.files.len()
            invariant
                fs.wf(),
                i <= fs.files@.len(),
            decreases fs.files@.len() - i,
        {
            let path = &fs.files[i].path;
            if !crate::strutil::str_ends_with(path.as_str(), ".importer.js") {
                match self.storage.file(fs, path.as_str()) {
                    Ok(f) => {
                        match db.file_persist(&f) {
                            Ok(_) => (),
                            Err(e) => {
                                return Err(e);
                            },
                        }
                    },
                    Err(_) => (),
                }
            }
            i += 1;
        }
        Ok(())
    }
}

} // verus!
