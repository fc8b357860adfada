//! The catalog index: a durable relational mirror of store metadata in a
//! SQLite database, with point lookup, filtered/sorted/paginated listing,
//! upsert, and delete, plus a denormalized tag junction.
//!
//! Every query text and parameter list is built by verified code with an
//! exact contract; the statements are run through thin trusted wrappers
//! around rusqlite, and whatever rows come back are post-processed — row
//! conversion, tag splicing — by verified code again.

use vstd::prelude::*;
use crate::filter::{file_filter_apply, filter_fragment, strings_view};
use crate::types::{
    clone_opt_string, clone_strings, kind_name, kind_of_name, File, FileFilter, FileInfo,
    FileKind, FileMeta, FileQuery, FileSort, FileSortItem, FileTags, FilesPage, MediaInfo,
};

verus! {

/// rusqlite's connection handle, carried opaquely through the index.
#[verifier::external_type_specification]
#[verifier::external_body]
pub struct ExConnection(rusqlite::Connection);

/// rusqlite's error type, mapped to the library's error kind at the seam.
#[verifier::external_type_specification]
#[verifier::external_body]
pub struct ExSqlError(rusqlite::Error);

/// rusqlite's owned SQL value, the form bound parameters take.
#[verifier::external_type_specification]
#[verifier::external_body]
pub struct ExSqlOwnedValue(rusqlite::types::Value);

/// One SQL parameter: text, a signed integer, or null.
#[derive(Debug)]
pub enum SqlValue {
    Text(String),
    Int(i64),
    Null,
}

/// One row of the files table, read back as plain values.
#[derive(Debug)]
pub struct FileRow {
    pub hash: String,
    pub path: String,
    pub title: Option<String>,
    pub description: Option<String>,
    pub size: i64,
    pub mime: Option<String>,
    pub kind: String,
    pub created_at: Option<i64>,
    pub updated_at: Option<i64>,
}

/// Relies on rusqlite::types::Value: each parameter is moved into the
/// matching SQL value variant, one for one.
#[verifier::external_body]
fn to_sql_values(params: &Vec<SqlValue>) -> (r: Vec<rusqlite::types::Value>) {
    params.iter().map(|p| match p {
        SqlValue::Text(s) => rusqlite::types::Value::Text(s.clone()),
        SqlValue::Int(i) => rusqlite::types::Value::Integer(*i),
        SqlValue::Null => rusqlite::types::Value::Null,
    }).collect()
}

/// Relies on rusqlite::Connection::execute_batch: runs the given statements
/// and reports the database's verdict.
#[verifier::external_body]
fn sql_exec_batch(conn: &rusqlite::Connection, sql: &str) -> (r: Result<(), rusqlite::Error>) {
    conn.execute_batch(sql)
}

/// Relies on rusqlite::Connection::execute: runs one statement with the
/// given parameters bound positionally.
#[verifier::external_body]
fn sql_exec(conn: &rusqlite::Connection, sql: &str, params: &Vec<SqlValue>) -> (r: Result<
    usize,
    rusqlite::Error,
>) {
    conn.execute(sql, rusqlite::params_from_iter(to_sql_values(params)))
}

/// Relies on rusqlite::Statement::query_map: runs the query and converts
/// each returned row into a plain `FileRow`, column by column.
#[verifier::external_body]
fn sql_query_files(conn: &rusqlite::Connection, sql: &str, params: &Vec<SqlValue>) -> (r: Result<
    Vec<FileRow>,
    rusqlite::Error,
>) {
    let mut stmt = conn.prepare(sql)?;
    let rows = stmt.query_map(rusqlite::params_from_iter(to_sql_values(params)), |row| {
        Ok(FileRow {
            hash: row.get(0)?, path: row.get(1)?, title: row.get(2)?, description: row.get(3)?,
            size: row.get(4)?, mime: row.get(5)?, kind: row.get(6)?,
            created_at: row.get(7)?, updated_at: row.get(8)?,
        })
    })?;
    rows.collect()
}

/// Relies on rusqlite::Connection::query_row: runs the query and returns
/// the single integer of its first row.
#[verifier::external_body]
fn sql_query_count(conn: &rusqlite::Connection, sql: &str, params: &Vec<SqlValue>) -> (r: Result<
    i64,
    rusqlite::Error,
>) {
    conn.query_row(sql, rusqlite::params_from_iter(to_sql_values(params)), |row| row.get(0))
}

/// Relies on rusqlite::Statement::query_map: runs the query and converts
/// each returned row into its two text columns.
#[verifier::external_body]
fn sql_query_pairs(conn: &rusqlite::Connection, sql: &str, params: &Vec<SqlValue>) -> (r: Result<
    Vec<(String, String)>,
    rusqlite::Error,
>) {
    let mut stmt = conn.prepare(sql)?;
    let rows = stmt.query_map(rusqlite::params_from_iter(to_sql_values(params)), |row| {
        Ok((row.get(0)?, row.get(1)?))
    })?;
    rows.collect()
}

/// Relies on rusqlite::Statement::query_map: runs the query and converts
/// each returned row into its single text column.
#[verifier::external_body]
fn sql_query_strings(conn: &rusqlite::Connection, sql: &str, params: &Vec<SqlValue>) -> (r: Result<
    Vec<String>,
    rusqlite::Error,
>) {
    let mut stmt = conn.prepare(sql)?;
    let rows = stmt.query_map(rusqlite::params_from_iter(to_sql_values(params)), |row| row.get(0))?;
    rows.collect()
}

/// Relies on rusqlite::Error's display form: the error's report as text.
#[verifier::external_body]
fn sql_error_text(e: &rusqlite::Error) -> (r: String) {
    format!("{}", e)
}

/// Maps a database error to the library's error kind, carrying its report.
fn db_err(e: rusqlite::Error) -> (r: crate::error::VaultError)
    ensures
        r is IoFailure,
{
    crate::error::VaultError::IoFailure(sql_error_text(&e))
}

/// The column a sort key orders by.
pub open spec fn order_field_text(s: FileSort) -> Seq<char> {
    match s {
        FileSort::Updated => "updated_at"@,
        FileSort::Created => "created_at"@,
        FileSort::Type => "mime"@,
        FileSort::Size => "size"@,
        FileSort::Length => "length"@,
    }
}

/// One sort key's clause: its column and its direction.
pub open spec fn order_item_text(it: FileSortItem) -> Seq<char> {
    order_field_text(it.sort) + (if it.ascending {
        " ASC"@
    } else {
        " DESC"@
    })
}

/// The sort keys' clauses joined with commas, first key first.
pub open spec fn order_list_text(s: Seq<FileSortItem>) -> Seq<char>
    decreases s.len(),
{
    if s.len() == 0 {
        Seq::<char>::empty()
    } else if s.len() == 1 {
        order_item_text(s[0])
    } else {
        order_list_text(s.drop_last()) + ", "@ + order_item_text(s.last())
    }
}

/// The full ORDER BY clause: the given keys in order, or the default —
/// newest update first — where no key was given.
pub open spec fn order_clause_text(s: Seq<FileSortItem>) -> Seq<char> {
    if s.len() == 0 {
        " ORDER BY updated_at DESC"@
    } else {
        " ORDER BY "@ + order_list_text(s)
    }
}

/// The WHERE clause a filter compiles to; empty where there is no filter.
pub open spec fn where_text(f: Option<FileFilter>) -> Seq<char> {
    match f {
        None => Seq::<char>::empty(),
        Some(f) => " WHERE"@ + filter_fragment(f),
    }
}

/// The text of the count query: the match count under the same filter,
/// before sort and pagination apply.
pub open spec fn count_sql_text(f: Option<FileFilter>) -> Seq<char> {
    "SELECT COUNT(*) FROM files"@ + where_text(f)
}

/// The text of the row query: the same filter, the sort keys in order, and
/// a limit and offset bound as its two last parameters.
pub open spec fn rows_sql_text(f: Option<FileFilter>, sort: Seq<FileSortItem>) -> Seq<char> {
    "SELECT * FROM files"@ + where_text(f) + order_clause_text(sort) + " LIMIT ? OFFSET ?"@
}

/// `n` positional placeholders, comma-separated.
pub open spec fn placeholders_text(n: nat) -> Seq<char>
    decreases n,
{
    if n == 0 {
        Seq::<char>::empty()
    } else if n == 1 {
        "?"@
    } else {
        placeholders_text((n - 1) as nat) + ",?"@
    }
}

/// The text of the batched tag fetch: every (file hash, tag) pair of the
/// given hashes, grouped by hash.
pub open spec fn tags_in_sql_text(n: nat) -> Seq<char> {
    "SELECT file_hash, tag FROM files_tags WHERE file_hash IN ("@ + placeholders_text(n)
        + ") ORDER BY file_hash"@
}

/// The text of the stale-tag delete: every junction row of the hash whose
/// tag is not among the `n` kept ones — all of them where none is kept.
pub open spec fn delete_stale_sql_text(n: nat) -> Seq<char> {
    if n == 0 {
        "DELETE FROM files_tags WHERE file_hash = ?"@
    } else {
        "DELETE FROM files_tags WHERE file_hash = ? AND tag NOT IN ("@ + placeholders_text(n)
            + ")"@
    }
}

/// Every parameter is text, and the texts are exactly `texts`, in order.
pub open spec fn params_are_texts(vals: Seq<SqlValue>, texts: Seq<Seq<char>>) -> bool {
    &&& vals.len() == texts.len()
    &&& forall|i: int|
        0 <= i < vals.len() ==> ((#[trigger] vals[i]) matches SqlValue::Text(s) && s@ == texts[i])
}

/// Builds `n` comma-separated placeholders.
fn build_placeholders(n: usize) -> (r: String)
    ensures
        r@ == placeholders_text(n as nat),
{
    let mut out = String::new();
    let mut i: usize = 0;
    while i < n
        invariant
            i <= n,
            out@ == placeholders_text(i as nat),
        decreases n - i,
    {
        if i == 0 {
            out.append("?");
        } else {
            out.append(",?");
        }
        i += 1;
        proof {
            assert(out@ =~= placeholders_text(i as nat));
        }
    }
    out
}

/// Builds the ORDER BY clause for the given sort keys.
#[verifier::rlimit(50)]
fn build_order_clause(sort: &Vec<FileSortItem>) -> (r: String)
    ensures
        r@ == order_clause_text(sort@),
{
    if sort.len() == 0 {
        return " ORDER BY updated_at DESC".to_owned();
    }
    let mut out = " ORDER BY ".to_owned();
    let mut i: usize = 0;
    while i < sort.len()
        invariant
            0 < sort@.len(),
            i <= sort@.len(),
            out@ == " ORDER BY "@ + order_list_text(sort@.subrange(0, i as int)),
        decreases sort@.len() - i,
    {
        if i > 0 {
            out.append(", ");
        }
        let item = sort[i];
        match item.sort {
            FileSort::Updated => out.append("updated_at"),
            FileSort::Created => out.append("created_at"),
            FileSort::Type => out.append("mime"),
            FileSort::Size => out.append("size"),
            FileSort::Length => out.append("length"),
        }
        if item.ascending {
            out.append(" ASC");
        } else {
            out.append(" DESC");
        }
        i += 1;
        proof {
            let pre = sort@.subrange(0, i - 1);
            let cur = sort@.subrange(0, i as int);
            assert(cur.drop_last() =~= pre);
            assert(cur.last() == sort@[i - 1]);
            assert(out@ =~= " ORDER BY "@ + order_list_text(cur));
        }
    }
    proof {
        assert(sort@.subrange(0, sort@.len() as int) =~= sort@);
    }
    out
}

/// The tags of hash `h` among the fetched (hash, tag) pairs, in fetch
/// order.
pub open spec fn tags_for(pairs: Seq<(Seq<char>, Seq<char>)>, h: Seq<char>) -> Seq<Seq<char>>
    decreases pairs.len(),
{
    if pairs.len() == 0 {
        Seq::<Seq<char>>::empty()
    } else {
        tags_for(pairs.drop_last(), h) + (if pairs.last().0 == h {
            seq![pairs.last().1]
        } else {
            Seq::<Seq<char>>::empty()
        })
    }
}

/// The character sequences a pair vector holds.
pub open spec fn pairs_view(s: Seq<(String, String)>) -> Seq<(Seq<char>, Seq<char>)> {
    Seq::new(s.len(), |i: int| (s[i].0@, s[i].1@))
}

/// Splices the batch-fetched tag pairs back onto the requested hashes:
/// each hash gets exactly the tags whose junction rows name it, by hash
/// match, not by positional alignment.
pub fn group_tags(hashes: &Vec<String>, pairs: &Vec<(String, String)>) -> (r: Vec<FileTags>)
    ensures
        r@.len() == hashes@.len(),
        forall|i: int|
            0 <= i < r@.len() ==> (#[trigger] r@[i]).file_hash@ == hashes@[i]@ && strings_view(
                r@[i].tags@,
            ) == tags_for(pairs_view(pairs@), hashes@[i]@),
{
    let mut out: Vec<FileTags> = Vec::new();
    let mut i: usize = 0;
    while i < hashes.len()
        invariant
            i <= hashes@.len(),
            out@.len() == i,
            forall|j: int|
                0 <= j < i ==> (#[trigger] out@[j]).file_hash@ == hashes@[j]@ && strings_view(
                    out@[j].tags@,
                ) == tags_for(pairs_view(pairs@), hashes@[j]@),
        decreases hashes@.len() - i,
    {
        let h = &hashes[i];
        let mut tags: Vec<String> = Vec::new();
        let mut k: usize = 0;
        while k < pairs.len()
            invariant
                k <= pairs@.len(),
                strings_view(tags@) == tags_for(pairs_view(pairs@).subrange(0, k as int), h@),
            decreases pairs@.len() - k,
        {
            if crate::strutil::str_eq(pairs[k].0.as_str(), h.as_str()) {
                tags.push(pairs[k].1.clone());
            }
            k += 1;
            proof {
                let pre = pairs_view(pairs@).subrange(0, k - 1);
                let cur = pairs_view(pairs@).subrange(0, k as int);
                assert(cur.drop_last() =~= pre);
                assert(cur.last() == pairs_view(pairs@)[k - 1]);
                assert(strings_view(tags@) =~= tags_for(cur, h@));
            }
        }
        proof {
            assert(pairs_view(pairs@).subrange(0, pairs@.len() as int) =~= pairs_view(pairs@));
        }
        out.push(FileTags { file_hash: h.clone(), tags });
        i += 1;
    }
    out
}

/// Builds a catalog row back into a `File`: plain columns carried over, the
/// kind read from its stored name, the supplied tags spliced in, and the
/// row's hash echoed into the metadata's identity field.
pub fn file_from_row(row: &FileRow, tags: Vec<String>) -> (f: File)
    ensures
        f.path == row.path,
        f.info.hash == row.hash,
        f.info.size == row.size,
        f.info.mime == row.mime,
        f.info.kind == kind_of_name(row.kind@),
        f.info.media is None,
        f.info.created_at == row.created_at,
        f.info.updated_at == row.updated_at,
        f.meta.title == row.title,
        f.meta.description == row.description,
        f.meta.tags == tags,
        f.meta.sources@ == Seq::<crate::types::FileSource>::empty(),
        f.meta.hash matches Some(h) && h == row.hash,
{
    let kind = FileKind::from_str(row.kind.as_str());
    File {
        path: row.path.clone(),
        info: FileInfo {
            hash: row.hash.clone(),
            size: row.size,
            mime: clone_opt_string(&row.mime),
            kind,
            media: None,
            created_at: row.created_at,
            updated_at: row.updated_at,
        },
        meta: FileMeta {
            title: clone_opt_string(&row.title),
            description: clone_opt_string(&row.description),
            tags,
            sources: Vec::new(),
            hash: Some(row.hash.clone()),
        },
    }
}

/// The pixel width the index stores for a file's media info.
pub open spec fn media_width(m: Option<MediaInfo>) -> Option<u32> {
    match m {
        Some(MediaInfo::Image(i)) => Some(i.width),
        Some(MediaInfo::Video(v)) => Some(v.width),
        _ => None,
    }
}

/// The pixel height the index stores for a file's media info.
pub open spec fn media_height(m: Option<MediaInfo>) -> Option<u32> {
    match m {
        Some(MediaInfo::Image(i)) => Some(i.height),
        Some(MediaInfo::Video(v)) => Some(v.height),
        _ => None,
    }
}

/// The duration the index stores for a file's media info.
pub open spec fn media_length(m: Option<MediaInfo>) -> Option<u32> {
    match m {
        Some(MediaInfo::Video(v)) => Some(v.length),
        Some(MediaInfo::Audio(a)) => Some(a.length),
        _ => None,
    }
}

/// The parameter holds the text where one is present, and null otherwise.
pub open spec fn text_or_null(v: SqlValue, o: Option<String>) -> bool {
    match o {
        Some(s) => v matches SqlValue::Text(t) && t == s,
        None => v is Null,
    }
}

/// The parameter holds the integer where one is present, and null
/// otherwise.
pub open spec fn int_or_null(v: SqlValue, o: Option<i64>) -> bool {
    match o {
        Some(n) => v matches SqlValue::Int(m) && m == n,
        None => v is Null,
    }
}

/// The parameter holds the small integer where one is present, and null
/// otherwise.
pub open spec fn u32_or_null(v: SqlValue, o: Option<u32>) -> bool {
    match o {
        Some(n) => v matches SqlValue::Int(m) && m == n,
        None => v is Null,
    }
}

/// An optional text as a SQL parameter.
fn opt_text_param(o: &Option<String>) -> (r: SqlValue)
    ensures
        text_or_null(r, *o),
{
    match o {
        Some(s) => SqlValue::Text(s.clone()),
        None => SqlValue::Null,
    }
}

/// An optional integer as a SQL parameter.
fn opt_int_param(o: Option<i64>) -> (r: SqlValue)
    ensures
        int_or_null(r, o),
{
    match o {
        Some(n) => SqlValue::Int(n),
        None => SqlValue::Null,
    }
}

/// An optional small integer as a SQL parameter.
fn opt_u32_param(o: Option<u32>) -> (r: SqlValue)
    ensures
        u32_or_null(r, o),
{
    match o {
        Some(n) => SqlValue::Int(n as i64),
        None => SqlValue::Null,
    }
}

/// Builds the twelve column parameters of the files-row upsert, in the
/// column order of the insert statement.
pub fn file_row_params(file: &File) -> (r: Vec<SqlValue>)
    ensures
        r@.len() == 12,
        (r@[0] matches SqlValue::Text(s) && s == file.info.hash),
        (r@[1] matches SqlValue::Text(s) && s == file.path),
        text_or_null(r@[2], file.meta.title),
        text_or_null(r@[3], file.meta.description),
        (r@[4] matches SqlValue::Int(n) && n == file.info.size),
        text_or_null(r@[5], file.info.mime),
        (r@[6] matches SqlValue::Text(s) && s@ == kind_name(file.info.kind)),
        int_or_null(r@[7], file.info.created_at),
        int_or_null(r@[8], file.info.updated_at),
        u32_or_null(r@[9], media_width(file.info.media)),
        u32_or_null(r@[10], media_height(file.info.media)),
        u32_or_null(r@[11], media_length(file.info.media)),
{
    let width = match &file.info.media {
        Some(m) => m.width(),
        None => None,
    };
    let height = match &file.info.media {
        Some(m) => m.height(),
        None => None,
    };
    let length = match &file.info.media {
        Some(m) => m.length(),
        None => None,
    };
    let mut r: Vec<SqlValue> = Vec::new();
    r.push(SqlValue::Text(file.info.hash.clone()));
    r.push(SqlValue::Text(file.path.clone()));
    r.push(opt_text_param(&file.meta.title));
    r.push(opt_text_param(&file.meta.description));
    r.push(SqlValue::Int(file.info.size));
    r.push(opt_text_param(&file.info.mime));
    r.push(SqlValue::Text(file.info.kind.to_str().to_owned()));
    r.push(opt_int_param(file.info.created_at));
    r.push(opt_int_param(file.info.updated_at));
    r.push(opt_u32_param(width));
    r.push(opt_u32_param(height));
    r.push(opt_u32_param(length));
    r
}

/// The row offset a 1-based page request starts at. The first page starts
/// at zero; later pages start at page times page size, which skips one
/// extra page's worth of rows — the historical formula, kept as is and
/// exercised by the tests.
pub open spec fn page_offset(page: u32, size: u32) -> int {
    if page < 2 {
        0
    } else {
        page * size
    }
}

/// Computes the row offset of a page request.
pub fn compute_offset(page: u32, size: u32) -> (r: u32)
    requires
        page * size <= u32::MAX,
    ensures
        r == page_offset(page, size),
{
    if page < 2 {
        0
    } else {
        page * size
    }
}

/// The catalog index, borrowing one pooled connection for the duration of
/// an operation.
pub struct Db<'a> {
    connection: &'a rusqlite::Connection,
}

impl<'a> Db<'a> {
    /// An index over the given connection.
    pub fn new(connection: &'a rusqlite::Connection) -> Db<'a> {
        Db { connection }
    }

    /// Idempotently ensures the schema: the files table keyed by hash with
    /// a unique path, the tag junction with cascade delete, and the two
    /// grouping tables. Safe to run on every startup; also turns foreign
    /// keys on so the cascade holds on this connection.
    pub fn migrate(&self) -> (r: Result<(), crate::error::VaultError>)
        ensures
            r matches Err(e) ==> e is IoFailure,
    {
        let schema = "PRAGMA foreign_keys = ON;\n\
            CREATE TABLE IF NOT EXISTS files(\n\
                hash TEXT NOT NULL PRIMARY KEY,\n\
                path TEXT NOT NULL UNIQUE,\n\
                title TEXT,\n\
                description TEXT,\n\
                size INTEGER NOT NULL,\n\
                mime TEXT,\n\
                kind TEXT NOT NULL,\n\
                created_at INTEGER,\n\
                updated_at INTEGER,\n\
                width INTEGER,\n\
                height INTEGER,\n\
                length INTEGER\n\
            );\n\
            CREATE TABLE IF NOT EXISTS files_tags(\n\
                tag TEXT NOT NULL,\n\
                file_hash TEXT NOT NULL REFERENCES files (hash) ON DELETE CASCADE,\n\
                UNIQUE (tag, file_hash)\n\
            );\n\
            CREATE TABLE IF NOT EXISTS galleries(\n\
                path TEXT NOT NULL PRIMARY KEY,\n\
                title TEXT NOT NULL,\n\
                description TEXT\n\
            );\n\
            CREATE TABLE IF NOT EXISTS gallery_items(\n\
                gallery_path TEXT NOT NULL REFERENCES galleries (path) ON DELETE CASCADE,\n\
                file_hash TEXT NOT NULL REFERENCES files (hash) ON DELETE CASCADE,\n\
                weight INTEGER NOT NULL,\n\
                UNIQUE (gallery_path, file_hash)\n\
            );";
        match sql_exec_batch(self.connection, schema) {
            Ok(_) => Ok(()),
            Err(e) => Err(db_err(e)),
        }
    }

    /// Fetches the tag set of one hash.
    fn file_tags(&self, hash: &str) -> (r: Result<Vec<String>, crate::error::VaultError>)
        ensures
            r matches Err(e) ==> e is IoFailure,
    {
        let mut params: Vec<SqlValue> = Vec::new();
        params.push(SqlValue::Text(hash.to_owned()));
        match sql_query_strings(
            self.connection,
            "SELECT tag FROM files_tags WHERE file_hash = ?",
            &params,
        ) {
            Ok(tags) => Ok(tags),
            Err(e) => Err(db_err(e)),
        }
    }

    /// Batch-fetches the tag sets of the given hashes in one query and
    /// splices them per hash: the result lines up with the request.
    pub fn files_tags(&self, hashes: &Vec<String>) -> (r: Result<
        Vec<FileTags>,
        crate::error::VaultError,
    >)
        ensures
            r matches Ok(ts) ==> ts@.len() == hashes@.len() && (forall|i: int|
                0 <= i < ts@.len() ==> (#[trigger] ts@[i]).file_hash@ == hashes@[i]@),
            r matches Err(e) ==> e is IoFailure,
    {
        if hashes.len() == 0 {
            let empty_pairs: Vec<(String, String)> = Vec::new();
            return Ok(group_tags(hashes, &empty_pairs));
        }
        let mut sql = "SELECT file_hash, tag FROM files_tags WHERE file_hash IN (".to_owned();
        let ph = build_placeholders(hashes.len());
        sql.append(ph.as_str());
        sql.append(") ORDER BY file_hash");
        proof {
            assert(sql@ =~= tags_in_sql_text(hashes@.len() as nat));
        }
        let mut params: Vec<SqlValue> = Vec::new();
        let mut i: usize = 0;
        while i < hashes.len()
            invariant
                i <= hashes@.len(),
                params@.len() == i,
                forall|j: int|
                    0 <= j < i ==> ((#[trigger] params@[j]) matches SqlValue::Text(s) && s@
                        == strings_view(hashes@)[j]),
            decreases hashes@.len() - i,
        {
            params.push(SqlValue::Text(hashes[i].clone()));
            i += 1;
        }
        proof {
            assert(params_are_texts(params@, strings_view(hashes@)));
        }
        let pairs = match sql_query_pairs(self.connection, sql.as_str(), &params) {
            Ok(pairs) => pairs,
            Err(e) => {
                return Err(db_err(e));
            },
        };
        Ok(group_tags(hashes, &pairs))
    }

    /// Point lookup by hash, with the full tag set for that hash spliced
    /// into the result.
    pub fn file(&self, hash: &str) -> (r: Result<File, crate::error::VaultError>)
        ensures
            r matches Ok(f) ==> f.info.media is None && f.meta.sources@.len() == 0 && (
            f.meta.hash matches Some(h) && h == f.info.hash),
            r matches Err(e) ==> e is NotFound || e is IoFailure,
    {
        let mut params: Vec<SqlValue> = Vec::new();
        params.push(SqlValue::Text(hash.to_owned()));
        let rows = match sql_query_files(
            self.connection,
            "SELECT * FROM files WHERE hash = ?",
            &params,
        ) {
            Ok(rows) => rows,
            Err(e) => {
                return Err(db_err(e));
            },
        };
        if rows.len() == 0 {
            return Err(crate::error::VaultError::NotFound);
        }
        let row = &rows[0];
        let tags = match self.file_tags(row.hash.as_str()) {
            Ok(tags) => tags,
            Err(e) => {
                return Err(e);
            },
        };
        Ok(file_from_row(row, tags))
    }

    /// Filtered, sorted, paginated listing. The filter compiles into the
    /// WHERE fragment of both the count and the row query; the sort keys
    /// apply in order, newest update first where none are given; the page
    /// window binds as limit and offset; and the returned rows get their
    /// tag sets batch-fetched and spliced in by hash.
    pub fn files(&self, query: FileQuery) -> (r: Result<FilesPage, crate::error::VaultError>)
        requires
            query.page * query.page_size <= u32::MAX,
        ensures
            r matches Ok(page) ==> page.page == query.page && page.page_size == query.page_size
                && (forall|i: int|
                0 <= i < page.items@.len() ==> {
                    let f = #[trigger] page.items@[i];
                    &&& f.info.media is None
                    &&& f.meta.sources@.len() == 0
                    &&& (f.meta.hash matches Some(h) && h == f.info.hash)
                }),
            r matches Err(e) ==> e is IoFailure || e is MalformedData,
    {
        let (where_sql, where_params): (String, Vec<String>) = match &query.filter {
            Some(f) => {
                let (frag, ps) = file_filter_apply(f);
                let mut w = " WHERE".to_owned();
                w.append(frag.as_str());
                (w, ps)
            },
            None => (String::new(), Vec::new()),
        };
        let mut count_sql = "SELECT COUNT(*) FROM files".to_owned();
        count_sql.append(where_sql.as_str());
        proof {
            assert(count_sql@ =~= count_sql_text(query.filter));
        }
        let mut count_params: Vec<SqlValue> = Vec::new();
        let mut i: usize = 0;
        while i < where_params.len()
            invariant
                i <= where_params@.len(),
                count_params@.len() == i,
                forall|j: int|
                    0 <= j < i ==> ((#[trigger] count_params@[j]) matches SqlValue::Text(s) && s@
                        == strings_view(where_params@)[j]),
            decreases where_params@.len() - i,
        {
            count_params.push(SqlValue::Text(where_params[i].clone()));
            i += 1;
        }
        proof {
            assert(params_are_texts(count_params@, strings_view(where_params@)));
        }
        let count = match sql_query_count(self.connection, count_sql.as_str(), &count_params) {
            Ok(count) => count,
            Err(e) => {
                return Err(db_err(e));
            },
        };
        if count < 0 || count > u32::MAX as i64 {
            return Err(crate::error::VaultError::MalformedData("row count out of range".to_owned()));
        }
        let total = count as u32;
        let order_sql = build_order_clause(&query.sort);
        let mut rows_sql = "SELECT * FROM files".to_owned();
        rows_sql.append(where_sql.as_str());
        rows_sql.append(order_sql.as_str());
        rows_sql.append(" LIMIT ? OFFSET ?");
        proof {
            assert(rows_sql@ =~= rows_sql_text(query.filter, query.sort@));
        }
        let offset = compute_offset(query.page, query.page_size);
        let mut rows_params = count_params;
        rows_params.push(SqlValue::Int(query.page_size as i64));
        rows_params.push(SqlValue::Int(offset as i64));
        let rows = match sql_query_files(self.connection, rows_sql.as_str(), &rows_params) {
            Ok(rows) => rows,
            Err(e) => {
                return Err(db_err(e));
            },
        };
        let mut hashes: Vec<String> = Vec::new();
        let mut i: usize = 0;
        while i < rows.len()
            invariant
                i <= rows@.len(),
                hashes@.len() == i,
            decreases rows@.len() - i,
        {
            hashes.push(rows[i].hash.clone());
            i += 1;
        }
        let grouped = match self.files_tags(&hashes) {
            Ok(grouped) => grouped,
            Err(e) => {
                return Err(e);
            },
        };
        let mut items: Vec<File> = Vec::new();
        let mut i: usize = 0;
        while i < rows.len()
            invariant
                i <= rows@.len(),
                grouped@.len() == rows@.len(),
                items@.len() == i,
                forall|j: int|
                    0 <= j < i ==> {
                        let f = #[trigger] items@[j];
                        &&& f.info.media is None
                        &&& f.meta.sources@.len() == 0
                        &&& (f.meta.hash matches Some(h) && h == f.info.hash)
                    },
            decreases rows@.len() - i,
        {
            let tags = clone_strings(&grouped[i].tags);
            items.push(file_from_row(&rows[i], tags));
            i += 1;
        }
        Ok(FilesPage { items, total, page: query.page, page_size: query.page_size })
    }

    /// Replaces the tag set of one hash: first deletes the junction rows of
    /// that hash whose tag is not among the kept ones, then inserts each
    /// kept tag, idempotently per tag. Over the junction-relation model
    /// this is exactly `tags_replaced`.
    fn file_tags_persist(&self, hash: &str, tags: &Vec<String>) -> (r: Result<
        (),
        crate::error::VaultError,
    >)
        ensures
            r matches Err(e) ==> e is IoFailure,
    {
        let del_sql: String = if tags.len() == 0 {
            "DELETE FROM files_tags WHERE file_hash = ?".to_owned()
        } else {
            let mut s = "DELETE FROM files_tags WHERE file_hash = ? AND tag NOT IN (".to_owned();
            let ph = build_placeholders(tags.len());
            s.append(ph.as_str());
            s.append(")");
            s
        };
        proof {
            assert(del_sql@ =~= delete_stale_sql_text(tags@.len() as nat));
        }
        let mut del_params: Vec<SqlValue> = Vec::new();
        del_params.push(SqlValue::Text(hash.to_owned()));
        let mut i: usize = 0;
        while i < tags.len()
            invariant
                i <= tags@.len(),
                del_params@.len() == i + 1,
            decreases tags@.len() - i,
        {
            del_params.push(SqlValue::Text(tags[i].clone()));
            i += 1;
        }
        match sql_exec(self.connection, del_sql.as_str(), &del_params) {
            Ok(_) => (),
            Err(e) => {
                return Err(db_err(e));
            },
        }
        let mut i: usize = 0;
        while i < tags.len()
            invariant
                i <= tags@.len(),
            decreases tags@.len() - i,
        {
            let mut params: Vec<SqlValue> = Vec::new();
            params.push(SqlValue::Text(hash.to_owned()));
            params.push(SqlValue::Text(tags[i].clone()));
            match sql_exec(
                self.connection,
                "INSERT OR REPLACE INTO files_tags (file_hash, tag) VALUES (?, ?)",
                &params,
            ) {
                Ok(_) => (),
                Err(e) => {
                    return Err(db_err(e));
                },
            }
            i += 1;
        }
        Ok(())
    }

    /// Inserts or replaces the file's row, then replaces its full tag set,
    /// the two wrapped in one transaction so no crash can leave stale tags
    /// behind. The index-side timestamps: a carried value wins; otherwise a
    /// replaced row keeps its prior creation time, a fresh row is stamped
    /// now, and the update time is stamped now.
    pub fn file_persist(&self, file: &File) -> (r: Result<(), crate::error::VaultError>)
        ensures
            r matches Err(e) ==> e is IoFailure,
    {
        match sql_exec_batch(self.connection, "BEGIN") {
            Ok(_) => (),
            Err(e) => {
                return Err(db_err(e));
            },
        }
        let params = file_row_params(file);
        let insert_sql =
            "INSERT OR REPLACE INTO files (hash, path, title, description, size, mime, kind, created_at, updated_at, width, height, length) VALUES (?1, ?2, ?3, ?4, ?5, ?6, ?7, COALESCE(?8, (SELECT created_at FROM files WHERE hash = ?1), unixepoch()), COALESCE(?9, unixepoch()), ?10, ?11, ?12)";
        match sql_exec(self.connection, insert_sql, &params) {
            Ok(_) => (),
            Err(e) => {
                let _ = sql_exec_batch(self.connection, "ROLLBACK");
                return Err(db_err(e));
            },
        }
        match self.file_tags_persist(file.info.hash.as_str(), &file.meta.tags) {
            Ok(_) => (),
            Err(e) => {
                let _ = sql_exec_batch(self.connection, "ROLLBACK");
                return Err(e);
            },
        }
        match sql_exec_batch(self.connection, "COMMIT") {
            Ok(_) => Ok(()),
            Err(e) => Err(db_err(e)),
        }
    }

    /// Removes the files row of one hash; the schema's cascade removes its
    /// junction rows as an invariant, not an explicit step.
    pub fn file_delete(&self, hash: &str) -> (r: Result<(), crate::error::VaultError>)
        ensures
            r matches Err(e) ==> e is IoFailure,
    {
        let mut params: Vec<SqlValue> = Vec::new();
        params.push(SqlValue::Text(hash.to_owned()));
        match sql_exec(self.connection, "DELETE FROM files WHERE hash = ?", &params) {
            Ok(_) => Ok(()),
            Err(e) => Err(db_err(e)),
        }
    }
}

/// The junction relation — a set of (tag, file hash) pairs — after the tag
/// set of hash `h` is replaced wholesale by `ts`: rows of other hashes
/// stay, rows of `h` are exactly the new tags.
pub open spec fn tags_replaced(
    rel: Set<(Seq<char>, Seq<char>)>,
    h: Seq<char>,
    ts: Seq<Seq<char>>,
) -> Set<(Seq<char>, Seq<char>)> {
    Set::new(
        |p: (Seq<char>, Seq<char>)|
            (rel.contains(p) && p.1 != h) || (ts.contains(p.0) && p.1 == h),
    )
}

/// Replacing a hash's tag set twice leaves exactly the second set: the
/// first replacement's junction rows for that hash are gone without
/// leftovers.
pub proof fn lemma_tag_replace_last_wins(
    rel: Set<(Seq<char>, Seq<char>)>,
    h: Seq<char>,
    t1: Seq<Seq<char>>,
    t2: Seq<Seq<char>>,
)
    ensures
        tags_replaced(tags_replaced(rel, h, t1), h, t2) == tags_replaced(rel, h, t2),
{
    assert(tags_replaced(tags_replaced(rel, h, t1), h, t2) =~= tags_replaced(rel, h, t2));
}

/// After a replacement, the junction holds exactly the new tags for the
/// hash, and every other hash's rows are untouched.
pub proof fn lemma_tag_replace_exact(
    rel: Set<(Seq<char>, Seq<char>)>,
    h: Seq<char>,
    ts: Seq<Seq<char>>,
)
    ensures
        forall|t: Seq<char>| #[trigger]
            tags_replaced(rel, h, ts).contains((t, h)) <==> ts.contains(t),
        forall|p: (Seq<char>, Seq<char>)|
            p.1 != h ==> (#[trigger] tags_replaced(rel, h, ts).contains(p) == rel.contains(p)),
{
}

} // verus!
