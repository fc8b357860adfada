use mediavault::db::{file_from_row, group_tags, Db, FileRow};
use mediavault::filter::{file_filter_apply, filter_eval};
use mediavault::types::{
    File, FileFilter, FileInfo, FileKind, FileMeta, FileQuery, FileSortItem, FileSort,
};
use rusqlite::Connection;

fn test_db() -> Connection {
    let conn = Connection::open_in_memory().unwrap();
    Db::new(&conn).migrate().unwrap();
    conn
}

fn sample_file(hash: &str, path: &str, kind: FileKind, size: i64, tags: &[&str]) -> File {
    File {
        path: path.to_string(),
        info: FileInfo {
            hash: hash.to_string(),
            size,
            mime: None,
            kind,
            media: None,
            created_at: None,
            updated_at: Some(size),
        },
        meta: FileMeta {
            title: None,
            description: None,
            tags: tags.iter().map(|t| t.to_string()).collect(),
            sources: Vec::new(),
            hash: None,
        },
    }
}

#[test]
fn migrate_is_idempotent() {
    let conn = test_db();
    Db::new(&conn).migrate().unwrap();
}

#[test]
fn persist_then_get_round_trips() {
    let conn = test_db();
    let db = Db::new(&conn);
    let mut f = sample_file("h1", "a/cat.jpg", FileKind::Image, 42, &["cat", "cute"]);
    f.meta.title = Some("A cat".to_string());
    f.info.mime = Some("image/jpeg".to_string());
    db.file_persist(&f).unwrap();
    let got = db.file("h1").unwrap();
    assert_eq!(got.path, "a/cat.jpg");
    assert_eq!(got.info.hash, "h1");
    assert_eq!(got.info.size, 42);
    assert_eq!(got.info.mime.as_deref(), Some("image/jpeg"));
    assert_eq!(got.info.kind, FileKind::Image);
    assert_eq!(got.meta.title.as_deref(), Some("A cat"));
    let mut tags = got.meta.tags.clone();
    tags.sort();
    assert_eq!(tags, vec!["cat".to_string(), "cute".to_string()]);
    assert_eq!(got.meta.hash.as_deref(), Some("h1"));
}

#[test]
fn get_of_unknown_hash_is_not_found() {
    let conn = test_db();
    assert!(Db::new(&conn).file("missing").unwrap_err().is_not_found());
}

#[test]
fn upsert_twice_keeps_only_the_second_tag_set() {
    let conn = test_db();
    let db = Db::new(&conn);
    let f1 = sample_file("h1", "p", FileKind::Other, 1, &["old1", "old2", "kept"]);
    db.file_persist(&f1).unwrap();
    let f2 = sample_file("h1", "p", FileKind::Other, 1, &["kept", "new1"]);
    db.file_persist(&f2).unwrap();
    let mut tags = db.file("h1").unwrap().meta.tags;
    tags.sort();
    assert_eq!(tags, vec!["kept".to_string(), "new1".to_string()]);
}

#[test]
fn upsert_same_hash_replaces_the_row() {
    let conn = test_db();
    let db = Db::new(&conn);
    db.file_persist(&sample_file("h1", "first/path", FileKind::Other, 1, &[])).unwrap();
    db.file_persist(&sample_file("h1", "second/path", FileKind::Other, 2, &[])).unwrap();
    let got = db.file("h1").unwrap();
    assert_eq!(got.path, "second/path");
    assert_eq!(got.info.size, 2);
}

#[test]
fn delete_cascades_to_tags() {
    let conn = test_db();
    let db = Db::new(&conn);
    db.file_persist(&sample_file("h1", "p", FileKind::Other, 1, &["a", "b"])).unwrap();
    db.file_delete("h1").unwrap();
    assert!(db.file("h1").unwrap_err().is_not_found());
    let tags = db.files_tags(&vec!["h1".to_string()]).unwrap();
    assert_eq!(tags.len(), 1);
    assert!(tags[0].tags.is_empty());
}

#[test]
fn filter_returns_only_the_tagged_image() {
    let conn = test_db();
    let db = Db::new(&conn);
    db.file_persist(&sample_file("img", "a.jpg", FileKind::Image, 1, &["a"])).unwrap();
    db.file_persist(&sample_file("vid", "b.mp4", FileKind::Video, 2, &["a"])).unwrap();
    let query = FileQuery {
        page: 1,
        page_size: 10,
        filter: Some(FileFilter::And(
            Box::new(FileFilter::Tag("a".to_string())),
            Box::new(FileFilter::Kind(FileKind::Image)),
        )),
        sort: Vec::new(),
    };
    let page = db.files(query).unwrap();
    assert_eq!(page.total, 1);
    assert_eq!(page.items.len(), 1);
    assert_eq!(page.items[0].info.hash, "img");
    assert_eq!(page.items[0].meta.tags, vec!["a".to_string()]);
}

#[test]
fn filter_or_matches_either_branch() {
    let conn = test_db();
    let db = Db::new(&conn);
    db.file_persist(&sample_file("img", "a.jpg", FileKind::Image, 1, &[])).unwrap();
    db.file_persist(&sample_file("vid", "b.mp4", FileKind::Video, 2, &["x"])).unwrap();
    db.file_persist(&sample_file("oth", "c.txt", FileKind::Other, 3, &[])).unwrap();
    let query = FileQuery {
        page: 1,
        page_size: 10,
        filter: Some(FileFilter::Or(
            Box::new(FileFilter::Tag("x".to_string())),
            Box::new(FileFilter::Kind(FileKind::Image)),
        )),
        sort: Vec::new(),
    };
    let page = db.files(query).unwrap();
    assert_eq!(page.total, 2);
}

#[test]
fn pagination_counts_all_matches() {
    let conn = test_db();
    let db = Db::new(&conn);
    for i in 0..5i64 {
        db.file_persist(&sample_file(&format!("h{i}"), &format!("p{i}"), FileKind::Other, i, &[]))
            .unwrap();
    }
    let page = db
        .files(FileQuery { page: 1, page_size: 2, filter: None, sort: Vec::new() })
        .unwrap();
    assert_eq!(page.items.len(), 2);
    assert_eq!(page.total, 5);
    assert!(page.has_more());
}

#[test]
fn pagination_exact_full_page_still_claims_more() {
    // With 5 rows and page size 5 the single page comes back full, so the
    // "page is full" approximation reports a further page that does not
    // exist. The historical formula is kept; this pins it down.
    let conn = test_db();
    let db = Db::new(&conn);
    for i in 0..5i64 {
        db.file_persist(&sample_file(&format!("h{i}"), &format!("p{i}"), FileKind::Other, i, &[]))
            .unwrap();
    }
    let page = db
        .files(FileQuery { page: 1, page_size: 5, filter: None, sort: Vec::new() })
        .unwrap();
    assert_eq!(page.items.len(), 5);
    assert_eq!(page.total, 5);
    assert!(page.has_more());
}

#[test]
fn pagination_offset_double_counts_later_pages() {
    // The historical offset formula skips page * page_size rows for page 2
    // and later — one extra page's worth — so page 2 of 5 rows with page
    // size 2 starts at row 4 and yields a single row.
    let conn = test_db();
    let db = Db::new(&conn);
    for i in 0..5i64 {
        db.file_persist(&sample_file(&format!("h{i}"), &format!("p{i}"), FileKind::Other, i, &[]))
            .unwrap();
    }
    let sort = vec![FileSortItem { sort: FileSort::Size, ascending: true }];
    let page = db
        .files(FileQuery { page: 2, page_size: 2, filter: None, sort })
        .unwrap();
    assert_eq!(page.total, 5);
    assert_eq!(page.items.len(), 1);
    assert_eq!(page.items[0].info.hash, "h4");
}

#[test]
fn sort_orders_rows_by_the_first_key() {
    let conn = test_db();
    let db = Db::new(&conn);
    db.file_persist(&sample_file("h3", "p3", FileKind::Other, 3, &[])).unwrap();
    db.file_persist(&sample_file("h1", "p1", FileKind::Other, 1, &[])).unwrap();
    db.file_persist(&sample_file("h2", "p2", FileKind::Other, 2, &[])).unwrap();
    let asc = vec![FileSortItem { sort: FileSort::Size, ascending: true }];
    let page = db
        .files(FileQuery { page: 1, page_size: 10, filter: None, sort: asc })
        .unwrap();
    let hashes: Vec<&str> = page.items.iter().map(|f| f.info.hash.as_str()).collect();
    assert_eq!(hashes, vec!["h1", "h2", "h3"]);
    let desc = vec![FileSortItem { sort: FileSort::Size, ascending: false }];
    let page = db
        .files(FileQuery { page: 1, page_size: 10, filter: None, sort: desc })
        .unwrap();
    let hashes: Vec<&str> = page.items.iter().map(|f| f.info.hash.as_str()).collect();
    assert_eq!(hashes, vec!["h3", "h2", "h1"]);
}

#[test]
fn empty_sort_defaults_to_newest_update_first() {
    let conn = test_db();
    let db = Db::new(&conn);
    db.file_persist(&sample_file("h1", "p1", FileKind::Other, 1, &[])).unwrap();
    db.file_persist(&sample_file("h2", "p2", FileKind::Other, 2, &[])).unwrap();
    let page = db
        .files(FileQuery { page: 1, page_size: 10, filter: None, sort: Vec::new() })
        .unwrap();
    let hashes: Vec<&str> = page.items.iter().map(|f| f.info.hash.as_str()).collect();
    assert_eq!(hashes, vec!["h2", "h1"]);
}

#[test]
fn compiled_filter_fragment_and_params_are_exact() {
    let f = FileFilter::And(
        Box::new(FileFilter::Tag("a".to_string())),
        Box::new(FileFilter::Kind(FileKind::Image)),
    );
    let tag_test = " hash IN (SELECT file_hash FROM files_tags WHERE tag = ?) ";
    let (fragment, params) = file_filter_apply(&f);
    assert_eq!(fragment, format!(" ({} AND  kind = ?) ", tag_test));
    assert_eq!(params, vec!["a".to_string(), "image".to_string()]);
    let g = FileFilter::Or(Box::new(FileFilter::Tag("t".to_string())), Box::new(f));
    let (fragment, params) = file_filter_apply(&g);
    assert_eq!(fragment, format!(" ({} OR  ({} AND  kind = ?) ) ", tag_test, tag_test));
    assert_eq!(params, vec!["t".to_string(), "a".to_string(), "image".to_string()]);
}

#[test]
fn filter_eval_matches_the_tagged_image_only() {
    let f = FileFilter::And(
        Box::new(FileFilter::Tag("a".to_string())),
        Box::new(FileFilter::Kind(FileKind::Image)),
    );
    let tagged_a = vec!["a".to_string()];
    assert!(filter_eval(&f, FileKind::Image, &tagged_a));
    assert!(!filter_eval(&f, FileKind::Video, &tagged_a));
    assert!(!filter_eval(&f, FileKind::Image, &vec!["b".to_string()]));
}

#[test]
fn group_tags_splices_by_hash_match() {
    let hashes = vec!["h1".to_string(), "h2".to_string(), "h3".to_string()];
    let pairs = vec![
        ("h1".to_string(), "x".to_string()),
        ("h2".to_string(), "y".to_string()),
        ("h1".to_string(), "z".to_string()),
    ];
    let grouped = group_tags(&hashes, &pairs);
    assert_eq!(grouped.len(), 3);
    assert_eq!(grouped[0].file_hash, "h1");
    assert_eq!(grouped[0].tags, vec!["x".to_string(), "z".to_string()]);
    assert_eq!(grouped[1].tags, vec!["y".to_string()]);
    assert!(grouped[2].tags.is_empty());
}

#[test]
fn file_from_row_reads_the_kind_name_and_echoes_the_hash() {
    let row = FileRow {
        hash: "abc".to_string(),
        path: "p/q".to_string(),
        title: Some("t".to_string()),
        description: None,
        size: 7,
        mime: Some("audio/ogg".to_string()),
        kind: "audio".to_string(),
        created_at: Some(10),
        updated_at: Some(20),
    };
    let f = file_from_row(&row, vec!["one".to_string()]);
    assert_eq!(f.path, "p/q");
    assert_eq!(f.info.kind, FileKind::Audio);
    assert_eq!(f.info.created_at, Some(10));
    assert_eq!(f.info.updated_at, Some(20));
    assert_eq!(f.meta.tags, vec!["one".to_string()]);
    assert_eq!(f.meta.hash.as_deref(), Some("abc"));
    assert!(f.meta.sources.is_empty());
}

#[test]
fn persist_stamps_missing_timestamps_and_keeps_creation_time() {
    let conn = test_db();
    let db = Db::new(&conn);
    let mut f = sample_file("h1", "p", FileKind::Other, 1, &[]);
    f.info.created_at = Some(111);
    f.info.updated_at = None;
    db.file_persist(&f).unwrap();
    let first = db.file("h1").unwrap();
    assert_eq!(first.info.created_at, Some(111));
    assert!(first.info.updated_at.is_some());
    // A replacing upsert without timestamps keeps the creation time and
    // stamps a fresh update time.
    let mut g = sample_file("h1", "p", FileKind::Other, 2, &[]);
    g.info.created_at = None;
    g.info.updated_at = None;
    db.file_persist(&g).unwrap();
    let second = db.file("h1").unwrap();
    assert_eq!(second.info.created_at, Some(111));
    assert!(second.info.updated_at.is_some());
    assert_eq!(second.info.size, 2);
}
