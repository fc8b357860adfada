use mediavault::facade::{merge_meta, App, Config};
use mediavault::db::Db;
use mediavault::store::FsState;
use mediavault::types::{FileMeta, FileQuery, FileUpdate};
use rusqlite::Connection;

fn setup() -> (App, Connection, FsState) {
    let app = App::new(Config { db_path: "ignored".to_string(), storage_path: "data".to_string() });
    let conn = Connection::open_in_memory().unwrap();
    Db::new(&conn).migrate().unwrap();
    (app, conn, FsState::new())
}

#[test]
fn index_then_lookup_finds_the_stored_file() {
    let (app, conn, mut fs) = setup();
    let created = app
        .storage
        .file_create(&mut fs, "pics/dog.png", FileMeta::empty(), b"dog bytes".to_vec(), Some("image/png".to_string()))
        .unwrap();
    app.index(&conn, &fs).unwrap();
    let got = app.file(&conn, &created.info.hash).unwrap();
    assert_eq!(got.path, "pics/dog.png");
    assert_eq!(got.info.hash, created.info.hash);
    let page = app.files(&conn, FileQuery::default()).unwrap();
    assert_eq!(page.total, 1);
    assert_eq!(page.items.len(), 1);
}

#[test]
fn update_merges_fields_and_writes_through() {
    let (app, conn, mut fs) = setup();
    let mut meta = FileMeta::empty();
    meta.title = Some("Old title".to_string());
    meta.description = Some("Old description".to_string());
    meta.tags = vec!["old".to_string()];
    let created = app
        .storage
        .file_create(&mut fs, "n.txt", meta, b"note".to_vec(), None)
        .unwrap();
    app.index(&conn, &fs).unwrap();
    let updated = app
        .file_update(&conn, &mut fs, FileUpdate {
            hash: created.info.hash.clone(),
            title: Some("New title".to_string()),
            description: None,
            tags: Some(vec!["fresh".to_string()]),
        })
        .unwrap();
    assert_eq!(updated.meta.title.as_deref(), Some("New title"));
    assert_eq!(updated.meta.description.as_deref(), Some("Old description"));
    assert_eq!(updated.meta.tags, vec!["fresh".to_string()]);
    // The sidecar holds the merged record.
    let stored = app.storage.file_meta(&fs, "n.txt").unwrap();
    assert_eq!(stored.title.as_deref(), Some("New title"));
    assert_eq!(stored.tags, vec!["fresh".to_string()]);
    // The index holds it too.
    let indexed = app.file(&conn, &created.info.hash).unwrap();
    assert_eq!(indexed.meta.title.as_deref(), Some("New title"));
    assert_eq!(indexed.meta.tags, vec!["fresh".to_string()]);
}

#[test]
fn delete_removes_store_content_and_index_row() {
    let (app, conn, mut fs) = setup();
    let created = app
        .storage
        .file_create(&mut fs, "gone.txt", FileMeta::empty(), b"bye".to_vec(), None)
        .unwrap();
    app.index(&conn, &fs).unwrap();
    app.file_delete(&conn, &mut fs, &created.info.hash).unwrap();
    assert!(app.file(&conn, &created.info.hash).unwrap_err().is_not_found());
    assert!(app.storage.file_info(&fs, "gone.txt").unwrap_err().is_not_found());
}

#[test]
fn delete_of_unknown_hash_is_not_found() {
    let (app, conn, mut fs) = setup();
    assert!(app.file_delete(&conn, &mut fs, "nope").unwrap_err().is_not_found());
}

#[test]
fn merge_keeps_unset_fields() {
    let mut cur = FileMeta::empty();
    cur.title = Some("kept".to_string());
    cur.tags = vec!["kept-tag".to_string()];
    let merged = merge_meta(
        &FileUpdate { hash: "h".to_string(), title: None, description: Some("d".to_string()), tags: None },
        cur,
    );
    assert_eq!(merged.title.as_deref(), Some("kept"));
    assert_eq!(merged.description.as_deref(), Some("d"));
    assert_eq!(merged.tags, vec!["kept-tag".to_string()]);
    assert!(merged.hash.is_none());
}

#[test]
fn index_skips_importer_scripts() {
    let (app, conn, mut fs) = setup();
    app.storage
        .file_create(&mut fs, "real.txt", FileMeta::empty(), b"data".to_vec(), None)
        .unwrap();
    fs.files.push(mediavault::store::FileEntry {
        path: "script.importer.js".to_string(),
        content: b"f()".to_vec(),
        mime: None,
    });
    app.index(&conn, &fs).unwrap();
    let page = app.files(&conn, FileQuery::default()).unwrap();
    assert_eq!(page.total, 1);
    assert_eq!(page.items[0].path, "real.txt");
}
