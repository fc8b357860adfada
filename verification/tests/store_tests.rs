use mediavault::hash::compute_hash;
use mediavault::store::{check_safe_path, FileEntry, FsState, Storage, StorageItem};
use mediavault::types::{FileKind, FileMeta};

fn new_store() -> (Storage, FsState) {
    (Storage::new("data"), FsState::new())
}

fn meta_with(title: Option<&str>, tags: &[&str]) -> FileMeta {
    let mut m = FileMeta::empty();
    m.title = title.map(|t| t.to_string());
    m.tags = tags.iter().map(|t| t.to_string()).collect();
    m
}

#[test]
fn create_then_read_info_hashes_the_written_bytes() {
    let (st, mut fs) = new_store();
    let content = b"picture bytes".to_vec();
    let created = st
        .file_create(&mut fs, "pics/cat.jpg", FileMeta::empty(), content.clone(), Some("image/jpeg".to_string()))
        .unwrap();
    let direct = compute_hash(&content);
    assert_eq!(created.info.hash, direct);
    let info = st.file_info(&fs, "pics/cat.jpg").unwrap();
    assert_eq!(info.hash, direct);
    assert_eq!(info.size, content.len() as i64);
    assert_eq!(info.kind, FileKind::Image);
    assert_eq!(info.mime.as_deref(), Some("image/jpeg"));
}

#[test]
fn create_on_occupied_path_fails_and_keeps_content() {
    let (st, mut fs) = new_store();
    let first = b"first".to_vec();
    st.file_create(&mut fs, "a.txt", FileMeta::empty(), first.clone(), None).unwrap();
    let err = st
        .file_create(&mut fs, "a.txt", FileMeta::empty(), b"second".to_vec(), None)
        .unwrap_err();
    assert!(err.is_already_exists());
    let info = st.file_info(&fs, "a.txt").unwrap();
    assert_eq!(info.hash, compute_hash(&first));
}

#[test]
fn update_meta_then_read_meta_round_trips() {
    let (st, mut fs) = new_store();
    st.file_create(&mut fs, "song.mp3", FileMeta::empty(), b"audio".to_vec(), None).unwrap();
    let written = meta_with(Some("My Song"), &["music", "favorite"]);
    st.file_meta_update(&mut fs, "song.mp3", written.clone()).unwrap();
    let read = st.file_meta(&fs, "song.mp3").unwrap();
    assert_eq!(read.title.as_deref(), Some("My Song"));
    assert_eq!(read.tags, vec!["music".to_string(), "favorite".to_string()]);
    assert!(read.description.is_none());
    assert!(read.sources.is_empty());
}

#[test]
fn update_meta_on_missing_file_is_not_found() {
    let (st, mut fs) = new_store();
    let err = st.file_meta_update(&mut fs, "ghost.txt", FileMeta::empty()).unwrap_err();
    assert!(err.is_not_found());
}

#[test]
fn delete_then_reads_fail() {
    let (st, mut fs) = new_store();
    st.file_create(&mut fs, "doc.txt", meta_with(Some("t"), &["x"]), b"words".to_vec(), None)
        .unwrap();
    st.file_delete(&mut fs, "doc.txt").unwrap();
    assert!(st.file_info(&fs, "doc.txt").unwrap_err().is_not_found());
    assert!(st.file(&fs, "doc.txt").unwrap_err().is_not_found());
    // The sidecar is gone too: a metadata read reports the zero value.
    let m = st.file_meta(&fs, "doc.txt").unwrap();
    assert!(m.title.is_none() && m.tags.is_empty());
}

#[test]
fn delete_of_missing_content_is_not_found() {
    let (st, mut fs) = new_store();
    assert!(st.file_delete(&mut fs, "nothing.bin").unwrap_err().is_not_found());
}

#[test]
fn creates_on_distinct_paths_are_independent() {
    let (st, mut fs) = new_store();
    let c1 = b"one".to_vec();
    let c2 = b"two".to_vec();
    let f1 = st.file_create(&mut fs, "a/x.bin", FileMeta::empty(), c1.clone(), None).unwrap();
    let f2 = st.file_create(&mut fs, "b/y.bin", FileMeta::empty(), c2.clone(), None).unwrap();
    assert_eq!(f1.info.hash, compute_hash(&c1));
    assert_eq!(f2.info.hash, compute_hash(&c2));
    assert_eq!(st.file_info(&fs, "a/x.bin").unwrap().hash, compute_hash(&c1));
    assert_eq!(st.file_info(&fs, "b/y.bin").unwrap().hash, compute_hash(&c2));
}

#[test]
fn unsafe_paths_are_rejected() {
    let (st, mut fs) = new_store();
    for p in ["../escape.txt", "a/../b.txt", "a/..", "/absolute.txt", ""] {
        let err = st.file_create(&mut fs, p, FileMeta::empty(), b"x".to_vec(), None).unwrap_err();
        assert!(
            matches!(err, mediavault::error::VaultError::InvalidArgument(_)),
            "path {:?} should be rejected",
            p
        );
    }
    // Dots inside a segment do not make a path unsafe.
    assert!(check_safe_path("a..b/c.txt"));
    assert!(!check_safe_path("../x"));
}

#[test]
fn reserved_suffixes_are_rejected_on_create() {
    let (st, mut fs) = new_store();
    for p in ["x.meta.yaml", "x.gallery.yaml", "x.importer.js"] {
        let err = st.file_create(&mut fs, p, FileMeta::empty(), b"x".to_vec(), None).unwrap_err();
        assert!(matches!(err, mediavault::error::VaultError::InvalidArgument(_)));
    }
}

#[test]
fn file_read_rejects_misclassified_paths() {
    let (st, fs) = new_store();
    assert!(matches!(
        st.file(&fs, "g.gallery.yaml").unwrap_err(),
        mediavault::error::VaultError::InvalidArgument(_)
    ));
    assert!(matches!(
        st.file(&fs, "i.importer.js").unwrap_err(),
        mediavault::error::VaultError::InvalidArgument(_)
    ));
}

#[test]
fn absent_sidecar_reads_as_empty_meta() {
    let (st, mut fs) = new_store();
    fs.files.push(FileEntry { path: "bare.bin".to_string(), content: b"raw".to_vec(), mime: None });
    let m = st.file_meta(&fs, "bare.bin").unwrap();
    assert!(m.title.is_none() && m.description.is_none());
    assert!(m.tags.is_empty() && m.sources.is_empty() && m.hash.is_none());
}

#[test]
fn importer_loads_utf8_text() {
    let (st, mut fs) = new_store();
    fs.files.push(FileEntry {
        path: "fetch.importer.js".to_string(),
        content: b"console.log(1)".to_vec(),
        mime: None,
    });
    let imp = st.importer(&fs, "fetch.importer.js").unwrap();
    assert_eq!(imp.content, "console.log(1)");
    assert_eq!(imp.path, "fetch.importer.js");
}

#[test]
fn importer_rejects_invalid_utf8() {
    let (st, mut fs) = new_store();
    fs.files.push(FileEntry {
        path: "bad.importer.js".to_string(),
        content: vec![0xff, 0xfe, 0x80],
        mime: None,
    });
    assert!(matches!(
        st.importer(&fs, "bad.importer.js").unwrap_err(),
        mediavault::error::VaultError::MalformedData(_)
    ));
}

#[test]
fn items_enumerates_and_classifies() {
    let (st, mut fs) = new_store();
    st.file_create(&mut fs, "a/1.jpg", FileMeta::empty(), b"one".to_vec(), Some("image/jpeg".into()))
        .unwrap();
    st.file_create(&mut fs, "b/2.txt", FileMeta::empty(), b"two".to_vec(), None).unwrap();
    fs.files.push(FileEntry {
        path: "t.importer.js".to_string(),
        content: b"x()".to_vec(),
        mime: None,
    });
    let all = st.items(&fs, None);
    assert_eq!(all.len(), 3);
    let mut files = 0;
    let mut importers = 0;
    for it in &all {
        match it.as_ref().unwrap() {
            StorageItem::File(_) => files += 1,
            StorageItem::Importer(_) => importers += 1,
            StorageItem::Gallery(_) => panic!("no gallery was stored"),
        }
    }
    assert_eq!((files, importers), (2, 1));
    let scoped = st.items(&fs, Some("a"));
    assert_eq!(scoped.len(), 1);
    match scoped[0].as_ref().unwrap() {
        StorageItem::File(f) => assert_eq!(f.path, "a/1.jpg"),
        _ => panic!("expected the file under a/"),
    }
}

#[test]
fn paths_join_against_the_root() {
    let st = Storage::new("root/dir");
    assert_eq!(st.file_path("a/b.txt"), "root/dir/a/b.txt");
    assert_eq!(st.meta_path("a/b.txt"), "root/dir/a/b.txt.meta.yaml");
}

#[test]
fn check_wf_accepts_a_grown_tree_and_rejects_bad_states() {
    let (st, mut fs) = new_store();
    st.file_create(&mut fs, "a.txt", FileMeta::empty(), b"x".to_vec(), None).unwrap();
    assert!(fs.check_wf());
    // A duplicated file path breaks well-formedness.
    let mut dup = FsState::new();
    dup.files.push(FileEntry { path: "p".to_string(), content: Vec::new(), mime: None });
    dup.files.push(FileEntry { path: "p".to_string(), content: Vec::new(), mime: None });
    assert!(!dup.check_wf());
    // A file entry carrying the sidecar suffix breaks it too.
    let mut bad = FsState::new();
    bad.files.push(FileEntry { path: "x.meta.yaml".to_string(), content: Vec::new(), mime: None });
    assert!(!bad.check_wf());
}
