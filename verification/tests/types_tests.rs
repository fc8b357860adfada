use mediavault::types::{
    AudioInfo, FileInfo, FileKind, FileQuery, FileSort, FilesPage, ImageInfo, MediaInfo, VideoInfo,
};

#[test]
fn kind_from_mime_uses_the_type_prefix() {
    assert_eq!(FileKind::from_mime("image/png"), FileKind::Image);
    assert_eq!(FileKind::from_mime("image/"), FileKind::Image);
    assert_eq!(FileKind::from_mime("video/mp4"), FileKind::Video);
    assert_eq!(FileKind::from_mime("audio/ogg"), FileKind::Audio);
    assert_eq!(FileKind::from_mime("text/plain"), FileKind::Other);
    assert_eq!(FileKind::from_mime("imagery"), FileKind::Other);
    assert_eq!(FileKind::from_mime(""), FileKind::Other);
}

#[test]
fn kind_name_round_trip() {
    for k in [FileKind::Image, FileKind::Video, FileKind::Audio, FileKind::Other] {
        assert_eq!(FileKind::from_str(k.to_str()), k);
    }
    assert_eq!(FileKind::from_str("unknown"), FileKind::Other);
    assert_eq!(FileKind::Image.to_str(), "image");
    assert_eq!(FileKind::Video.to_str(), "video");
    assert_eq!(FileKind::Audio.to_str(), "audio");
    assert_eq!(FileKind::Other.to_str(), "other");
}

#[test]
fn media_info_dimensions() {
    let image = MediaInfo::Image(ImageInfo { width: 640, height: 480 });
    assert_eq!((image.width(), image.height(), image.length()), (Some(640), Some(480), None));
    let video = MediaInfo::Video(VideoInfo { width: 1920, height: 1080, length: 95 });
    assert_eq!((video.width(), video.height(), video.length()), (Some(1920), Some(1080), Some(95)));
    let audio = MediaInfo::Audio(AudioInfo { length: 240 });
    assert_eq!((audio.width(), audio.height(), audio.length()), (None, None, Some(240)));
}

#[test]
fn default_query_is_first_page_newest_first() {
    let q = FileQuery::default();
    assert_eq!(q.page, 1);
    assert_eq!(q.page_size, 30);
    assert!(q.filter.is_none());
    assert_eq!(q.sort.len(), 1);
    assert!(matches!(q.sort[0].sort, FileSort::Updated));
    assert!(!q.sort[0].ascending);
}

#[test]
fn has_more_means_the_page_came_back_full() {
    let full = FilesPage { items: Vec::new(), total: 0, page: 1, page_size: 0 };
    assert!(full.has_more());
    let partial = FilesPage { items: Vec::new(), total: 3, page: 1, page_size: 2 };
    assert!(!partial.has_more());
}

#[test]
fn is_image_looks_at_the_mime_prefix() {
    let mk = |mime: Option<&str>| FileInfo {
        hash: "h".into(),
        size: 0,
        mime: mime.map(|m| m.to_string()),
        kind: FileKind::Other,
        media: None,
        created_at: None,
        updated_at: None,
    };
    assert!(mk(Some("image/gif")).is_image());
    assert!(!mk(Some("video/mp4")).is_image());
    assert!(!mk(None).is_image());
}
