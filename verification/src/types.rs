//! The data model: media kinds, per-file derived info, authored metadata,
//! filter and query descriptions, and result pages.

use vstd::prelude::*;
use crate::strutil::{starts_with, str_starts_with, str_eq};

verus! {

/// Coarse media classification, derived from a MIME type prefix.
#[derive(PartialEq, Eq, Structural, Clone, Copy, Debug)]
pub enum FileKind {
    Image,
    Video,
    Audio,
    Other,
}

/// The kind a MIME string maps to, by its type prefix: `image/...`,
/// `video/...` and `audio/...` map to their kinds, everything else to
/// `Other`.
pub open spec fn kind_of_mime(m: Seq<char>) -> FileKind {
    if starts_with(m, "image/"@) {
        FileKind::Image
    } else if starts_with(m, "video/"@) {
        FileKind::Video
    } else if starts_with(m, "audio/"@) {
        FileKind::Audio
    } else {
        FileKind::Other
    }
}

/// The kind named by a kind column value; unknown names map to `Other`.
pub open spec fn kind_of_name(s: Seq<char>) -> FileKind {
    if s == "image"@ {
        FileKind::Image
    } else if s == "video"@ {
        FileKind::Video
    } else if s == "audio"@ {
        FileKind::Audio
    } else {
        FileKind::Other
    }
}

/// The column value a kind is stored under.
pub open spec fn kind_name(k: FileKind) -> Seq<char> {
    match k {
        FileKind::Image => "image"@,
        FileKind::Video => "video"@,
        FileKind::Audio => "audio"@,
        FileKind::Other => "other"@,
    }
}

impl FileKind {
    /// Classifies a MIME string by its type prefix.
    pub fn from_mime(value: &str) -> (r: Self)
        ensures
            r == kind_of_mime(value@),
    {
        if str_starts_with(value, "image/") {
            FileKind::Image
        } else if str_starts_with(value, "video/") {
            FileKind::Video
        } else if str_starts_with(value, "audio/") {
            FileKind::Audio
        } else {
            FileKind::Other
        }
    }

    /// Reads a kind back from its stored column value.
    pub fn from_str(value: &str) -> (r: Self)
        ensures
            r == kind_of_name(value@),
    {
        if str_eq(value, "image") {
            FileKind::Image
        } else if str_eq(value, "video") {
            FileKind::Video
        } else if str_eq(value, "audio") {
            FileKind::Audio
        } else {
            FileKind::Other
        }
    }

    /// The column value this kind is stored under.
    pub fn to_str(self) -> (r: &'static str)
        ensures
            r@ == kind_name(self),
    {
        match self {
            FileKind::Image => "image",
            FileKind::Video => "video",
            FileKind::Audio => "audio",
            FileKind::Other => "other",
        }
    }
}


/// A kind read back from its stored column value is the kind that was
/// stored: the four names are pairwise distinct.
pub proof fn lemma_kind_name_round_trip(k: FileKind)
    ensures
        kind_of_name(kind_name(k)) == k,
{
    reveal_strlit("image");
    reveal_strlit("video");
    reveal_strlit("audio");
    reveal_strlit("other");
    match k {
        FileKind::Image => {
        },
        FileKind::Video => {
            assert(kind_name(k)[0] == 'v');
            assert(kind_name(k) != "image"@);
        },
        FileKind::Audio => {
            assert(kind_name(k)[0] == 'a');
            assert(kind_name(k) != "image"@);
            assert(kind_name(k) != "video"@);
        },
        FileKind::Other => {
            assert(kind_name(k)[0] == 'o');
            assert(kind_name(k) != "image"@);
            assert(kind_name(k) != "video"@);
            assert(kind_name(k) != "audio"@);
        },
    }
}

/// Structured media info for an image.
#[derive(Clone, Copy, Debug)]
pub struct ImageInfo {
    pub width: u32,
    pub height: u32,
}

/// Structured media info for a video.
#[derive(Clone, Copy, Debug)]
pub struct VideoInfo {
    pub width: u32,
    pub height: u32,
    pub length: u32,
}

/// Structured media info for an audio stream.
#[derive(Clone, Copy, Debug)]
pub struct AudioInfo {
    pub length: u32,
}

/// Structured media info, present only for recognized media kinds.
#[derive(Clone, Copy, Debug)]
pub enum MediaInfo {
    Image(ImageInfo),
    Video(VideoInfo),
    Audio(AudioInfo),
}

impl MediaInfo {
    /// The pixel width, where the medium has one.
    pub fn width(&self) -> (r: Option<u32>)
        ensures
            r == match *self {
                MediaInfo::Image(i) => Some(i.width),
                MediaInfo::Video(v) => Some(v.width),
                MediaInfo::Audio(_) => None::<u32>,
            },
    {
        match self {
            MediaInfo::Image(i) => Some(i.width),
            MediaInfo::Video(v) => Some(v.width),
            MediaInfo::Audio(_) => None,
        }
    }

    /// The pixel height, where the medium has one.
    pub fn height(&self) -> (r: Option<u32>)
        ensures
            r == match *self {
                MediaInfo::Image(i) => Some(i.height),
                MediaInfo::Video(v) => Some(v.height),
                MediaInfo::Audio(_) => None::<u32>,
            },
    {
        match self {
            MediaInfo::Image(i) => Some(i.height),
            MediaInfo::Video(v) => Some(v.height),
            MediaInfo::Audio(_) => None,
        }
    }

    /// The duration in seconds, where the medium has one.
    pub fn length(&self) -> (r: Option<u32>)
        ensures
            r == match *self {
                MediaInfo::Video(v) => Some(v.length),
                MediaInfo::Audio(a) => Some(a.length),
                MediaInfo::Image(_) => None::<u32>,
            },
    {
        match self {
            MediaInfo::Video(v) => Some(v.length),
            MediaInfo::Audio(a) => Some(a.length),
            MediaInfo::Image(_) => None,
        }
    }
}

/// Derived (never authored) information about a stored file. The hash is
/// recomputed from the file's bytes; timestamps live on the index side only,
/// as seconds since the Unix epoch.
#[derive(Clone, Debug)]
pub struct FileInfo {
    pub hash: String,
    pub size: i64,
    pub mime: Option<String>,
    pub kind: FileKind,
    pub media: Option<MediaInfo>,
    pub created_at: Option<i64>,
    pub updated_at: Option<i64>,
}

impl FileInfo {
    /// Whether the detected MIME type is an image type.
    pub fn is_image(&self) -> (r: bool)
        ensures
            r == match self.mime {
                Some(m) => starts_with(m@, "image/"@),
                None => false,
            },
    {
        match &self.mime {
            Some(m) => str_starts_with(m.as_str(), "image/"),
            None => false,
        }
    }
}

/// One provenance record for a file: where it came from and what the source
/// said about it. The free-form extra payload is carried as raw text.
#[derive(Clone, Debug)]
pub struct FileSource {
    pub url: String,
    pub page_url: Option<String>,
    pub title: Option<String>,
    pub description: Option<String>,
    pub tags: Vec<String>,
    pub uploader: Option<String>,
    pub created_at: Option<i64>,
    pub extra: Option<String>,
}

/// Authored, mutable metadata for a file: the sidecar's content. The hash
/// field is an explicit override used only for sidecar identity on write; it
/// is `None` on read.
#[derive(Clone, Debug)]
pub struct FileMeta {
    pub title: Option<String>,
    pub description: Option<String>,
    pub tags: Vec<String>,
    pub sources: Vec<FileSource>,
    pub hash: Option<String>,
}

/// The zero-value metadata an absent sidecar stands for.
pub open spec fn is_empty_meta(m: FileMeta) -> bool {
    &&& m.title is None
    &&& m.description is None
    &&& m.tags@ == Seq::<String>::empty()
    &&& m.sources@ == Seq::<FileSource>::empty()
    &&& m.hash is None
}

impl FileMeta {
    /// The zero-value metadata: every field unset, no tags, no sources.
    pub fn empty() -> (r: FileMeta)
        ensures
            is_empty_meta(r),
    {
        FileMeta {
            title: None,
            description: None,
            tags: Vec::new(),
            sources: Vec::new(),
            hash: None,
        }
    }
}

impl Default for FileMeta {
    /// Same zero value as `FileMeta::empty`.
    fn default() -> (r: Self)
        ensures
            is_empty_meta(r),
    {
        FileMeta::empty()
    }
}

/// A stored file: its path, derived info and authored metadata.
#[derive(Clone, Debug)]
pub struct File {
    pub path: String,
    pub info: FileInfo,
    pub meta: FileMeta,
}

/// A partial update to a file's authored metadata, addressed by hash.
/// Unset fields keep their prior value; tags replace wholesale when supplied.
#[derive(Clone, Debug)]
pub struct FileUpdate {
    pub hash: String,
    pub title: Option<String>,
    pub description: Option<String>,
    pub tags: Option<Vec<String>>,
}

/// A boolean filter expression over tags and kinds.
#[derive(Debug)]
pub enum FileFilter {
    Tag(String),
    Kind(FileKind),
    And(Box<FileFilter>, Box<FileFilter>),
    Or(Box<FileFilter>, Box<FileFilter>),
}

/// A sortable column of the catalog index.
#[derive(PartialEq, Eq, Structural, Clone, Copy, Debug)]
pub enum FileSort {
    Updated,
    Created,
    Type,
    Size,
    Length,
}

/// One sort key with its direction.
#[derive(Clone, Copy, Debug)]
pub struct FileSortItem {
    pub sort: FileSort,
    pub ascending: bool,
}

/// A listing request: 1-based page, page size, optional filter, and sort
/// keys in priority order.
#[derive(Debug)]
pub struct FileQuery {
    pub page: u32,
    pub page_size: u32,
    pub filter: Option<FileFilter>,
    pub sort: Vec<FileSortItem>,
}

impl Default for FileQuery {
    /// First page of thirty, unfiltered, newest update first.
    fn default() -> (r: Self)
        ensures
            r.page == 1u32,
            r.page_size == 30u32,
            r.filter is None,
            r.sort@.len() == 1,
            r.sort@[0].sort == FileSort::Updated,
            r.sort@[0].ascending == false,
    {
        let mut sort: Vec<FileSortItem> = Vec::new();
        sort.push(FileSortItem { sort: FileSort::Updated, ascending: false });
        FileQuery { page: 1, page_size: 30, filter: None, sort }
    }
}

/// One page of listing results together with the total match count.
#[derive(Clone, Debug)]
pub struct FilesPage {
    pub items: Vec<File>,
    pub total: u32,
    pub page: u32,
    pub page_size: u32,
}

impl FilesPage {
    /// Whether a further page is assumed to exist. This approximates "more
    /// rows remain" by "this page came back full", which over-reports on a
    /// final page that is an exact multiple of the page size.
    pub fn has_more(&self) -> (r: bool)
        ensures
            r == (self.items@.len() == self.page_size as nat),
    {
        self.items.len() as u64 == self.page_size as u64
    }
}

/// The tag set the index holds for one file hash.
#[derive(Clone, Debug)]
pub struct FileTags {
    pub file_hash: String,
    pub tags: Vec<String>,
}

/// An owned copy of a string vector, equal element by element.
pub fn clone_strings(v: &Vec<String>) -> (r: Vec<String>)
    ensures
        r@ == v@,
{
    let mut out: Vec<String> = Vec::new();
    let mut i: usize = 0;
    while i < v.len()
        invariant
            i <= v@.len(),
            out@ == v@.subrange(0, i as int),
        decreases v@.len() - i,
    {
        out.push(v[i].clone());
        i += 1;
    }
    proof {
        assert(out@ =~= v@);
    }
    out
}

/// An owned copy of an optional string.
pub fn clone_opt_string(v: &Option<String>) -> (r: Option<String>)
    ensures
        r == *v,
{
    match v {
        Some(s) => Some(s.clone()),
        None => None,
    }
}

/// Deep equality of provenance records: equal fields, with vectors
/// compared by their contents.
pub open spec fn source_eq(a: FileSource, b: FileSource) -> bool {
    &&& a.url == b.url
    &&& a.page_url == b.page_url
    &&& a.title == b.title
    &&& a.description == b.description
    &&& a.tags@ == b.tags@
    &&& a.uploader == b.uploader
    &&& a.created_at == b.created_at
    &&& a.extra == b.extra
}

/// Deep equality of metadata records: equal fields, with vectors compared
/// by their contents.
pub open spec fn meta_eq(a: FileMeta, b: FileMeta) -> bool {
    &&& a.title == b.title
    &&& a.description == b.description
    &&& a.tags@ == b.tags@
    &&& a.sources@.len() == b.sources@.len()
    &&& forall|i: int| 0 <= i < a.sources@.len() ==> source_eq(a.sources@[i], b.sources@[i])
    &&& a.hash == b.hash
}

/// An owned copy of a provenance record, equal to the original.
pub fn clone_source(s: &FileSource) -> (r: FileSource)
    ensures
        source_eq(r, *s),
{
    FileSource {
        url: s.url.clone(),
        page_url: clone_opt_string(&s.page_url),
        title: clone_opt_string(&s.title),
        description: clone_opt_string(&s.description),
        tags: clone_strings(&s.tags),
        uploader: clone_opt_string(&s.uploader),
        created_at: s.created_at,
        extra: clone_opt_string(&s.extra),
    }
}

/// An owned copy of a source vector, deep-equal element by element.
pub fn clone_sources(v: &Vec<FileSource>) -> (r: Vec<FileSource>)
    ensures
        r@.len() == v@.len(),
        forall|i: int| 0 <= i < v@.len() ==> source_eq(r@[i], v@[i]),
{
    let mut out: Vec<FileSource> = Vec::new();
    let mut i: usize = 0;
    while i < v.len()
        invariant
            i <= v@.len(),
            out@.len() == i,
            forall|j: int| 0 <= j < i ==> source_eq(out@[j], v@[j]),
        decreases v@.len() - i,
    {
        out.push(clone_source(&v[i]));
        i += 1;
    }
    out
}

/// An owned copy of a metadata record, deep-equal to the original.
pub fn clone_meta(m: &FileMeta) -> (r: FileMeta)
    ensures
        meta_eq(r, *m),
{
    FileMeta {
        title: clone_opt_string(&m.title),
        description: clone_opt_string(&m.description),
        tags: clone_strings(&m.tags),
        sources: clone_sources(&m.sources),
        hash: clone_opt_string(&m.hash),
    }
}

} // verus!
