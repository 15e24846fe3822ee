//! What the preview pane shows for a file.

use vstd::prelude::*;
use crate::paths::{is_one_of, lower_extension, lower_extension_spec, str_views};
use crate::text::{decimal, take_chars, truncate_chars, u64_decimal};

verus! {

/// The preview of a file.
pub enum PreviewData {
    Pdf { path: String },
    Image { path: String },
    Video { path: String },
    Text { content: String, language: String },
    OfficeImages { image_paths: Vec<String> },
    OfficeFallback { text: String },
    Metadata { path: String, size: i64, modified_at: i64 },
}

/// How a file is previewed.
#[derive(Clone, Copy, Debug, PartialEq, Eq, Structural)]
pub enum PreviewKind {
    Pdf,
    Image,
    Video,
    Text,
    Office,
    Metadata,
}

/// Extensions of images shown as they are.
pub open spec fn previewed_image_extensions() -> Seq<Seq<char>> {
    seq!["jpg"@, "jpeg"@, "png"@, "gif"@, "webp"@, "bmp"@, "svg"@, "heic"@]
}

/// Extensions of videos played as they are.
pub open spec fn previewed_video_extensions() -> Seq<Seq<char>> {
    seq!["mp4"@, "mov"@, "avi"@, "mkv"@, "webm"@, "m4v"@]
}

/// Extensions of files shown as text.
pub open spec fn previewed_text_extensions() -> Seq<Seq<char>> {
    seq![
        "txt"@, "md"@, "json"@, "yaml"@, "toml"@, "xml"@, "html"@, "css"@, "js"@, "ts"@,
        "py"@, "rs"@, "go"@, "sh"@,
    ]
}

/// Extensions of office documents.
pub open spec fn office_extensions() -> Seq<Seq<char>> {
    seq!["docx"@, "xlsx"@, "pptx"@, "xls"@, "doc"@, "ppt"@]
}

/// How a file with this (lower-case) extension is previewed.
pub open spec fn preview_kind_of(ext: Seq<char>) -> PreviewKind {
    if seq!["pdf"@].contains(ext) {
        PreviewKind::Pdf
    } else if previewed_image_extensions().contains(ext) {
        PreviewKind::Image
    } else if previewed_video_extensions().contains(ext) {
        PreviewKind::Video
    } else if previewed_text_extensions().contains(ext) {
        PreviewKind::Text
    } else if office_extensions().contains(ext) {
        PreviewKind::Office
    } else {
        PreviewKind::Metadata
    }
}

/// How the file at `path` is previewed, by the lower-case form of its
/// extension.
pub fn preview_kind(path: &str) -> (k: PreviewKind)
    ensures
        k == preview_kind_of(lower_extension_spec(path@)),
{
    let ext = lower_extension(path);
    let e = ext.as_str();
    let pdf = ["pdf"];
    assert(str_views(pdf@) =~= seq!["pdf"@]);
    if is_one_of(e, &pdf) {
        return PreviewKind::Pdf;
    }
    let image = ["jpg", "jpeg", "png", "gif", "webp", "bmp", "svg", "heic"];
    assert(str_views(image@) =~= previewed_image_extensions());
    if is_one_of(e, &image) {
        return PreviewKind::Image;
    }
    let video = ["mp4", "mov", "avi", "mkv", "webm", "m4v"];
    assert(str_views(video@) =~= previewed_video_extensions());
    if is_one_of(e, &video) {
        return PreviewKind::Video;
    }
    let text = [
        "txt", "md", "json", "yaml", "toml", "xml", "html", "css", "js", "ts", "py", "rs", "go",
        "sh",
    ];
    assert(str_views(text@) =~= previewed_text_extensions());
    if is_one_of(e, &text) {
        return PreviewKind::Text;
    }
    let office = ["docx", "xlsx", "pptx", "xls", "doc", "ppt"];
    assert(str_views(office@) =~= office_extensions());
    if is_one_of(e, &office) {
        return PreviewKind::Office;
    }
    PreviewKind::Metadata
}

/// The most characters of a text file that a preview shows.
pub const MAX_TEXT_PREVIEW_CHARS: usize = 10_000;

/// The most characters of extracted office text that a preview shows.
pub const MAX_OFFICE_FALLBACK_CHARS: usize = 5_000;

/// The preview of a text file: its first characters and its language (the
/// lower-case extension).
pub fn text_preview(content: &str, language: &str) -> (p: PreviewData)
    ensures
        p matches PreviewData::Text { content: c, language: l }
            && c@ == take_chars(content@, MAX_TEXT_PREVIEW_CHARS as nat) && l@ == language@,
{
    PreviewData::Text {
        content: truncate_chars(content, MAX_TEXT_PREVIEW_CHARS),
        language: language.to_owned(),
    }
}

/// The preview of an office document without a converter: the first
/// characters of its extracted text.
pub fn office_fallback_preview(text: &str) -> (p: PreviewData)
    ensures
        p matches PreviewData::OfficeFallback { text: t } && t@ == take_chars(
            text@,
            MAX_OFFICE_FALLBACK_CHARS as nat,
        ),
{
    PreviewData::OfficeFallback { text: truncate_chars(text, MAX_OFFICE_FALLBACK_CHARS) }
}

/// The preview of any other file: its path, its size in bytes and its
/// modification time in milliseconds since the epoch (0 when unknown), each
/// converted to `i64` as `as` does.
pub fn metadata_preview(path: &str, len: u64, modified_ms: Option<u128>) -> (p: PreviewData)
    ensures
        p matches PreviewData::Metadata { path: q, size, modified_at } && q@ == path@ && size
            == len as i64 && modified_at == match modified_ms {
            Some(ms) => ms as i64,
            None => 0i64,
        },
{
    let modified_at: i64 = match modified_ms {
        Some(ms) => ms as i64,
        None => 0,
    };
    PreviewData::Metadata { path: path.to_owned(), size: len as i64, modified_at }
}

/// How many page images an office conversion is looked for.
pub const MAX_OFFICE_PAGES: u64 = 20;

/// The name of page image `i` of a converted document with stem `stem`:
/// `<stem>.png` for the first, `<stem><i>.png` for the others.
pub open spec fn office_image_name(stem: Seq<char>, i: nat) -> Seq<char> {
    if i == 0 {
        stem + ".png"@
    } else {
        stem + decimal(i as int) + ".png"@
    }
}

/// The names of the page images a converted document may have, in page
/// order.
pub fn office_image_names(stem: &str) -> (r: Vec<String>)
    ensures
        r@.len() == MAX_OFFICE_PAGES,
        forall|i: int| 0 <= i < r@.len() ==> (#[trigger] r@[i])@ == office_image_name(stem@, i as nat),
{
    let mut r: Vec<String> = Vec::new();
    let mut i: u64 = 0;
    while i < MAX_OFFICE_PAGES
        invariant
            i <= MAX_OFFICE_PAGES,
            r@.len() == i,
            forall|k: int| 0 <= k < i ==> (#[trigger] r@[k])@ == office_image_name(stem@, k as nat),
        decreases MAX_OFFICE_PAGES - i,
    {
        let mut name = String::from_str(stem);
        if i > 0 {
            let d = u64_decimal(i);
            name.append(d.as_str());
        }
        name.append(".png");
        r.push(name);
        i += 1;
    }
    r
}

} // verus!
