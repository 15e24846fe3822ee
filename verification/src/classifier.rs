//! Sorting files into broad categories by extension.

use vstd::prelude::*;
use crate::paths::{ascii_lower, is_ascii_text, is_one_of, lower_extension, lower_extension_spec, path_extension_of, str_views};

verus! {

/// Extensions of documents.
pub open spec fn document_extensions() -> Seq<Seq<char>> {
    seq!["pdf"@, "docx"@, "doc"@, "txt"@, "md"@, "rst"@, "rtf"@, "odt"@]
}

/// Extensions of spreadsheets.
pub open spec fn spreadsheet_extensions() -> Seq<Seq<char>> {
    seq!["xlsx"@, "xls"@, "csv"@, "ods"@]
}

/// Extensions of images.
pub open spec fn image_extensions() -> Seq<Seq<char>> {
    seq!["jpg"@, "jpeg"@, "png"@, "gif"@, "webp"@, "bmp"@, "tiff"@, "svg"@, "heic"@]
}

/// Extensions of videos.
pub open spec fn video_extensions() -> Seq<Seq<char>> {
    seq!["mp4"@, "mov"@, "avi"@, "mkv"@, "wmv"@, "flv"@, "webm"@, "m4v"@]
}

/// Extensions of audio files.
pub open spec fn audio_extensions() -> Seq<Seq<char>> {
    seq!["mp3"@, "wav"@, "flac"@, "aac"@, "ogg"@, "m4a"@, "wma"@]
}

/// Extensions of source code.
pub open spec fn code_extensions() -> Seq<Seq<char>> {
    seq![
        "py"@, "rs"@, "js"@, "ts"@, "tsx"@, "jsx"@, "go"@, "java"@, "c"@, "cpp"@, "h"@, "cs"@,
        "rb"@, "php"@, "swift"@, "kt"@, "scala"@, "sh"@, "bat"@,
    ]
}

/// Extensions of archives.
pub open spec fn archive_extensions() -> Seq<Seq<char>> {
    seq!["zip"@, "tar"@, "gz"@, "rar"@, "7z"@, "bz2"@, "xz"@]
}

/// Extensions of installers.
pub open spec fn installer_extensions() -> Seq<Seq<char>> {
    seq!["exe"@, "dmg"@, "pkg"@, "msi"@, "deb"@, "rpm"@, "appimage"@]
}

/// Extensions of fonts.
pub open spec fn font_extensions() -> Seq<Seq<char>> {
    seq!["ttf"@, "otf"@, "woff"@, "woff2"@, "eot"@]
}

/// The category of a (lower-case) extension; `other` when no table has it.
pub open spec fn category_of(ext: Seq<char>) -> Seq<char> {
    if document_extensions().contains(ext) {
        "document"@
    } else if spreadsheet_extensions().contains(ext) {
        "spreadsheet"@
    } else if image_extensions().contains(ext) {
        "image"@
    } else if video_extensions().contains(ext) {
        "video"@
    } else if audio_extensions().contains(ext) {
        "audio"@
    } else if code_extensions().contains(ext) {
        "code"@
    } else if archive_extensions().contains(ext) {
        "archive"@
    } else if installer_extensions().contains(ext) {
        "installer"@
    } else if font_extensions().contains(ext) {
        "font"@
    } else {
        "other"@
    }
}

/// The category of an extension that is already in lower case.
pub fn category_for_extension(ext: &str) -> (r: &'static str)
    ensures
        r@ == category_of(ext@),
{
    let document = ["pdf", "docx", "doc", "txt", "md", "rst", "rtf", "odt"];
    assert(str_views(document@) =~= document_extensions());
    if is_one_of(ext, &document) {
        return "document";
    }
    let spreadsheet = ["xlsx", "xls", "csv", "ods"];
    assert(str_views(spreadsheet@) =~= spreadsheet_extensions());
    if is_one_of(ext, &spreadsheet) {
        return "spreadsheet";
    }
    let image = ["jpg", "jpeg", "png", "gif", "webp", "bmp", "tiff", "svg", "heic"];
    assert(str_views(image@) =~= image_extensions());
    if is_one_of(ext, &image) {
        return "image";
    }
    let video = ["mp4", "mov", "avi", "mkv", "wmv", "flv", "webm", "m4v"];
    assert(str_views(video@) =~= video_extensions());
    if is_one_of(ext, &video) {
        return "video";
    }
    let audio = ["mp3", "wav", "flac", "aac", "ogg", "m4a", "wma"];
    assert(str_views(audio@) =~= audio_extensions());
    if is_one_of(ext, &audio) {
        return "audio";
    }
    let code = [
        "py", "rs", "js", "ts", "tsx", "jsx", "go", "java", "c", "cpp", "h", "cs", "rb", "php",
        "swift", "kt", "scala", "sh", "bat",
    ];
    assert(str_views(code@) =~= code_extensions());
    if is_one_of(ext, &code) {
        return "code";
    }
    let archive = ["zip", "tar", "gz", "rar", "7z", "bz2", "xz"];
    assert(str_views(archive@) =~= archive_extensions());
    if is_one_of(ext, &archive) {
        return "archive";
    }
    let installer = ["exe", "dmg", "pkg", "msi", "deb", "rpm", "appimage"];
    assert(str_views(installer@) =~= installer_extensions());
    if is_one_of(ext, &installer) {
        return "installer";
    }
    let font = ["ttf", "otf", "woff", "woff2", "eot"];
    assert(str_views(font@) =~= font_extensions());
    if is_one_of(ext, &font) {
        return "font";
    }
    "other"
}

/// The letters of each extension of the category tables.
proof fn lemma_extension_spellings()
    ensures
        "pdf"@ == seq!['p', 'd', 'f'],
        "pdf"@.len() == 3,
        "docx"@ == seq!['d', 'o', 'c', 'x'],
        "docx"@.len() == 4,
        "doc"@ == seq!['d', 'o', 'c'],
        "doc"@.len() == 3,
        "txt"@ == seq!['t', 'x', 't'],
        "txt"@.len() == 3,
        "md"@ == seq!['m', 'd'],
        "md"@.len() == 2,
        "rst"@ == seq!['r', 's', 't'],
        "rst"@.len() == 3,
        "rtf"@ == seq!['r', 't', 'f'],
        "rtf"@.len() == 3,
        "odt"@ == seq!['o', 'd', 't'],
        "odt"@.len() == 3,
        "xlsx"@ == seq!['x', 'l', 's', 'x'],
        "xlsx"@.len() == 4,
        "xls"@ == seq!['x', 'l', 's'],
        "xls"@.len() == 3,
        "csv"@ == seq!['c', 's', 'v'],
        "csv"@.len() == 3,
        "ods"@ == seq!['o', 'd', 's'],
        "ods"@.len() == 3,
        "jpg"@ == seq!['j', 'p', 'g'],
        "jpg"@.len() == 3,
        "jpeg"@ == seq!['j', 'p', 'e', 'g'],
        "jpeg"@.len() == 4,
        "png"@ == seq!['p', 'n', 'g'],
        "png"@.len() == 3,
        "gif"@ == seq!['g', 'i', 'f'],
        "gif"@.len() == 3,
        "webp"@ == seq!['w', 'e', 'b', 'p'],
        "webp"@.len() == 4,
        "bmp"@ == seq!['b', 'm', 'p'],
        "bmp"@.len() == 3,
        "tiff"@ == seq!['t', 'i', 'f', 'f'],
        "tiff"@.len() == 4,
        "svg"@ == seq!['s', 'v', 'g'],
        "svg"@.len() == 3,
        "heic"@ == seq!['h', 'e', 'i', 'c'],
        "heic"@.len() == 4,
        "mp4"@ == seq!['m', 'p', '4'],
        "mp4"@.len() == 3,
        "mov"@ == seq!['m', 'o', 'v'],
        "mov"@.len() == 3,
        "avi"@ == seq!['a', 'v', 'i'],
        "avi"@.len() == 3,
        "mkv"@ == seq!['m', 'k', 'v'],
        "mkv"@.len() == 3,
        "wmv"@ == seq!['w', 'm', 'v'],
        "wmv"@.len() == 3,
        "flv"@ == seq!['f', 'l', 'v'],
        "flv"@.len() == 3,
        "webm"@ == seq!['w', 'e', 'b', 'm'],
        "webm"@.len() == 4,
        "m4v"@ == seq!['m', '4', 'v'],
        "m4v"@.len() == 3,
        "mp3"@ == seq!['m', 'p', '3'],
        "mp3"@.len() == 3,
        "wav"@ == seq!['w', 'a', 'v'],
        "wav"@.len() == 3,
        "flac"@ == seq!['f', 'l', 'a', 'c'],
        "flac"@.len() == 4,
        "aac"@ == seq!['a', 'a', 'c'],
        "aac"@.len() == 3,
        "ogg"@ == seq!['o', 'g', 'g'],
        "ogg"@.len() == 3,
        "m4a"@ == seq!['m', '4', 'a'],
        "m4a"@.len() == 3,
        "wma"@ == seq!['w', 'm', 'a'],
        "wma"@.len() == 3,
        "py"@ == seq!['p', 'y'],
        "py"@.len() == 2,
        "rs"@ == seq!['r', 's'],
        "rs"@.len() == 2,
        "js"@ == seq!['j', 's'],
        "js"@.len() == 2,
        "ts"@ == seq!['t', 's'],
        "ts"@.len() == 2,
        "tsx"@ == seq!['t', 's', 'x'],
        "tsx"@.len() == 3,
        "jsx"@ == seq!['j', 's', 'x'],
        "jsx"@.len() == 3,
        "go"@ == seq!['g', 'o'],
        "go"@.len() == 2,
        "java"@ == seq!['j', 'a', 'v', 'a'],
        "java"@.len() == 4,
        "c"@ == seq!['c'],
        "c"@.len() == 1,
        "cpp"@ == seq!['c', 'p', 'p'],
        "cpp"@.len() == 3,
        "h"@ == seq!['h'],
        "h"@.len() == 1,
        "cs"@ == seq!['c', 's'],
        "cs"@.len() == 2,
        "rb"@ == seq!['r', 'b'],
        "rb"@.len() == 2,
        "php"@ == seq!['p', 'h', 'p'],
        "php"@.len() == 3,
        "swift"@ == seq!['s', 'w', 'i', 'f', 't'],
        "swift"@.len() == 5,
        "kt"@ == seq!['k', 't'],
        "kt"@.len() == 2,
        "scala"@ == seq!['s', 'c', 'a', 'l', 'a'],
        "scala"@.len() == 5,
        "sh"@ == seq!['s', 'h'],
        "sh"@.len() == 2,
        "bat"@ == seq!['b', 'a', 't'],
        "bat"@.len() == 3,
        "zip"@ == seq!['z', 'i', 'p'],
        "zip"@.len() == 3,
        "tar"@ == seq!['t', 'a', 'r'],
        "tar"@.len() == 3,
        "gz"@ == seq!['g', 'z'],
        "gz"@.len() == 2,
        "rar"@ == seq!['r', 'a', 'r'],
        "rar"@.len() == 3,
        "7z"@ == seq!['7', 'z'],
        "7z"@.len() == 2,
        "bz2"@ == seq!['b', 'z', '2'],
        "bz2"@.len() == 3,
        "xz"@ == seq!['x', 'z'],
        "xz"@.len() == 2,
        "exe"@ == seq!['e', 'x', 'e'],
        "exe"@.len() == 3,
        "dmg"@ == seq!['d', 'm', 'g'],
        "dmg"@.len() == 3,
        "pkg"@ == seq!['p', 'k', 'g'],
        "pkg"@.len() == 3,
        "msi"@ == seq!['m', 's', 'i'],
        "msi"@.len() == 3,
        "deb"@ == seq!['d', 'e', 'b'],
        "deb"@.len() == 3,
        "rpm"@ == seq!['r', 'p', 'm'],
        "rpm"@.len() == 3,
        "appimage"@ == seq!['a', 'p', 'p', 'i', 'm', 'a', 'g', 'e'],
        "appimage"@.len() == 8,
        "ttf"@ == seq!['t', 't', 'f'],
        "ttf"@.len() == 3,
        "otf"@ == seq!['o', 't', 'f'],
        "otf"@.len() == 3,
        "woff"@ == seq!['w', 'o', 'f', 'f'],
        "woff"@.len() == 4,
        "woff2"@ == seq!['w', 'o', 'f', 'f', '2'],
        "woff2"@.len() == 5,
        "eot"@ == seq!['e', 'o', 't'],
        "eot"@.len() == 3,
{
    reveal_strlit("pdf");
    reveal_strlit("docx");
    reveal_strlit("doc");
    reveal_strlit("txt");
    reveal_strlit("md");
    reveal_strlit("rst");
    reveal_strlit("rtf");
    reveal_strlit("odt");
    reveal_strlit("xlsx");
    reveal_strlit("xls");
    reveal_strlit("csv");
    reveal_strlit("ods");
    reveal_strlit("jpg");
    reveal_strlit("jpeg");
    reveal_strlit("png");
    reveal_strlit("gif");
    reveal_strlit("webp");
    reveal_strlit("bmp");
    reveal_strlit("tiff");
    reveal_strlit("svg");
    reveal_strlit("heic");
    reveal_strlit("mp4");
    reveal_strlit("mov");
    reveal_strlit("avi");
    reveal_strlit("mkv");
    reveal_strlit("wmv");
    reveal_strlit("flv");
    reveal_strlit("webm");
    reveal_strlit("m4v");
    reveal_strlit("mp3");
    reveal_strlit("wav");
    reveal_strlit("flac");
    reveal_strlit("aac");
    reveal_strlit("ogg");
    reveal_strlit("m4a");
    reveal_strlit("wma");
    reveal_strlit("py");
    reveal_strlit("rs");
    reveal_strlit("js");
    reveal_strlit("ts");
    reveal_strlit("tsx");
    reveal_strlit("jsx");
    reveal_strlit("go");
    reveal_strlit("java");
    reveal_strlit("c");
    reveal_strlit("cpp");
    reveal_strlit("h");
    reveal_strlit("cs");
    reveal_strlit("rb");
    reveal_strlit("php");
    reveal_strlit("swift");
    reveal_strlit("kt");
    reveal_strlit("scala");
    reveal_strlit("sh");
    reveal_strlit("bat");
    reveal_strlit("zip");
    reveal_strlit("tar");
    reveal_strlit("gz");
    reveal_strlit("rar");
    reveal_strlit("7z");
    reveal_strlit("bz2");
    reveal_strlit("xz");
    reveal_strlit("exe");
    reveal_strlit("dmg");
    reveal_strlit("pkg");
    reveal_strlit("msi");
    reveal_strlit("deb");
    reveal_strlit("rpm");
    reveal_strlit("appimage");
    reveal_strlit("ttf");
    reveal_strlit("otf");
    reveal_strlit("woff");
    reveal_strlit("woff2");
    reveal_strlit("eot");
}

/// Membership in the document table, extension by extension.
proof fn lemma_document_table(e: Seq<char>)
    ensures
        document_extensions().contains(e) <==> (e == "pdf"@ || e == "docx"@ || e == "doc"@ || e == "txt"@ || e == "md"@ || e == "rst"@ || e == "rtf"@ || e == "odt"@),
{
    let t = document_extensions();
    if t.contains(e) {
        let k = choose|k: int| 0 <= k < t.len() && t[k] == e;
        assert(k == 0 || k == 1 || k == 2 || k == 3 || k == 4 || k == 5 || k == 6 || k == 7);
    }
    if e == "pdf"@ {
        assert(t[0] == e);
    }
    if e == "docx"@ {
        assert(t[1] == e);
    }
    if e == "doc"@ {
        assert(t[2] == e);
    }
    if e == "txt"@ {
        assert(t[3] == e);
    }
    if e == "md"@ {
        assert(t[4] == e);
    }
    if e == "rst"@ {
        assert(t[5] == e);
    }
    if e == "rtf"@ {
        assert(t[6] == e);
    }
    if e == "odt"@ {
        assert(t[7] == e);
    }
}

/// Membership in the spreadsheet table, extension by extension.
proof fn lemma_spreadsheet_table(e: Seq<char>)
    ensures
        spreadsheet_extensions().contains(e) <==> (e == "xlsx"@ || e == "xls"@ || e == "csv"@ || e == "ods"@),
{
    let t = spreadsheet_extensions();
    if t.contains(e) {
        let k = choose|k: int| 0 <= k < t.len() && t[k] == e;
        assert(k == 0 || k == 1 || k == 2 || k == 3);
    }
    if e == "xlsx"@ {
        assert(t[0] == e);
    }
    if e == "xls"@ {
        assert(t[1] == e);
    }
    if e == "csv"@ {
        assert(t[2] == e);
    }
    if e == "ods"@ {
        assert(t[3] == e);
    }
}

/// Membership in the image table, extension by extension.
proof fn lemma_image_table(e: Seq<char>)
    ensures
        image_extensions().contains(e) <==> (e == "jpg"@ || e == "jpeg"@ || e == "png"@ || e == "gif"@ || e == "webp"@ || e == "bmp"@ || e == "tiff"@ || e == "svg"@ || e == "heic"@),
{
    let t = image_extensions();
    if t.contains(e) {
        let k = choose|k: int| 0 <= k < t.len() && t[k] == e;
        assert(k == 0 || k == 1 || k == 2 || k == 3 || k == 4 || k == 5 || k == 6 || k == 7 || k == 8);
    }
    if e == "jpg"@ {
        assert(t[0] == e);
    }
    if e == "jpeg"@ {
        assert(t[1] == e);
    }
    if e == "png"@ {
        assert(t[2] == e);
    }
    if e == "gif"@ {
        assert(t[3] == e);
    }
    if e == "webp"@ {
        assert(t[4] == e);
    }
    if e == "bmp"@ {
        assert(t[5] == e);
    }
    if e == "tiff"@ {
        assert(t[6] == e);
    }
    if e == "svg"@ {
        assert(t[7] == e);
    }
    if e == "heic"@ {
        assert(t[8] == e);
    }
}

/// Membership in the video table, extension by extension.
proof fn lemma_video_table(e: Seq<char>)
    ensures
        video_extensions().contains(e) <==> (e == "mp4"@ || e == "mov"@ || e == "avi"@ || e == "mkv"@ || e == "wmv"@ || e == "flv"@ || e == "webm"@ || e == "m4v"@),
{
    let t = video_extensions();
    if t.contains(e) {
        let k = choose|k: int| 0 <= k < t.len() && t[k] == e;
        assert(k == 0 || k == 1 || k == 2 || k == 3 || k == 4 || k == 5 || k == 6 || k == 7);
    }
    if e == "mp4"@ {
        assert(t[0] == e);
    }
    if e == "mov"@ {
        assert(t[1] == e);
    }
    if e == "avi"@ {
        assert(t[2] == e);
    }
    if e == "mkv"@ {
        assert(t[3] == e);
    }
    if e == "wmv"@ {
        assert(t[4] == e);
    }
    if e == "flv"@ {
        assert(t[5] == e);
    }
    if e == "webm"@ {
        assert(t[6] == e);
    }
    if e == "m4v"@ {
        assert(t[7] == e);
    }
}

/// Membership in the audio table, extension by extension.
proof fn lemma_audio_table(e: Seq<char>)
    ensures
        audio_extensions().contains(e) <==> (e == "mp3"@ || e == "wav"@ || e == "flac"@ || e == "aac"@ || e == "ogg"@ || e == "m4a"@ || e == "wma"@),
{
    let t = audio_extensions();
    if t.contains(e) {
        let k = choose|k: int| 0 <= k < t.len() && t[k] == e;
        assert(k == 0 || k == 1 || k == 2 || k == 3 || k == 4 || k == 5 || k == 6);
    }
    if e == "mp3"@ {
        assert(t[0] == e);
    }
    if e == "wav"@ {
        assert(t[1] == e);
    }
    if e == "flac"@ {
        assert(t[2] == e);
    }
    if e == "aac"@ {
        assert(t[3] == e);
    }
    if e == "ogg"@ {
        assert(t[4] == e);
    }
    if e == "m4a"@ {
        assert(t[5] == e);
    }
    if e == "wma"@ {
        assert(t[6] == e);
    }
}

/// Membership in the code table, extension by extension.
proof fn lemma_code_table(e: Seq<char>)
    ensures
        code_extensions().contains(e) <==> (e == "py"@ || e == "rs"@ || e == "js"@ || e == "ts"@ || e == "tsx"@ || e == "jsx"@ || e == "go"@ || e == "java"@ || e == "c"@ || e == "cpp"@ || e == "h"@ || e == "cs"@ || e == "rb"@ || e == "php"@ || e == "swift"@ || e == "kt"@ || e == "scala"@ || e == "sh"@ || e == "bat"@),
{
    let t = code_extensions();
    if t.contains(e) {
        let k = choose|k: int| 0 <= k < t.len() && t[k] == e;
        assert(k == 0 || k == 1 || k == 2 || k == 3 || k == 4 || k == 5 || k == 6 || k == 7 || k == 8 || k == 9 || k == 10 || k == 11 || k == 12 || k == 13 || k == 14 || k == 15 || k == 16 || k == 17 || k == 18);
    }
    if e == "py"@ {
        assert(t[0] == e);
    }
    if e == "rs"@ {
        assert(t[1] == e);
    }
    if e == "js"@ {
        assert(t[2] == e);
    }
    if e == "ts"@ {
        assert(t[3] == e);
    }
    if e == "tsx"@ {
        assert(t[4] == e);
    }
    if e == "jsx"@ {
        assert(t[5] == e);
    }
    if e == "go"@ {
        assert(t[6] == e);
    }
    if e == "java"@ {
        assert(t[7] == e);
    }
    if e == "c"@ {
        assert(t[8] == e);
    }
    if e == "cpp"@ {
        assert(t[9] == e);
    }
    if e == "h"@ {
        assert(t[10] == e);
    }
    if e == "cs"@ {
        assert(t[11] == e);
    }
    if e == "rb"@ {
        assert(t[12] == e);
    }
    if e == "php"@ {
        assert(t[13] == e);
    }
    if e == "swift"@ {
        assert(t[14] == e);
    }
    if e == "kt"@ {
        assert(t[15] == e);
    }
    if e == "scala"@ {
        assert(t[16] == e);
    }
    if e == "sh"@ {
        assert(t[17] == e);
    }
    if e == "bat"@ {
        assert(t[18] == e);
    }
}

/// Membership in the archive table, extension by extension.
proof fn lemma_archive_table(e: Seq<char>)
    ensures
        archive_extensions().contains(e) <==> (e == "zip"@ || e == "tar"@ || e == "gz"@ || e == "rar"@ || e == "7z"@ || e == "bz2"@ || e == "xz"@),
{
    let t = archive_extensions();
    if t.contains(e) {
        let k = choose|k: int| 0 <= k < t.len() && t[k] == e;
        assert(k == 0 || k == 1 || k == 2 || k == 3 || k == 4 || k == 5 || k == 6);
    }
    if e == "zip"@ {
        assert(t[0] == e);
    }
    if e == "tar"@ {
        assert(t[1] == e);
    }
    if e == "gz"@ {
        assert(t[2] == e);
    }
    if e == "rar"@ {
        assert(t[3] == e);
    }
    if e == "7z"@ {
        assert(t[4] == e);
    }
    if e == "bz2"@ {
        assert(t[5] == e);
    }
    if e == "xz"@ {
        assert(t[6] == e);
    }
}

/// Membership in the installer table, extension by extension.
proof fn lemma_installer_table(e: Seq<char>)
    ensures
        installer_extensions().contains(e) <==> (e == "exe"@ || e == "dmg"@ || e == "pkg"@ || e == "msi"@ || e == "deb"@ || e == "rpm"@ || e == "appimage"@),
{
    let t = installer_extensions();
    if t.contains(e) {
        let k = choose|k: int| 0 <= k < t.len() && t[k] == e;
        assert(k == 0 || k == 1 || k == 2 || k == 3 || k == 4 || k == 5 || k == 6);
    }
    if e == "exe"@ {
        assert(t[0] == e);
    }
    if e == "dmg"@ {
        assert(t[1] == e);
    }
    if e == "pkg"@ {
        assert(t[2] == e);
    }
    if e == "msi"@ {
        assert(t[3] == e);
    }
    if e == "deb"@ {
        assert(t[4] == e);
    }
    if e == "rpm"@ {
        assert(t[5] == e);
    }
    if e == "appimage"@ {
        assert(t[6] == e);
    }
}

/// Membership in the font table, extension by extension.
proof fn lemma_font_table(e: Seq<char>)
    ensures
        font_extensions().contains(e) <==> (e == "ttf"@ || e == "otf"@ || e == "woff"@ || e == "woff2"@ || e == "eot"@),
{
    let t = font_extensions();
    if t.contains(e) {
        let k = choose|k: int| 0 <= k < t.len() && t[k] == e;
        assert(k == 0 || k == 1 || k == 2 || k == 3 || k == 4);
    }
    if e == "ttf"@ {
        assert(t[0] == e);
    }
    if e == "otf"@ {
        assert(t[1] == e);
    }
    if e == "woff"@ {
        assert(t[2] == e);
    }
    if e == "woff2"@ {
        assert(t[3] == e);
    }
    if e == "eot"@ {
        assert(t[4] == e);
    }
}

/// Every document extension of its table (pdf, docx, doc, txt, md, rst,
/// rtf, odt) is in the category `document`.
pub proof fn law_document_extensions(e: Seq<char>)
    requires
        seq!["pdf"@, "docx"@, "doc"@, "txt"@, "md"@, "rst"@, "rtf"@, "odt"@].contains(e),
    ensures
        category_of(e) == "document"@,
{
    assert(seq!["pdf"@, "docx"@, "doc"@, "txt"@, "md"@, "rst"@, "rtf"@, "odt"@] == document_extensions());
    lemma_document_table(e);
    lemma_extension_spellings();
}

/// Every spreadsheet extension of its table (xlsx, xls, csv, ods) is in the
/// category `spreadsheet`.
pub proof fn law_spreadsheet_extensions(e: Seq<char>)
    requires
        seq!["xlsx"@, "xls"@, "csv"@, "ods"@].contains(e),
    ensures
        category_of(e) == "spreadsheet"@,
{
    assert(seq!["xlsx"@, "xls"@, "csv"@, "ods"@] == spreadsheet_extensions());
    lemma_document_table(e);
    lemma_spreadsheet_table(e);
    lemma_extension_spellings();
}

/// Every image extension of its table (jpg, jpeg, png, gif, webp, bmp,
/// tiff, svg, heic) is in the category `image`.
pub proof fn law_image_extensions(e: Seq<char>)
    requires
        seq!["jpg"@, "jpeg"@, "png"@, "gif"@, "webp"@, "bmp"@, "tiff"@, "svg"@, "heic"@].contains(e),
    ensures
        category_of(e) == "image"@,
{
    assert(seq!["jpg"@, "jpeg"@, "png"@, "gif"@, "webp"@, "bmp"@, "tiff"@, "svg"@, "heic"@] == image_extensions());
    lemma_document_table(e);
    lemma_spreadsheet_table(e);
    lemma_image_table(e);
    lemma_extension_spellings();
}

/// Every video extension of its table (mp4, mov, avi, mkv, wmv, flv, webm,
/// m4v) is in the category `video`.
pub proof fn law_video_extensions(e: Seq<char>)
    requires
        seq!["mp4"@, "mov"@, "avi"@, "mkv"@, "wmv"@, "flv"@, "webm"@, "m4v"@].contains(e),
    ensures
        category_of(e) == "video"@,
{
    assert(seq!["mp4"@, "mov"@, "avi"@, "mkv"@, "wmv"@, "flv"@, "webm"@, "m4v"@] == video_extensions());
    lemma_document_table(e);
    lemma_spreadsheet_table(e);
    lemma_image_table(e);
    lemma_video_table(e);
    lemma_extension_spellings();
}

/// Every audio extension of its table (mp3, wav, flac, aac, ogg, m4a, wma)
/// is in the category `audio`.
pub proof fn law_audio_extensions(e: Seq<char>)
    requires
        seq!["mp3"@, "wav"@, "flac"@, "aac"@, "ogg"@, "m4a"@, "wma"@].contains(e),
    ensures
        category_of(e) == "audio"@,
{
    assert(seq!["mp3"@, "wav"@, "flac"@, "aac"@, "ogg"@, "m4a"@, "wma"@] == audio_extensions());
    lemma_document_table(e);
    lemma_spreadsheet_table(e);
    lemma_image_table(e);
    lemma_video_table(e);
    lemma_audio_table(e);
    lemma_extension_spellings();
}

/// Every code extension of its table (py, rs, js, ts, tsx, jsx, go, java,
/// c, cpp, h, cs, rb, php, swift, kt, scala, sh, bat) is in the category
/// `code`.
pub proof fn law_code_extensions(e: Seq<char>)
    requires
        seq!["py"@, "rs"@, "js"@, "ts"@, "tsx"@, "jsx"@, "go"@, "java"@, "c"@, "cpp"@, "h"@, "cs"@, "rb"@, "php"@, "swift"@, "kt"@, "scala"@, "sh"@, "bat"@].contains(e),
    ensures
        category_of(e) == "code"@,
{
    assert(seq!["py"@, "rs"@, "js"@, "ts"@, "tsx"@, "jsx"@, "go"@, "java"@, "c"@, "cpp"@, "h"@, "cs"@, "rb"@, "php"@, "swift"@, "kt"@, "scala"@, "sh"@, "bat"@] == code_extensions());
    lemma_document_table(e);
    lemma_spreadsheet_table(e);
    lemma_image_table(e);
    lemma_video_table(e);
    lemma_audio_table(e);
    lemma_code_table(e);
    lemma_extension_spellings();
}

/// Every archive extension of its table (zip, tar, gz, rar, 7z, bz2, xz) is
/// in the category `archive`.
pub proof fn law_archive_extensions(e: Seq<char>)
    requires
        seq!["zip"@, "tar"@, "gz"@, "rar"@, "7z"@, "bz2"@, "xz"@].contains(e),
    ensures
        category_of(e) == "archive"@,
{
    assert(seq!["zip"@, "tar"@, "gz"@, "rar"@, "7z"@, "bz2"@, "xz"@] == archive_extensions());
    lemma_document_table(e);
    lemma_spreadsheet_table(e);
    lemma_image_table(e);
    lemma_video_table(e);
    lemma_audio_table(e);
    lemma_code_table(e);
    lemma_archive_table(e);
    lemma_extension_spellings();
}

/// Every installer extension of its table (exe, dmg, pkg, msi, deb, rpm,
/// appimage) is in the category `installer`.
pub proof fn law_installer_extensions(e: Seq<char>)
    requires
        seq!["exe"@, "dmg"@, "pkg"@, "msi"@, "deb"@, "rpm"@, "appimage"@].contains(e),
    ensures
        category_of(e) == "installer"@,
{
    assert(seq!["exe"@, "dmg"@, "pkg"@, "msi"@, "deb"@, "rpm"@, "appimage"@] == installer_extensions());
    lemma_document_table(e);
    lemma_spreadsheet_table(e);
    lemma_image_table(e);
    lemma_video_table(e);
    lemma_audio_table(e);
    lemma_code_table(e);
    lemma_archive_table(e);
    lemma_installer_table(e);
    lemma_extension_spellings();
}

/// Every font extension of its table (ttf, otf, woff, woff2, eot) is in the
/// category `font`.
pub proof fn law_font_extensions(e: Seq<char>)
    requires
        seq!["ttf"@, "otf"@, "woff"@, "woff2"@, "eot"@].contains(e),
    ensures
        category_of(e) == "font"@,
{
    assert(seq!["ttf"@, "otf"@, "woff"@, "woff2"@, "eot"@] == font_extensions());
    lemma_document_table(e);
    lemma_spreadsheet_table(e);
    lemma_image_table(e);
    lemma_video_table(e);
    lemma_audio_table(e);
    lemma_code_table(e);
    lemma_archive_table(e);
    lemma_installer_table(e);
    lemma_font_table(e);
    lemma_extension_spellings();
}

/// An extension that no table lists is in the category `other`.
pub proof fn law_other_extensions(e: Seq<char>)
    requires
        !seq!["pdf"@, "docx"@, "doc"@, "txt"@, "md"@, "rst"@, "rtf"@, "odt"@].contains(e),
        !seq!["xlsx"@, "xls"@, "csv"@, "ods"@].contains(e),
        !seq!["jpg"@, "jpeg"@, "png"@, "gif"@, "webp"@, "bmp"@, "tiff"@, "svg"@, "heic"@].contains(e),
        !seq!["mp4"@, "mov"@, "avi"@, "mkv"@, "wmv"@, "flv"@, "webm"@, "m4v"@].contains(e),
        !seq!["mp3"@, "wav"@, "flac"@, "aac"@, "ogg"@, "m4a"@, "wma"@].contains(e),
        !seq!["py"@, "rs"@, "js"@, "ts"@, "tsx"@, "jsx"@, "go"@, "java"@, "c"@, "cpp"@, "h"@, "cs"@, "rb"@, "php"@, "swift"@, "kt"@, "scala"@, "sh"@, "bat"@].contains(e),
        !seq!["zip"@, "tar"@, "gz"@, "rar"@, "7z"@, "bz2"@, "xz"@].contains(e),
        !seq!["exe"@, "dmg"@, "pkg"@, "msi"@, "deb"@, "rpm"@, "appimage"@].contains(e),
        !seq!["ttf"@, "otf"@, "woff"@, "woff2"@, "eot"@].contains(e),
    ensures
        category_of(e) == "other"@,
{
    assert(seq!["pdf"@, "docx"@, "doc"@, "txt"@, "md"@, "rst"@, "rtf"@, "odt"@] == document_extensions());
    assert(seq!["xlsx"@, "xls"@, "csv"@, "ods"@] == spreadsheet_extensions());
    assert(seq!["jpg"@, "jpeg"@, "png"@, "gif"@, "webp"@, "bmp"@, "tiff"@, "svg"@, "heic"@] == image_extensions());
    assert(seq!["mp4"@, "mov"@, "avi"@, "mkv"@, "wmv"@, "flv"@, "webm"@, "m4v"@] == video_extensions());
    assert(seq!["mp3"@, "wav"@, "flac"@, "aac"@, "ogg"@, "m4a"@, "wma"@] == audio_extensions());
    assert(seq!["py"@, "rs"@, "js"@, "ts"@, "tsx"@, "jsx"@, "go"@, "java"@, "c"@, "cpp"@, "h"@, "cs"@, "rb"@, "php"@, "swift"@, "kt"@, "scala"@, "sh"@, "bat"@] == code_extensions());
    assert(seq!["zip"@, "tar"@, "gz"@, "rar"@, "7z"@, "bz2"@, "xz"@] == archive_extensions());
    assert(seq!["exe"@, "dmg"@, "pkg"@, "msi"@, "deb"@, "rpm"@, "appimage"@] == installer_extensions());
    assert(seq!["ttf"@, "otf"@, "woff"@, "woff2"@, "eot"@] == font_extensions());
}

/// The category of a file, by the lower-case form of its extension: an
/// ASCII extension is matched whatever the case of its letters, and a path
/// without an extension is taken as having the empty one.
pub fn classify(path: &str) -> (r: &'static str)
    ensures
        r@ == category_of(lower_extension_spec(path@)),
        match path_extension_of(path@) {
            Some(e) => is_ascii_text(e) ==> r@ == category_of(ascii_lower(e)),
            None => r@ == category_of(Seq::empty()),
        },
{
    let ext = lower_extension(path);
    assert(path_extension_of(path@) is None ==> ext@ =~= Seq::<char>::empty());
    category_for_extension(ext.as_str())
}

} // verus!
