//! Deciding how text is extracted from a file, and assembling the text of
//! the formats whose structure the crate reads itself.

use vstd::prelude::*;
use crate::paths::{is_one_of, lower_extension, lower_extension_spec, path_file_name, path_file_name_of, str_views};
use crate::pipeline::name_or_empty;
use crate::text::{decimal, u64_decimal, chars_of, join_strings, join_with, push_char, string_from_chars, take_chars, truncate_chars, views};

verus! {

/// How the text of a file is obtained.
#[derive(Clone, Copy, Debug, PartialEq, Eq, Structural)]
pub enum TextSource {
    Pdf,
    Docx,
    Spreadsheet,
    Slides,
    PlainText,
    Ocr,
    Unsupported,
}

/// Extensions of files read as plain text.
pub open spec fn plain_text_extensions() -> Seq<Seq<char>> {
    seq![
        "txt"@, "md"@, "rst"@, "log"@, "json"@, "yaml"@, "yml"@, "toml"@, "xml"@, "html"@,
        "css"@, "js"@, "ts"@, "tsx"@, "jsx"@, "py"@, "rs"@, "go"@, "java"@, "c"@, "cpp"@,
        "h"@, "sh"@, "bat"@, "ps1"@, "rb"@, "php"@, "swift"@, "kt"@, "scala"@,
    ]
}

/// Extensions of images whose text is recognised optically.
pub open spec fn ocr_extensions() -> Seq<Seq<char>> {
    seq!["jpg"@, "jpeg"@, "png"@, "gif"@, "webp"@, "bmp"@, "tiff"@]
}

/// The text source of a (lower-case) extension.
pub open spec fn text_source_of(ext: Seq<char>) -> TextSource {
    if ext == "pdf"@ {
        TextSource::Pdf
    } else if ext == "docx"@ {
        TextSource::Docx
    } else if seq!["xlsx"@, "xls"@, "csv"@].contains(ext) {
        TextSource::Spreadsheet
    } else if ext == "pptx"@ {
        TextSource::Slides
    } else if plain_text_extensions().contains(ext) {
        TextSource::PlainText
    } else if ocr_extensions().contains(ext) {
        TextSource::Ocr
    } else {
        TextSource::Unsupported
    }
}

/// The letters of each extension that chooses a text source.
proof fn lemma_source_spellings()
    ensures
        "pdf"@ == seq!['p', 'd', 'f'],
        "pdf"@.len() == 3,
        "docx"@ == seq!['d', 'o', 'c', 'x'],
        "docx"@.len() == 4,
        "pptx"@ == seq!['p', 'p', 't', 'x'],
        "pptx"@.len() == 4,
        "xlsx"@ == seq!['x', 'l', 's', 'x'],
        "xlsx"@.len() == 4,
        "xls"@ == seq!['x', 'l', 's'],
        "xls"@.len() == 3,
        "csv"@ == seq!['c', 's', 'v'],
        "csv"@.len() == 3,
        "txt"@ == seq!['t', 'x', 't'],
        "txt"@.len() == 3,
        "md"@ == seq!['m', 'd'],
        "md"@.len() == 2,
        "rst"@ == seq!['r', 's', 't'],
        "rst"@.len() == 3,
        "log"@ == seq!['l', 'o', 'g'],
        "log"@.len() == 3,
        "json"@ == seq!['j', 's', 'o', 'n'],
        "json"@.len() == 4,
        "yaml"@ == seq!['y', 'a', 'm', 'l'],
        "yaml"@.len() == 4,
        "yml"@ == seq!['y', 'm', 'l'],
        "yml"@.len() == 3,
        "toml"@ == seq!['t', 'o', 'm', 'l'],
        "toml"@.len() == 4,
        "xml"@ == seq!['x', 'm', 'l'],
        "xml"@.len() == 3,
        "html"@ == seq!['h', 't', 'm', 'l'],
        "html"@.len() == 4,
        "css"@ == seq!['c', 's', 's'],
        "css"@.len() == 3,
        "js"@ == seq!['j', 's'],
        "js"@.len() == 2,
        "ts"@ == seq!['t', 's'],
        "ts"@.len() == 2,
        "tsx"@ == seq!['t', 's', 'x'],
        "tsx"@.len() == 3,
        "jsx"@ == seq!['j', 's', 'x'],
        "jsx"@.len() == 3,
        "py"@ == seq!['p', 'y'],
        "py"@.len() == 2,
        "rs"@ == seq!['r', 's'],
        "rs"@.len() == 2,
        "go"@ == seq!['g', 'o'],
        "go"@.len() == 2,
        "java"@ == seq!['j', 'a', 'v', 'a'],
        "java"@.len() == 4,
        "c"@ == seq!['c'],
        "c"@.len() == 1,
        "cpp"@ == seq!['c', 'p', 'p'],
        "cpp"@.len() == 3,
        "h"@ == seq!['h'],
        "h"@.len() == 1,
        "sh"@ == seq!['s', 'h'],
        "sh"@.len() == 2,
        "bat"@ == seq!['b', 'a', 't'],
        "bat"@.len() == 3,
        "ps1"@ == seq!['p', 's', '1'],
        "ps1"@.len() == 3,
        "rb"@ == seq!['r', 'b'],
        "rb"@.len() == 2,
        "php"@ == seq!['p', 'h', 'p'],
        "php"@.len() == 3,
        "swift"@ == seq!['s', 'w', 'i', 'f', 't'],
        "swift"@.len() == 5,
        "kt"@ == seq!['k', 't'],
        "kt"@.len() == 2,
        "scala"@ == seq!['s', 'c', 'a', 'l', 'a'],
        "scala"@.len() == 5,
        "jpg"@ == seq!['j', 'p', 'g'],
        "jpg"@.len() == 3,
        "jpeg"@ == seq!['j', 'p', 'e', 'g'],
        "jpeg"@.len() == 4,
        "png"@ == seq!['p', 'n', 'g'],
        "png"@.len() == 3,
        "gif"@ == seq!['g', 'i', 'f'],
        "gif"@.len() == 3,
        "webp"@ == seq!['w', 'e', 'b', 'p'],
        "webp"@.len() == 4,
        "bmp"@ == seq!['b', 'm', 'p'],
        "bmp"@.len() == 3,
        "tiff"@ == seq!['t', 'i', 'f', 'f'],
        "tiff"@.len() == 4,
{
    reveal_strlit("pdf");
    reveal_strlit("docx");
    reveal_strlit("pptx");
    reveal_strlit("xlsx");
    reveal_strlit("xls");
    reveal_strlit("csv");
    reveal_strlit("txt");
    reveal_strlit("md");
    reveal_strlit("rst");
    reveal_strlit("log");
    reveal_strlit("json");
    reveal_strlit("yaml");
    reveal_strlit("yml");
    reveal_strlit("toml");
    reveal_strlit("xml");
    reveal_strlit("html");
    reveal_strlit("css");
    reveal_strlit("js");
    reveal_strlit("ts");
    reveal_strlit("tsx");
    reveal_strlit("jsx");
    reveal_strlit("py");
    reveal_strlit("rs");
    reveal_strlit("go");
    reveal_strlit("java");
    reveal_strlit("c");
    reveal_strlit("cpp");
    reveal_strlit("h");
    reveal_strlit("sh");
    reveal_strlit("bat");
    reveal_strlit("ps1");
    reveal_strlit("rb");
    reveal_strlit("php");
    reveal_strlit("swift");
    reveal_strlit("kt");
    reveal_strlit("scala");
    reveal_strlit("jpg");
    reveal_strlit("jpeg");
    reveal_strlit("png");
    reveal_strlit("gif");
    reveal_strlit("webp");
    reveal_strlit("bmp");
    reveal_strlit("tiff");
}

/// Membership in the spreadsheet extensions, extension by extension.
proof fn lemma_sheet_names(e: Seq<char>)
    ensures
        seq!["xlsx"@, "xls"@, "csv"@].contains(e) <==> (e == "xlsx"@ || e == "xls"@ || e == "csv"@),
{
    let t = seq!["xlsx"@, "xls"@, "csv"@];
    if t.contains(e) {
        let k = choose|k: int| 0 <= k < t.len() && t[k] == e;
        assert(k == 0 || k == 1 || k == 2);
    }
    if e == "xlsx"@ {
        assert(t[0] == e);
    }
    if e == "xls"@ {
        assert(t[1] == e);
    }
    if e == "csv"@ {
        assert(t[2] == e);
    }
}

/// Membership in the plain-text extensions, extension by extension.
proof fn lemma_plain_names(e: Seq<char>)
    ensures
        seq!["txt"@, "md"@, "rst"@, "log"@, "json"@, "yaml"@, "yml"@, "toml"@, "xml"@, "html"@, "css"@, "js"@, "ts"@, "tsx"@, "jsx"@, "py"@, "rs"@, "go"@, "java"@, "c"@, "cpp"@, "h"@, "sh"@, "bat"@, "ps1"@, "rb"@, "php"@, "swift"@, "kt"@, "scala"@].contains(e) <==> (e == "txt"@ || e == "md"@ || e == "rst"@ || e == "log"@ || e == "json"@ || e == "yaml"@ || e == "yml"@ || e == "toml"@ || e == "xml"@ || e == "html"@ || e == "css"@ || e == "js"@ || e == "ts"@ || e == "tsx"@ || e == "jsx"@ || e == "py"@ || e == "rs"@ || e == "go"@ || e == "java"@ || e == "c"@ || e == "cpp"@ || e == "h"@ || e == "sh"@ || e == "bat"@ || e == "ps1"@ || e == "rb"@ || e == "php"@ || e == "swift"@ || e == "kt"@ || e == "scala"@),
{
    let t = seq!["txt"@, "md"@, "rst"@, "log"@, "json"@, "yaml"@, "yml"@, "toml"@, "xml"@, "html"@, "css"@, "js"@, "ts"@, "tsx"@, "jsx"@, "py"@, "rs"@, "go"@, "java"@, "c"@, "cpp"@, "h"@, "sh"@, "bat"@, "ps1"@, "rb"@, "php"@, "swift"@, "kt"@, "scala"@];
    if t.contains(e) {
        let k = choose|k: int| 0 <= k < t.len() && t[k] == e;
        assert(k == 0 || k == 1 || k == 2 || k == 3 || k == 4 || k == 5 || k == 6 || k == 7 || k == 8 || k == 9 || k == 10 || k == 11 || k == 12 || k == 13 || k == 14 || k == 15 || k == 16 || k == 17 || k == 18 || k == 19 || k == 20 || k == 21 || k == 22 || k == 23 || k == 24 || k == 25 || k == 26 || k == 27 || k == 28 || k == 29);
    }
    if e == "txt"@ {
        assert(t[0] == e);
    }
    if e == "md"@ {
        assert(t[1] == e);
    }
    if e == "rst"@ {
        assert(t[2] == e);
    }
    if e == "log"@ {
        assert(t[3] == e);
    }
    if e == "json"@ {
        assert(t[4] == e);
    }
    if e == "yaml"@ {
        assert(t[5] == e);
    }
    if e == "yml"@ {
        assert(t[6] == e);
    }
    if e == "toml"@ {
        assert(t[7] == e);
    }
    if e == "xml"@ {
        assert(t[8] == e);
    }
    if e == "html"@ {
        assert(t[9] == e);
    }
    if e == "css"@ {
        assert(t[10] == e);
    }
    if e == "js"@ {
        assert(t[11] == e);
    }
    if e == "ts"@ {
        assert(t[12] == e);
    }
    if e == "tsx"@ {
        assert(t[13] == e);
    }
    if e == "jsx"@ {
        assert(t[14] == e);
    }
    if e == "py"@ {
        assert(t[15] == e);
    }
    if e == "rs"@ {
        assert(t[16] == e);
    }
    if e == "go"@ {
        assert(t[17] == e);
    }
    if e == "java"@ {
        assert(t[18] == e);
    }
    if e == "c"@ {
        assert(t[19] == e);
    }
    if e == "cpp"@ {
        assert(t[20] == e);
    }
    if e == "h"@ {
        assert(t[21] == e);
    }
    if e == "sh"@ {
        assert(t[22] == e);
    }
    if e == "bat"@ {
        assert(t[23] == e);
    }
    if e == "ps1"@ {
        assert(t[24] == e);
    }
    if e == "rb"@ {
        assert(t[25] == e);
    }
    if e == "php"@ {
        assert(t[26] == e);
    }
    if e == "swift"@ {
        assert(t[27] == e);
    }
    if e == "kt"@ {
        assert(t[28] == e);
    }
    if e == "scala"@ {
        assert(t[29] == e);
    }
}

/// Membership in the image extensions read optically, extension by extension.
proof fn lemma_ocr_names(e: Seq<char>)
    ensures
        seq!["jpg"@, "jpeg"@, "png"@, "gif"@, "webp"@, "bmp"@, "tiff"@].contains(e) <==> (e == "jpg"@ || e == "jpeg"@ || e == "png"@ || e == "gif"@ || e == "webp"@ || e == "bmp"@ || e == "tiff"@),
{
    let t = seq!["jpg"@, "jpeg"@, "png"@, "gif"@, "webp"@, "bmp"@, "tiff"@];
    if t.contains(e) {
        let k = choose|k: int| 0 <= k < t.len() && t[k] == e;
        assert(k == 0 || k == 1 || k == 2 || k == 3 || k == 4 || k == 5 || k == 6);
    }
    if e == "jpg"@ {
        assert(t[0] == e);
    }
    if e == "jpeg"@ {
        assert(t[1] == e);
    }
    if e == "png"@ {
        assert(t[2] == e);
    }
    if e == "gif"@ {
        assert(t[3] == e);
    }
    if e == "webp"@ {
        assert(t[4] == e);
    }
    if e == "bmp"@ {
        assert(t[5] == e);
    }
    if e == "tiff"@ {
        assert(t[6] == e);
    }
}

/// Each extension is read by its reader: `pdf` as a PDF, `docx` as a Word
/// document, `xlsx`, `xls` and `csv` as spreadsheets, `pptx` as slides, the
/// text and source formats (txt, md, rst, log, json, yaml, yml, toml, xml,
/// html, css, js, ts, tsx, jsx, py, rs, go, java, c, cpp, h, sh, bat, ps1,
/// rb, php, swift, kt, scala) as plain text, the images (jpg, jpeg, png, gif,
/// webp, bmp, tiff) optically, and any other extension not at all.
pub proof fn law_text_source_dispatch(e: Seq<char>)
    ensures
        e == "pdf"@ ==> text_source_of(e) == TextSource::Pdf,
        e == "docx"@ ==> text_source_of(e) == TextSource::Docx,
        seq!["xlsx"@, "xls"@, "csv"@].contains(e) ==> text_source_of(e) == TextSource::Spreadsheet,
        e == "pptx"@ ==> text_source_of(e) == TextSource::Slides,
        seq!["txt"@, "md"@, "rst"@, "log"@, "json"@, "yaml"@, "yml"@, "toml"@, "xml"@, "html"@, "css"@, "js"@, "ts"@, "tsx"@, "jsx"@, "py"@, "rs"@, "go"@, "java"@, "c"@, "cpp"@, "h"@, "sh"@, "bat"@, "ps1"@, "rb"@, "php"@, "swift"@, "kt"@, "scala"@].contains(e) ==> text_source_of(e) == TextSource::PlainText,
        seq!["jpg"@, "jpeg"@, "png"@, "gif"@, "webp"@, "bmp"@, "tiff"@].contains(e) ==> text_source_of(e) == TextSource::Ocr,
        (e != "pdf"@ && e != "docx"@ && !seq!["xlsx"@, "xls"@, "csv"@].contains(e) && e != "pptx"@ && !seq!["txt"@, "md"@, "rst"@, "log"@, "json"@, "yaml"@, "yml"@, "toml"@, "xml"@, "html"@, "css"@, "js"@, "ts"@, "tsx"@, "jsx"@, "py"@, "rs"@, "go"@, "java"@, "c"@, "cpp"@, "h"@, "sh"@, "bat"@, "ps1"@, "rb"@, "php"@, "swift"@, "kt"@, "scala"@].contains(e)
            && !seq!["jpg"@, "jpeg"@, "png"@, "gif"@, "webp"@, "bmp"@, "tiff"@].contains(e)) ==> text_source_of(e) == TextSource::Unsupported,
{
    lemma_source_spellings();
    lemma_sheet_names(e);
    lemma_plain_names(e);
    lemma_ocr_names(e);
    assert(seq!["txt"@, "md"@, "rst"@, "log"@, "json"@, "yaml"@, "yml"@, "toml"@, "xml"@, "html"@, "css"@, "js"@, "ts"@, "tsx"@, "jsx"@, "py"@, "rs"@, "go"@, "java"@, "c"@, "cpp"@, "h"@, "sh"@, "bat"@, "ps1"@, "rb"@, "php"@, "swift"@, "kt"@, "scala"@] == plain_text_extensions());
    assert(seq!["jpg"@, "jpeg"@, "png"@, "gif"@, "webp"@, "bmp"@, "tiff"@] == ocr_extensions());
}

/// The text source of an extension that is already in lower case.
pub fn text_source_for_extension(ext: &str) -> (r: TextSource)
    ensures
        r == text_source_of(ext@),
{
    let pdf = ["pdf"];
    assert(str_views(pdf@) =~= seq!["pdf"@]);
    assert(seq!["pdf"@][0] == "pdf"@);
    if is_one_of(ext, &pdf) {
        return TextSource::Pdf;
    }
    let docx = ["docx"];
    assert(str_views(docx@) =~= seq!["docx"@]);
    assert(seq!["docx"@][0] == "docx"@);
    if is_one_of(ext, &docx) {
        return TextSource::Docx;
    }
    let sheets = ["xlsx", "xls", "csv"];
    assert(str_views(sheets@) =~= seq!["xlsx"@, "xls"@, "csv"@]);
    if is_one_of(ext, &sheets) {
        return TextSource::Spreadsheet;
    }
    let pptx = ["pptx"];
    assert(str_views(pptx@) =~= seq!["pptx"@]);
    assert(seq!["pptx"@][0] == "pptx"@);
    if is_one_of(ext, &pptx) {
        return TextSource::Slides;
    }
    let plain = [
        "txt", "md", "rst", "log", "json", "yaml", "yml", "toml", "xml", "html", "css", "js",
        "ts", "tsx", "jsx", "py", "rs", "go", "java", "c", "cpp", "h", "sh", "bat", "ps1", "rb",
        "php", "swift", "kt", "scala",
    ];
    assert(str_views(plain@) =~= plain_text_extensions());
    if is_one_of(ext, &plain) {
        return TextSource::PlainText;
    }
    let ocr = ["jpg", "jpeg", "png", "gif", "webp", "bmp", "tiff"];
    assert(str_views(ocr@) =~= ocr_extensions());
    if is_one_of(ext, &ocr) {
        return TextSource::Ocr;
    }
    TextSource::Unsupported
}

/// The text source of the file at `path`, by the lower-case form of its
/// extension.
pub fn text_source(path: &str) -> (r: TextSource)
    ensures
        r == text_source_of(lower_extension_spec(path@)),
{
    let ext = lower_extension(path);
    text_source_for_extension(ext.as_str())
}

/// The most characters of text extracted from one file.
pub const MAX_EXTRACTED_CHARS: usize = 50_000;

/// Extracted text, capped at `MAX_EXTRACTED_CHARS` characters.
pub fn cap_extracted(text: &str) -> (r: String)
    ensures
        r@ == take_chars(text@, MAX_EXTRACTED_CHARS as nat),
{
    truncate_chars(text, MAX_EXTRACTED_CHARS)
}

/// Optical character recognition: not available, so every image yields no
/// text.
pub fn extract(_path: &str) -> (r: Result<String, String>)
    ensures
        r matches Ok(t) && t@ == Seq::<char>::empty(),
{
    Ok(String::new())
}

/// The duration part of a video's metadata text: ` duration:<seconds>s`
/// when the duration is known.
pub open spec fn duration_text(duration_secs: Option<u64>) -> Seq<char> {
    match duration_secs {
        Some(d) => " duration:"@ + decimal(d as int) + "s"@,
        None => seq![],
    }
}

/// The resolution part of a video's metadata text:
/// ` resolution:<width>x<height>` when the resolution is known.
pub open spec fn resolution_text(resolution: Option<(u32, u32)>) -> Seq<char> {
    match resolution {
        Some((w, h)) => " resolution:"@ + decimal(w as int) + "x"@ + decimal(h as int),
        None => seq![],
    }
}

/// The text indexed for a video: its file name, then its duration in whole
/// seconds and its resolution, each where it could be read from the file.
pub fn extract_metadata(path: &str, duration_secs: Option<u64>, resolution: Option<(u32, u32)>) -> (r: Result<String, String>)
    ensures
        r matches Ok(t) && t@ == "video filename:"@ + name_or_empty(path_file_name_of(path@))
            + duration_text(duration_secs) + resolution_text(resolution),
{
    let mut t = String::from_str("video filename:");
    match path_file_name(path) {
        Some(n) => t.append(n.as_str()),
        None => {},
    }
    let ghost named = t@;
    match duration_secs {
        Some(d) => {
            t.append(" duration:");
            let ds = u64_decimal(d);
            t.append(ds.as_str());
            t.append("s");
        },
        None => {},
    }
    assert(t@ =~= named + duration_text(duration_secs));
    let ghost timed = t@;
    match resolution {
        Some((w, h)) => {
            t.append(" resolution:");
            let ws = u64_decimal(w as u64);
            t.append(ws.as_str());
            t.append("x");
            let hs = u64_decimal(h as u64);
            t.append(hs.as_str());
        },
        None => {},
    }
    assert(t@ =~= timed + resolution_text(resolution));
    Ok(t)
}

/// `pat` occurs in `s` at position `i`.
pub open spec fn occurs_at(s: Seq<char>, pat: Seq<char>, i: int) -> bool {
    0 <= i && i + pat.len() <= s.len() && s.subrange(i, i + pat.len()) == pat
}

/// The first position at or after `i` where `pat` occurs in `s`.
pub open spec fn find_from(s: Seq<char>, pat: Seq<char>, i: nat) -> Option<nat>
    decreases s.len() - i,
{
    if i >= s.len() || i + pat.len() > s.len() {
        None
    } else if occurs_at(s, pat, i as int) {
        Some(i)
    } else {
        find_from(s, pat, i + 1)
    }
}

/// What `find_from` finds: the first occurrence at or after `i`, if any.
pub proof fn lemma_find_from(s: Seq<char>, pat: Seq<char>, i: nat)
    ensures
        match find_from(s, pat, i) {
            Some(j) => i <= j && occurs_at(s, pat, j as int) && forall|k: int| i <= k < j ==> !occurs_at(s, pat, k),
            None => forall|k: int| i <= k && k < s.len() ==> !occurs_at(s, pat, k),
        },
    decreases s.len() - i,
{
    if i >= s.len() || i + pat.len() > s.len() {
    } else if occurs_at(s, pat, i as int) {
    } else {
        lemma_find_from(s, pat, i + 1);
    }
}

/// The opening tag of a text run in slide markup.
pub open spec fn run_open() -> Seq<char> {
    seq!['<', 'a', ':', 't', '>']
}

/// The closing tag of a text run in slide markup.
pub open spec fn run_close() -> Seq<char> {
    seq!['<', '/', 'a', ':', 't', '>']
}

/// The text runs of slide markup from position `pos` on, each followed by
/// a space: the text between each `<a:t>` and the next `</a:t>`; a run
/// that is never closed ends the scan.
pub open spec fn slide_text_from(s: Seq<char>, pos: nat) -> Seq<char>
    decreases s.len() - pos,
{
    match find_from(s, run_open(), pos) {
        None => seq![],
        Some(i) => {
            let start = i + run_open().len();
            match find_from(s, run_close(), start) {
                None => seq![],
                Some(j) => {
                    proof {
                        lemma_find_from(s, run_open(), pos);
                        lemma_find_from(s, run_close(), start);
                    }
                    s.subrange(start as int, j as int) + seq![' '] + slide_text_from(
                        s,
                        j + run_close().len(),
                    )
                },
            }
        },
    }
}

/// Whether `pat` occurs in `s` at `i`.
fn matches_at(s: &Vec<char>, pat: &Vec<char>, i: usize) -> (b: bool)
    requires
        i + pat@.len() <= s@.len(),
    ensures
        b == occurs_at(s@, pat@, i as int),
{
    let n = s.len();
    let mut k: usize = 0;
    while k < pat.len()
        invariant
            n == s@.len(),
            i + pat@.len() <= s@.len(),
            k <= pat@.len(),
            forall|m: int| 0 <= m < k ==> s@[i + m] == pat@[m],
        decreases pat@.len() - k,
    {
        if s[i + k] != pat[k] {
            assert(s@.subrange(i as int, i + pat@.len())[k as int] != pat@[k as int]);
            return false;
        }
        k += 1;
    }
    assert(s@.subrange(i as int, i + pat@.len()) =~= pat@);
    true
}

/// The first position at or after `from` where `pat` occurs in `s`.
fn find_pattern(s: &Vec<char>, pat: &Vec<char>, from: usize) -> (r: Option<usize>)
    requires
        pat@.len() > 0,
    ensures
        match r {
            Some(j) => find_from(s@, pat@, from as nat) == Some(j as nat),
            None => find_from(s@, pat@, from as nat) is None,
        },
{
    let n = s.len();
    let mut i = from;
    while i < n && pat.len() <= n - i
        invariant
            n == s@.len(),
            pat@.len() > 0,
            from <= i,
            find_from(s@, pat@, from as nat) == find_from(s@, pat@, i as nat),
        decreases s@.len() + 1 - i,
    {
        if matches_at(s, pat, i) {
            return Some(i);
        }
        i += 1;
    }
    None
}

/// The text runs of slide markup, each followed by a space.
pub fn slide_text(xml: &str) -> (r: String)
    ensures
        r@ == slide_text_from(xml@, 0),
{
    let s = chars_of(xml);
    let open = vec!['<', 'a', ':', 't', '>'];
    let close = vec!['<', '/', 'a', ':', 't', '>'];
    assert(open@ =~= run_open());
    assert(close@ =~= run_close());
    let mut out = String::new();
    let mut pos: usize = 0;
    let mut done = false;
    let n = s.len();
    while !done
        invariant
            n == s@.len(),
            s@ == xml@,
            open@ == run_open(),
            close@ == run_close(),
            pos <= s@.len(),
            out@ + (if done { seq![] } else { slide_text_from(s@, pos as nat) }) == slide_text_from(s@, 0),
        decreases (s@.len() - pos) * 2 + if done { 0int } else { 1 },
    {
        match find_pattern(&s, &open, pos) {
            None => {
                done = true;
            },
            Some(i) => {
                proof {
                    lemma_find_from(s@, run_open(), pos as nat);
                }
                let start = i + 5;
                match find_pattern(&s, &close, start) {
                    None => {
                        done = true;
                    },
                    Some(j) => {
                        proof {
                            lemma_find_from(s@, run_close(), start as nat);
                        }
                        let piece = string_from_chars(&s, start, j);
                        let ghost before = out@;
                        out.append(piece.as_str());
                        push_char(&mut out, ' ');
                        assert(out@ =~= before + (s@.subrange(start as int, j as int) + seq![' ']));
                        pos = j + 6;
                    },
                }
            },
        }
    }
    out
}

/// The text of a spreadsheet: the cells of each row joined by tabs, each
/// row followed by a line break.
pub open spec fn sheet_text_spec(rows: Seq<Seq<Seq<char>>>) -> Seq<char>
    decreases rows.len(),
{
    if rows.len() == 0 {
        seq![]
    } else {
        sheet_text_spec(rows.drop_last()) + join_with(rows.last(), seq!['\t']) + seq!['\n']
    }
}

/// Appends one row of a spreadsheet: its cells joined by tabs and a line
/// break.
pub fn append_sheet_row(text: &mut String, cells: &Vec<String>)
    ensures
        final(text)@ == old(text)@ + join_with(views(cells@), seq!['\t']) + seq!['\n'],
{
    let line = join_strings(cells, "\t");
    proof {
        reveal_strlit("\t");
    }
    assert("\t"@ =~= seq!['\t']);
    text.append(line.as_str());
    push_char(text, '\n');
}

/// The text of a run: its text children concatenated.
pub open spec fn run_text(children: Seq<Option<Seq<char>>>) -> Seq<char>
    decreases children.len(),
{
    if children.len() == 0 {
        seq![]
    } else {
        run_text(children.drop_last()) + match children.last() {
            Some(t) => t,
            None => seq![],
        }
    }
}

/// The text of a paragraph: the texts of its runs concatenated.
pub open spec fn paragraph_text(children: Seq<Option<Seq<Option<Seq<char>>>>>) -> Seq<char>
    decreases children.len(),
{
    if children.len() == 0 {
        seq![]
    } else {
        paragraph_text(children.drop_last()) + match children.last() {
            Some(run) => run_text(run),
            None => seq![],
        }
    }
}

/// The text of a document's body: each paragraph's text followed by a line
/// break; other children add nothing.
pub open spec fn body_text(children: Seq<Option<Seq<Option<Seq<Option<Seq<char>>>>>>>) -> Seq<char>
    decreases children.len(),
{
    if children.len() == 0 {
        seq![]
    } else {
        body_text(children.drop_last()) + match children.last() {
            Some(p) => paragraph_text(p) + seq!['\n'],
            None => seq![],
        }
    }
}

fn run_string(children: &Vec<Option<String>>) -> (r: String)
    ensures
        r@ == run_text(children.deep_view()),
{
    let ghost d = children.deep_view();
    let mut r = String::new();
    let mut i: usize = 0;
    while i < children.len()
        invariant
            d == children.deep_view(),
            i <= d.len(),
            r@ == run_text(d.take(i as int)),
        decreases d.len() - i,
    {
        assert(d.take(i + 1).drop_last() =~= d.take(i as int));
        match &children[i] {
            Some(t) => {
                r.append(t.as_str());
            },
            None => {},
        }
        assert(r@ =~= run_text(d.take(i + 1)));
        i += 1;
    }
    assert(d.take(d.len() as int) =~= d);
    r
}

fn paragraph_string(children: &Vec<Option<Vec<Option<String>>>>) -> (r: String)
    ensures
        r@ == paragraph_text(children.deep_view()),
{
    let ghost d = children.deep_view();
    let mut r = String::new();
    let mut i: usize = 0;
    while i < children.len()
        invariant
            d == children.deep_view(),
            i <= d.len(),
            r@ == paragraph_text(d.take(i as int)),
        decreases d.len() - i,
    {
        assert(d.take(i + 1).drop_last() =~= d.take(i as int));
        match &children[i] {
            Some(run) => {
                let t = run_string(run);
                r.append(t.as_str());
            },
            None => {},
        }
        assert(r@ =~= paragraph_text(d.take(i + 1)));
        i += 1;
    }
    assert(d.take(d.len() as int) =~= d);
    r
}

/// The text of a `.docx` document from the children of its body, as the
/// parser gives them (a paragraph is `Some` of its children, a run is
/// `Some` of its children, a text is `Some` of its characters, every other
/// kind of child is `None`): each paragraph's runs concatenated and
/// followed by a line break, capped at `MAX_EXTRACTED_CHARS` characters.
pub fn docx_body_text(children: &Vec<Option<Vec<Option<Vec<Option<String>>>>>>) -> (r: String)
    ensures
        r@ == take_chars(body_text(children.deep_view()), MAX_EXTRACTED_CHARS as nat),
{
    let ghost d = children.deep_view();
    let mut text = String::new();
    let mut i: usize = 0;
    while i < children.len()
        invariant
            d == children.deep_view(),
            i <= d.len(),
            text@ == body_text(d.take(i as int)),
        decreases d.len() - i,
    {
        assert(d.take(i + 1).drop_last() =~= d.take(i as int));
        match &children[i] {
            Some(p) => {
                let t = paragraph_string(p);
                text.append(t.as_str());
                push_char(&mut text, '\n');
            },
            None => {},
        }
        assert(text@ =~= body_text(d.take(i + 1)));
        i += 1;
    }
    assert(d.take(d.len() as int) =~= d);
    cap_extracted(text.as_str())
}

/// The text of a PDF from the texts of its pages: each page that yielded a
/// text contributes it followed by a line break; a page that failed adds
/// nothing.
pub open spec fn pdf_pages_text(pages: Seq<Option<Seq<char>>>) -> Seq<char>
    decreases pages.len(),
{
    if pages.len() == 0 {
        seq![]
    } else {
        pdf_pages_text(pages.drop_last()) + match pages.last() {
            Some(t) => t + seq!['\n'],
            None => seq![],
        }
    }
}

/// Joins the texts of a PDF's pages as `pdf_pages_text` says, capped at
/// `MAX_EXTRACTED_CHARS` characters.
pub fn pdf_pages_joined(pages: &Vec<Option<String>>) -> (r: String)
    ensures
        r@ == take_chars(pdf_pages_text(pages.deep_view()), MAX_EXTRACTED_CHARS as nat),
{
    let ghost d = pages.deep_view();
    let mut text = String::new();
    let mut i: usize = 0;
    while i < pages.len()
        invariant
            d == pages.deep_view(),
            i <= d.len(),
            text@ == pdf_pages_text(d.take(i as int)),
        decreases d.len() - i,
    {
        assert(d.take(i + 1).drop_last() =~= d.take(i as int));
        match &pages[i] {
            Some(t) => {
                text.append(t.as_str());
                push_char(&mut text, '\n');
            },
            None => {},
        }
        assert(text@ =~= pdf_pages_text(d.take(i + 1)));
        i += 1;
    }
    assert(d.take(d.len() as int) =~= d);
    cap_extracted(text.as_str())
}

/// Appends the text of one slide: its text runs and a line break.
pub fn append_slide(text: &mut String, xml: &str)
    ensures
        final(text)@ == old(text)@ + slide_text_from(xml@, 0) + seq!['\n'],
{
    let t = slide_text(xml);
    text.append(t.as_str());
    push_char(text, '\n');
}

/// Whether the name of a member of a presentation archive is that of a
/// slide: `ppt/slides/slide` at its start and `.xml` at its end.
pub open spec fn is_slide_name(name: Seq<char>) -> bool {
    name.len() >= 16 && name.take(16) == "ppt/slides/slide"@ && name.len() >= 4
        && name.skip(name.len() - 4) == ".xml"@
}

/// Whether a member of a presentation archive holds a slide.
pub fn is_slide_entry(name: &str) -> (b: bool)
    ensures
        b == is_slide_name(name@),
{
    let cs = chars_of(name);
    let prefix = chars_of("ppt/slides/slide");
    let suffix = chars_of(".xml");
    if cs.len() < 16 || prefix.len() != 16 || suffix.len() != 4 {
        proof {
            reveal_strlit("ppt/slides/slide");
            reveal_strlit(".xml");
        }
        return false;
    }
    let head = string_from_chars(&cs, 0, 16);
    let tail = string_from_chars(&cs, cs.len() - 4, cs.len());
    let p = string_from_chars(&prefix, 0, 16);
    let q = string_from_chars(&suffix, 0, 4);
    assert(prefix@.subrange(0, 16) =~= prefix@);
    assert(suffix@.subrange(0, 4) =~= suffix@);
    assert(cs@.subrange(0, 16) =~= cs@.take(16));
    assert(cs@.subrange(cs@.len() - 4, cs@.len() as int) =~= cs@.skip(cs@.len() - 4));
    head == p && tail == q
}

/// The text of a presentation from the members of its archive, in archive
/// order, each with its name and its contents when they read as UTF-8:
/// each slide's text runs (`slide_text_from`) followed by a line break;
/// other members add nothing; `None` when a slide's contents do not read.
pub open spec fn slides_text(members: Seq<(Seq<char>, Option<Seq<char>>)>) -> Option<Seq<char>>
    decreases members.len(),
{
    if members.len() == 0 {
        Some(seq![])
    } else {
        match slides_text(members.drop_last()) {
            None => None,
            Some(t) => {
                let (name, body) = members.last();
                if is_slide_name(name) {
                    match body {
                        Some(xml) => Some(t + slide_text_from(xml, 0) + seq!['\n']),
                        None => None,
                    }
                } else {
                    Some(t)
                }
            },
        }
    }
}

proof fn lemma_slides_text_none_stays(m: Seq<(Seq<char>, Option<Seq<char>>)>, i: int)
    requires
        0 <= i <= m.len(),
        slides_text(m.take(i)) is None,
    ensures
        slides_text(m) is None,
    decreases m.len() - i,
{
    if i < m.len() {
        assert(m.take(i + 1).drop_last() =~= m.take(i));
        lemma_slides_text_none_stays(m, i + 1);
    } else {
        assert(m.take(i) =~= m);
    }
}

/// The text of a presentation from the members of its archive, as
/// `slides_text` says, capped at `MAX_EXTRACTED_CHARS` characters; `None`
/// when a slide's contents do not read.
pub fn presentation_text(members: &Vec<(String, Option<String>)>) -> (r: Option<String>)
    ensures
        match slides_text(members.deep_view()) {
            None => r is None,
            Some(t) => r matches Some(x) && x@ == take_chars(t, MAX_EXTRACTED_CHARS as nat),
        },
{
    let ghost d = members.deep_view();
    let mut text = String::new();
    let mut i: usize = 0;
    while i < members.len()
        invariant
            d == members.deep_view(),
            i <= d.len(),
            slides_text(d.take(i as int)) == Some(text@),
        decreases d.len() - i,
    {
        assert(d.take(i + 1).drop_last() =~= d.take(i as int));
        assert(d[i as int] == (members@[i as int].0@, members@[i as int].1.deep_view()));
        if is_slide_entry(members[i].0.as_str()) {
            match &members[i].1 {
                Some(xml) => {
                    append_slide(&mut text, xml.as_str());
                },
                None => {
                    proof {
                        lemma_slides_text_none_stays(d, i + 1);
                    }
                    return None;
                },
            }
        }
        i += 1;
    }
    assert(d.take(d.len() as int) =~= d);
    Some(cap_extracted(text.as_str()))
}

/// The text of a workbook from its sheets, in order: each sheet that could
/// be read (`Some` of its rows of cell texts) as `sheet_text_spec` says; a
/// sheet that could not be read adds nothing.
pub open spec fn workbook_text(sheets: Seq<Option<Seq<Seq<Seq<char>>>>>) -> Seq<char>
    decreases sheets.len(),
{
    if sheets.len() == 0 {
        seq![]
    } else {
        workbook_text(sheets.drop_last()) + match sheets.last() {
            Some(rows) => sheet_text_spec(rows),
            None => seq![],
        }
    }
}

fn append_sheet(text: &mut String, rows: &Vec<Vec<String>>)
    ensures
        final(text)@ == old(text)@ + sheet_text_spec(rows.deep_view()),
{
    let ghost d = rows.deep_view();
    let ghost start = text@;
    let mut j: usize = 0;
    while j < rows.len()
        invariant
            d == rows.deep_view(),
            j <= d.len(),
            text@ == start + sheet_text_spec(d.take(j as int)),
        decreases d.len() - j,
    {
        assert(d.take(j + 1).drop_last() =~= d.take(j as int));
        assert(views(rows@[j as int]@) =~= d[j as int]);
        append_sheet_row(text, &rows[j]);
        assert(text@ =~= start + sheet_text_spec(d.take(j + 1)));
        j += 1;
    }
    assert(d.take(d.len() as int) =~= d);
}

/// The text of a workbook from the cell texts of its sheets, as
/// `workbook_text` says, capped at `MAX_EXTRACTED_CHARS` characters.
pub fn workbook_sheets_text(sheets: &Vec<Option<Vec<Vec<String>>>>) -> (r: String)
    ensures
        r@ == take_chars(workbook_text(sheets.deep_view()), MAX_EXTRACTED_CHARS as nat),
{
    let ghost d = sheets.deep_view();
    let mut text = String::new();
    let mut i: usize = 0;
    while i < sheets.len()
        invariant
            d == sheets.deep_view(),
            i <= d.len(),
            text@ == workbook_text(d.take(i as int)),
        decreases d.len() - i,
    {
        assert(d.take(i + 1).drop_last() =~= d.take(i as int));
        match &sheets[i] {
            Some(rows) => {
                append_sheet(&mut text, rows);
            },
            None => {},
        }
        assert(text@ =~= workbook_text(d.take(i + 1)));
        i += 1;
    }
    assert(d.take(d.len() as int) =~= d);
    cap_extracted(text.as_str())
}

} // verus!
