use fileflow::classifier::{category_for_extension, classify};
use fileflow::paths::lower_extension;

#[test]
fn test_classify_pdf() {
    assert_eq!(classify("report.pdf"), "document");
}

#[test]
fn test_classify_xlsx() {
    assert_eq!(classify("data.xlsx"), "spreadsheet");
}

#[test]
fn test_classify_mp4() {
    assert_eq!(classify("video.mp4"), "video");
}

#[test]
fn test_classify_unknown() {
    assert_eq!(classify("file.xyz"), "other");
}

#[test]
fn classify_ignores_letter_case_of_extension() {
    assert_eq!(classify("/tmp/SCAN.JPG"), "image");
    assert_eq!(classify("Notes.Md"), "document");
}

#[test]
fn classify_without_extension_is_other() {
    assert_eq!(classify("Makefile"), "other");
    assert_eq!(classify(".bashrc"), "other");
    assert_eq!(classify("dir.d/"), "other");
}

#[test]
fn every_category_has_an_extension() {
    let cases = [
        ("txt", "document"),
        ("ods", "spreadsheet"),
        ("heic", "image"),
        ("m4v", "video"),
        ("flac", "audio"),
        ("rs", "code"),
        ("7z", "archive"),
        ("appimage", "installer"),
        ("woff2", "font"),
        ("", "other"),
    ];
    for (ext, cat) in cases {
        assert_eq!(category_for_extension(ext), cat, "extension {ext}");
    }
}

#[test]
fn lower_extension_takes_last_dot() {
    assert_eq!(lower_extension("a/b.tar.GZ"), "gz");
    assert_eq!(lower_extension("a/b"), "");
}

#[test]
fn classify_same_category_whatever_the_case() {
    assert_eq!(classify("REPORT.PDF"), classify("report.pdf"));
    assert_eq!(classify("a/Clip.MkV"), "video");
    assert_eq!(lower_extension("x.TaR.Gz"), "gz");
}
