use fileflow::preview::{
    metadata_preview, office_fallback_preview, office_image_names, preview_kind, text_preview,
    PreviewData, PreviewKind,
};

#[test]
fn preview_kind_by_extension() {
    assert_eq!(preview_kind("/tmp/x.pdf"), PreviewKind::Pdf);
    assert_eq!(preview_kind("/tmp/x.jpg"), PreviewKind::Image);
    assert_eq!(preview_kind("/tmp/x.webm"), PreviewKind::Video);
    assert_eq!(preview_kind("/tmp/x.txt"), PreviewKind::Text);
    assert_eq!(preview_kind("/tmp/x.PPT"), PreviewKind::Office);
    assert_eq!(preview_kind("/tmp/x.xyz"), PreviewKind::Metadata);
    // tiff files are indexed as images but previewed by their metadata
    assert_eq!(preview_kind("/tmp/x.tiff"), PreviewKind::Metadata);
}

#[test]
fn text_preview_is_capped() {
    let long = "y".repeat(12_000);
    match text_preview(&long, "txt") {
        PreviewData::Text { content, language } => {
            assert_eq!(content.len(), 10_000);
            assert_eq!(language, "txt");
        }
        _ => panic!("not a text preview"),
    }
    match office_fallback_preview("hello fileflow") {
        PreviewData::OfficeFallback { text } => assert_eq!(text, "hello fileflow"),
        _ => panic!("not a fallback preview"),
    }
}

#[test]
fn metadata_preview_converts_as_casts_do() {
    match metadata_preview("/f", u64::MAX, Some(1u128 << 64)) {
        PreviewData::Metadata { path, size, modified_at } => {
            assert_eq!(path, "/f");
            assert_eq!(size, -1);
            assert_eq!(modified_at, 0);
        }
        _ => panic!("not a metadata preview"),
    }
    match metadata_preview("/f", 10, None) {
        PreviewData::Metadata { size, modified_at, .. } => assert_eq!((size, modified_at), (10, 0)),
        _ => panic!("not a metadata preview"),
    }
}

#[test]
fn office_page_images_are_numbered_from_the_second() {
    let names = office_image_names("deck");
    assert_eq!(names.len(), 20);
    assert_eq!(names[0], "deck.png");
    assert_eq!(names[1], "deck1.png");
    assert_eq!(names[19], "deck19.png");
}
