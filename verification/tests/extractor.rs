use fileflow::extractor::{
    append_sheet_row, append_slide, cap_extracted, docx_body_text, extract, extract_metadata,
    is_slide_entry, pdf_pages_joined, presentation_text, slide_text, text_source,
    workbook_sheets_text, TextSource,
};

#[test]
fn text_source_by_extension() {
    assert_eq!(text_source("a.pdf"), TextSource::Pdf);
    assert_eq!(text_source("a.DOCX"), TextSource::Docx);
    assert_eq!(text_source("a.csv"), TextSource::Spreadsheet);
    assert_eq!(text_source("a.pptx"), TextSource::Slides);
    assert_eq!(text_source("a.ps1"), TextSource::PlainText);
    assert_eq!(text_source("a.tiff"), TextSource::Ocr);
    assert_eq!(text_source("a.xyz"), TextSource::Unsupported);
    assert_eq!(text_source("noext"), TextSource::Unsupported);
}

#[test]
fn ocr_yields_no_text() {
    assert_eq!(extract("scan.png").unwrap(), "");
}

#[test]
fn video_metadata_is_its_file_name() {
    assert_eq!(extract_metadata("/v/clip.mp4", None, None).unwrap(), "video filename:clip.mp4");
    assert_eq!(extract_metadata("/", None, None).unwrap(), "video filename:");
    assert_eq!(
        extract_metadata("/v/clip.mp4", Some(95), Some((1920, 1080))).unwrap(),
        "video filename:clip.mp4 duration:95s resolution:1920x1080"
    );
    assert_eq!(
        extract_metadata("/v/a.mkv", None, Some((640, 480))).unwrap(),
        "video filename:a.mkv resolution:640x480"
    );
    assert_eq!(extract_metadata("/v/a.mkv", Some(0), None).unwrap(), "video filename:a.mkv duration:0s");
}

#[test]
fn slide_runs_are_collected() {
    let xml = "<p:sld><a:t>Hello</a:t><x/><a:t>World</a:t></p:sld>";
    assert_eq!(slide_text(xml), "Hello World ");
    // an unclosed run ends the scan
    assert_eq!(slide_text("<a:t>a</a:t><a:t>b"), "a ");
    assert_eq!(slide_text("no runs"), "");
    let mut t = String::new();
    append_slide(&mut t, "<a:t>x</a:t>");
    assert_eq!(t, "x \n");
}

#[test]
fn slide_entries_are_recognised() {
    assert!(is_slide_entry("ppt/slides/slide1.xml"));
    assert!(!is_slide_entry("ppt/slides/_rels/slide1.xml.rels"));
    assert!(!is_slide_entry("ppt/slideLayouts/slideLayout1.xml"));
}

#[test]
fn sheet_rows_text() {
    let mut t = String::new();
    append_sheet_row(&mut t, &vec!["a".to_string(), "1".to_string()]);
    append_sheet_row(&mut t, &vec![]);
    assert_eq!(t, "a\t1\n\n");
}

#[test]
fn extracted_text_is_capped() {
    let s = "é".repeat(60_000);
    assert_eq!(cap_extracted(&s).chars().count(), 50_000);
    assert_eq!(cap_extracted("short"), "short");
}

fn text(t: &str) -> Option<String> {
    Some(t.to_string())
}

#[test]
fn docx_paragraph_runs_are_concatenated() {
    // paragraph: run "Hel"; run "lo", a tab (not text), " world"; a table (not a paragraph)
    let body = vec![
        Some(vec![Some(vec![text("Hel")]), Some(vec![text("lo"), None, text(" world")])]),
        Some(vec![]),
        None,
        Some(vec![None, Some(vec![text("second")])]),
    ];
    assert_eq!(docx_body_text(&body), "Hello world\n\nsecond\n");
    assert_eq!(docx_body_text(&vec![]), "");
    let long = vec![Some(vec![Some(vec![Some("z".repeat(50_001))])])];
    assert_eq!(docx_body_text(&long).chars().count(), 50_000);
}

#[test]
fn presentation_text_reads_slides_in_archive_order() {
    let members = vec![
        ("[Content_Types].xml".to_string(), None),
        ("ppt/slides/slide2.xml".to_string(), text("<a:t>Two</a:t>")),
        ("ppt/media/image1.png".to_string(), None),
        ("ppt/slides/slide1.xml".to_string(), text("<p><a:t>One</a:t><a:t>more</a:t></p>")),
        ("ppt/slides/_rels/slide1.xml.rels".to_string(), text("<a:t>no</a:t>")),
    ];
    assert_eq!(presentation_text(&members).unwrap(), "Two \nOne more \n");
    assert_eq!(presentation_text(&vec![]).unwrap(), "");
}

#[test]
fn presentation_text_fails_on_an_unreadable_slide() {
    let members = vec![
        ("ppt/slides/slide1.xml".to_string(), text("<a:t>ok</a:t>")),
        ("ppt/slides/slide2.xml".to_string(), None),
    ];
    assert_eq!(presentation_text(&members), None);
}

#[test]
fn workbook_sheets_are_joined_row_by_row() {
    let sheets = vec![
        Some(vec![vec!["name".to_string(), "qty".to_string()], vec!["apple".to_string(), "3".to_string()]]),
        None,
        Some(vec![vec![], vec!["x".to_string()]]),
    ];
    assert_eq!(workbook_sheets_text(&sheets), "name\tqty\napple\t3\n\nx\n");
    assert_eq!(workbook_sheets_text(&vec![]), "");
}

#[test]
fn pdf_pages_are_joined_line_by_line() {
    let pages = vec![Some("first page".to_string()), None, Some(String::new()), Some("third".to_string())];
    assert_eq!(pdf_pages_joined(&pages), "first page\n\nthird\n");
    assert_eq!(pdf_pages_joined(&vec![]), "");
    let long = vec![Some("y".repeat(60_000))];
    assert_eq!(pdf_pages_joined(&long).chars().count(), 50_000);
}
