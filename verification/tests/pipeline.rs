use fileflow::pipeline::{chunk_records, file_facts, file_id, index_texts, IndexAction, IndexCounters};

#[test]
fn file_id_is_sha256_prefix() {
    assert_eq!(file_id("/test/file.pdf"), "d8b3f6dcf73eb6d9");
    assert_eq!(file_id("/docs/ml.txt"), "3026020d669629b9");
    assert_eq!(file_id("ü/é.txt"), "dccb38343b1f90ff");
    assert_eq!(file_id("/test/file.pdf"), file_id("/test/file.pdf"));
}

#[test]
fn empty_text_is_indexed_by_name() {
    assert_eq!(index_texts("", "file.bin"), vec!["file.bin"]);
    // text of white space alone yields no chunk at all
    assert!(index_texts("   ", "file.bin").is_empty());
    assert_eq!(index_texts("hello  world", "x"), vec!["hello world"]);
}

#[test]
fn facts_of_a_file() {
    let f = file_facts("/docs/Report.PDF", 512, 77);
    assert_eq!(f.file_id, file_id("/docs/Report.PDF"));
    assert_eq!(f.name, "Report.PDF");
    assert_eq!(f.extension, "pdf");
    assert_eq!(f.category, "document");
    assert_eq!((f.size, f.modified_at), (512, 77));
    let g = file_facts("/", 0, 0);
    assert_eq!(g.name, "");
    assert_eq!(g.extension, "");
    assert_eq!(g.category, "other");
}

#[test]
fn records_are_numbered_and_truncated() {
    let f = file_facts("/a/long.txt", 1, 2);
    let long = "x".repeat(2500);
    let texts = vec!["first".to_string(), long];
    let recs = chunk_records(&f, &texts, 99);
    assert_eq!(recs.len(), 2);
    assert_eq!(recs[0].id, format!("{}_0", f.file_id));
    assert_eq!(recs[1].id, format!("{}_1", f.file_id));
    assert_eq!(recs[1].chunk_index, 1);
    assert_eq!(recs[1].content_text.chars().count(), 2000);
    assert_eq!(recs[0].content_text, "first");
    assert_eq!(recs[0].indexed_at, 99);
    assert_eq!(recs[0].category, "document");
}

#[test]
fn counters_count_started_stored_and_failed_files() {
    let mut c = IndexCounters::new();
    assert_eq!((c.total, c.indexed, c.failed), (0, 0, 0));
    c.start_file();
    assert_eq!(c.total, 1);
    match c.finish_file(true) {
        IndexAction::ReportProgress(s) => {
            assert_eq!((s.total, s.indexed, s.failed, s.is_running), (1, 1, 0, true));
        }
        IndexAction::QueueRetry => panic!("a stored file is reported, not retried"),
    }
    c.start_file();
    assert!(matches!(c.finish_file(false), IndexAction::QueueRetry));
    assert_eq!((c.total, c.indexed, c.failed), (2, 1, 1));
    assert_eq!(c.total, c.indexed + c.failed);
    let s = c.status(false);
    assert_eq!((s.total, s.indexed, s.failed, s.is_running), (2, 1, 1, false));
}

#[test]
fn counters_wrap_like_atomic_counters() {
    let mut c = IndexCounters { total: u64::MAX, indexed: u64::MAX, failed: 3 };
    c.start_file();
    assert_eq!(c.total, 0);
    c.finish_file(true);
    assert_eq!(c.indexed, 0);
    assert_eq!(c.failed, 3);
}
