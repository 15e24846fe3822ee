use fileflow::query::{
    dir_prefix, escape_sql_quotes, file_chunks_filter, file_filter, listing_filter, path_filter,
    prefix_filter, quoted_value, search_conditions, search_filter,
};
use fileflow::search::SearchFilters;

#[test]
fn default_search_only_excludes_deleted_chunks() {
    assert_eq!(search_filter(&SearchFilters::default()), "deleted_at IS NULL");
}

#[test]
fn category_filter_is_added_to_search() {
    let f = SearchFilters { category: Some("document".to_string()), ..Default::default() };
    assert_eq!(search_filter(&f), "deleted_at IS NULL AND category = 'document'");
}

#[test]
fn all_search_conditions_in_order() {
    let f = SearchFilters {
        category: Some("image".to_string()),
        extension: Some("png".to_string()),
        min_size: Some(-5),
        max_size: Some(1024),
        after_ms: Some(0),
        before_ms: Some(i64::MIN),
    };
    assert_eq!(
        search_conditions(&f),
        vec![
            "deleted_at IS NULL",
            "category = 'image'",
            "extension = 'png'",
            "size >= -5",
            "size <= 1024",
            "modified_at >= 0",
            "modified_at <= -9223372036854775808",
        ]
    );
}

#[test]
fn listing_and_lookup_filters() {
    assert_eq!(file_chunks_filter("abc"), "file_id = 'abc' AND deleted_at IS NULL");
    assert_eq!(
        listing_filter(Some("document")),
        "category = 'document' AND deleted_at IS NULL AND chunk_index = 0"
    );
    assert_eq!(listing_filter(None), "deleted_at IS NULL AND chunk_index = 0");
    assert_eq!(path_filter("/dead.txt"), "path = '/dead.txt'");
    assert_eq!(file_filter("f1"), "file_id = 'f1'");
    assert_eq!(quoted_value("work"), "'work'");
}

#[test]
fn prefix_filter_doubles_quotes() {
    assert_eq!(escape_sql_quotes("Bob's 'x'"), "Bob''s ''x''");
    assert_eq!(prefix_filter("/home/Bob's/"), "path LIKE '/home/Bob''s/%'");
}

#[test]
fn directory_prefix_ends_with_one_slash() {
    assert_eq!(dir_prefix("/home/user/Documents"), "/home/user/Documents/");
    assert_eq!(dir_prefix("/home/user/Documents/"), "/home/user/Documents/");
    assert_eq!(dir_prefix(""), "/");
}
