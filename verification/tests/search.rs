use fileflow::search::{rank_files, ChunkHit, FileHit, SearchFilters};

fn hit(file: &str, score: u32) -> ChunkHit {
    ChunkHit { file_id: file.to_string(), score }
}

#[test]
fn ranking_keeps_best_score_per_file() {
    let hits = vec![hit("a", 5), hit("b", 9), hit("a", 7), hit("c", 1), hit("b", 2)];
    let out = rank_files(&hits);
    assert_eq!(
        out,
        vec![
            FileHit { chunk: 1, best: 1, score: 9 },
            FileHit { chunk: 0, best: 2, score: 7 },
            FileHit { chunk: 3, best: 3, score: 1 },
        ]
    );
}

#[test]
fn multi_chunk_file_appears_once() {
    let hits = vec![hit("multi-file", 3), hit("multi-file", 8), hit("other", 4)];
    let out = rank_files(&hits);
    let count = out.iter().filter(|f| hits[f.chunk].file_id == "multi-file").count();
    assert_eq!(count, 1);
    assert_eq!(out[0], FileHit { chunk: 0, best: 1, score: 8 });
}

#[test]
fn equal_scores_keep_first_appearance_order() {
    let hits = vec![hit("x", 4), hit("y", 4), hit("x", 4), hit("z", 6)];
    let out = rank_files(&hits);
    assert_eq!(
        out,
        vec![
            FileHit { chunk: 3, best: 3, score: 6 },
            FileHit { chunk: 0, best: 0, score: 4 },
            FileHit { chunk: 1, best: 1, score: 4 },
        ]
    );
}

#[test]
fn no_hits_rank_no_file() {
    assert!(rank_files(&vec![]).is_empty());
}

#[test]
fn default_filters_restrict_nothing() {
    let f = SearchFilters::default();
    assert!(f.category.is_none() && f.extension.is_none());
    assert!(f.min_size.is_none() && f.max_size.is_none());
    assert!(f.after_ms.is_none() && f.before_ms.is_none());
}
