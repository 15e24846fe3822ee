use fileflow::chunker::{chunk_text, chunk_words, split_words};
use fileflow::estimate::tokens_to_words;

#[test]
fn test_short_text_single_chunk() {
    let chunks = chunk_text("hello world", 400, 50);
    assert_eq!(chunks.len(), 1);
    assert_eq!(chunks[0], "hello world");
}

#[test]
fn test_representative_chunks_capped_at_3() {
    // simulate long text (>1200 tokens)
    let words: Vec<&str> = vec!["word"; 2000];
    let text = words.join(" ");
    let chunks = chunk_text(&text, 400, 50);
    assert!(chunks.len() <= 3);
    assert!(!chunks.is_empty());
}

#[test]
fn test_empty_text_returns_empty() {
    let chunks = chunk_text("", 400, 50);
    assert!(chunks.is_empty());
}

#[test]
fn whitespace_only_text_returns_empty() {
    assert!(chunk_text(" \t\n\u{3000} ", 400, 50).is_empty());
}

#[test]
fn words_split_on_unicode_white_space() {
    let ws = split_words("  alpha\tbeta\u{00A0}gamma\n\ndelta  ");
    assert_eq!(ws, vec!["alpha", "beta", "gamma", "delta"]);
}

#[test]
fn token_budget_matches_single_precision_division() {
    assert_eq!(tokens_to_words(0), 0);
    assert_eq!(tokens_to_words(1), 0);
    assert_eq!(tokens_to_words(2), 1);
    assert_eq!(tokens_to_words(13), 10);
    assert_eq!(tokens_to_words(400), 307);
    assert_eq!(tokens_to_words(50), 38);
    assert_eq!(tokens_to_words(1000), 769);
    // beyond this point the rounded quotient differs from 10 n / 13
    assert_eq!(tokens_to_words(1_363_150), 1_048_577);
    assert_eq!(tokens_to_words(10_000_000), 7_692_308);
    assert_eq!(tokens_to_words(16_777_219), 12_905_554);
    assert_eq!(tokens_to_words(1_099_511_640_121), 845_778_190_336);
    for n in [0usize, 1, 7, 400, 50, 99_999, 1_363_150, 123_456_789] {
        assert_eq!(tokens_to_words(n), (n as f32 / 1.3) as usize);
    }
}

#[test]
fn windows_overlap_and_keep_first_middle_last() {
    // 10 words, windows of 4 overlapping by 1: starts 0, 3, 6 -> 3 windows
    let text = "w0 w1 w2 w3 w4 w5 w6 w7 w8 w9";
    let chunks = chunk_words(text, 4, 1);
    assert_eq!(chunks, vec!["w0 w1 w2 w3", "w3 w4 w5 w6", "w6 w7 w8 w9"]);
    // windows of 2 without overlap: 5 windows, keep indices 0, 2, 4
    let chunks = chunk_words(text, 2, 0);
    assert_eq!(chunks, vec!["w0 w1", "w4 w5", "w8 w9"]);
}

#[test]
fn zero_word_window_yields_empty_chunks() {
    // a window of no words still advances one word at a time
    let chunks = chunk_words("a b c d", 0, 0);
    assert_eq!(chunks, vec!["", "", ""]);
}

#[test]
fn long_text_first_chunk_starts_at_first_word() {
    let words: Vec<String> = (0..1000).map(|i| format!("w{i}")).collect();
    let text = words.join(" ");
    let chunks = chunk_text(&text, 400, 50);
    assert_eq!(chunks.len(), 3);
    assert!(chunks[0].starts_with("w0 w1 "));
    assert_eq!(chunks[0].split(' ').count(), 307);
    assert!(chunks[2].ends_with(" w999"));
}

#[test]
fn token_budget_agrees_with_f32_everywhere_sampled() {
    for n in 0usize..200_000 {
        assert_eq!(tokens_to_words(n), (n as f32 / 1.3) as usize, "n = {n}");
    }
    let mut n: usize = 200_000;
    while n < usize::MAX / 3 {
        for d in [0usize, 1, 2, 7, 13] {
            let m = n + d;
            assert_eq!(tokens_to_words(m), (m as f32 / 1.3) as usize, "n = {m}");
        }
        n = n + n / 7 + 1;
    }
    for m in [usize::MAX, usize::MAX - 1, usize::MAX / 2, 1 << 24, (1 << 24) + 1, (1 << 53) + 1] {
        assert_eq!(tokens_to_words(m), (m as f32 / 1.3) as usize, "n = {m}");
    }
}
