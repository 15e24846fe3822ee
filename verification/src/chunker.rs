//! Splitting extracted text into a few representative, overlapping chunks.

use vstd::prelude::*;
use crate::estimate::{tokens_to_words, tokens_to_words_spec};
use crate::text::{chars_of, is_white_space, push_char, views, white_space};

verus! {

/// The whitespace-separated words of `s`, as `str::split_whitespace` yields
/// them: the maximal runs of characters that are not white space.
pub open spec fn words(s: Seq<char>) -> Seq<Seq<char>>
    decreases s.len(),
{
    if s.len() == 0 {
        seq![]
    } else {
        let prev = words(s.drop_last());
        let c = s.last();
        if is_white_space(c) {
            prev
        } else if s.len() >= 2 && !is_white_space(s[s.len() - 2]) {
            prev.drop_last().push(prev.last().push(c))
        } else {
            prev.push(seq![c])
        }
    }
}

/// `ws` joined by single spaces (`[&str]::join(" ")`).
pub open spec fn join_space(ws: Seq<Seq<char>>) -> Seq<char>
    decreases ws.len(),
{
    if ws.len() == 0 {
        seq![]
    } else if ws.len() == 1 {
        ws[0]
    } else {
        join_space(ws.drop_last()) + seq![' '] + ws.last()
    }
}

/// How far the window moves: the window size less the overlap, at least one.
pub open spec fn window_step(size: nat, overlap: nat) -> nat {
    if size > overlap { (size - overlap) as nat } else { 1 }
}

/// The windows of `size` words, each starting `window_step` words after the
/// previous one, from word `start` on; the last window is the first that
/// reaches the final word.
pub open spec fn windows_from(ws: Seq<Seq<char>>, size: nat, overlap: nat, start: nat) -> Seq<
    Seq<char>,
>
    decreases ws.len() - start,
{
    if start >= ws.len() {
        seq![]
    } else {
        let end = if start + size >= ws.len() { ws.len() } else { start + size };
        let rest = if end == ws.len() {
            seq![]
        } else {
            windows_from(ws, size, overlap, start + window_step(size, overlap))
        };
        seq![join_space(ws.subrange(start as int, end as int))] + rest
    }
}

/// All windows of a word sequence.
pub open spec fn windows(ws: Seq<Seq<char>>, size: nat, overlap: nat) -> Seq<Seq<char>> {
    windows_from(ws, size, overlap, 0)
}

/// The chunks kept: all of them when there are at most three, otherwise the
/// first, the middle (index `len / 2`) and the last.
pub open spec fn representative(cs: Seq<Seq<char>>) -> Seq<Seq<char>> {
    if cs.len() <= 3 {
        cs
    } else {
        seq![cs[0], cs[(cs.len() / 2) as int], cs[cs.len() - 1]]
    }
}

/// The chunks of `text` for windows of `size` words overlapping by `overlap`.
pub open spec fn chunk_words_spec(text: Seq<char>, size: nat, overlap: nat) -> Seq<Seq<char>> {
    representative(windows(words(text), size, overlap))
}

/// The last window from `start` on reaches the last word.
proof fn lemma_last_window_reaches_end(ws: Seq<Seq<char>>, size: nat, overlap: nat, start: nat)
    requires
        start < ws.len(),
        size >= 1,
    ensures
        windows_from(ws, size, overlap, start).len() >= 1,
        exists|s: int|
            start <= s < ws.len() && windows_from(ws, size, overlap, start).last() == join_space(
                #[trigger] ws.subrange(s, ws.len() as int),
            ),
    decreases ws.len() - start,
{
    let n = ws.len();
    let end = if start + size >= n { n } else { start + size };
    if end == n {
        let w = windows_from(ws, size, overlap, start);
        assert(w.last() == join_space(ws.subrange(start as int, n as int)));
    } else {
        let next = start + window_step(size, overlap);
        lemma_last_window_reaches_end(ws, size, overlap, next);
        let rest = windows_from(ws, size, overlap, next);
        let w = windows_from(ws, size, overlap, start);
        assert(w == seq![join_space(ws.subrange(start as int, end as int))] + rest);
        assert(w.last() == rest.last());
    }
}

/// The first chunk of a text with words is its first window: the first
/// `size` words (all of them when there are fewer).
pub proof fn law_first_chunk_is_first_window(text: Seq<char>, size: nat, overlap: nat)
    requires
        words(text).len() > 0,
    ensures
        chunk_words_spec(text, size, overlap)[0] == join_space(
            words(text).take(if size < words(text).len() { size as int } else { words(text).len() as int }),
        ),
{
    let ws = words(text);
    let n = ws.len();
    let w = windows(ws, size, overlap);
    let end = if size >= n { n } else { size };
    assert(w[0] == join_space(ws.subrange(0, end as int)));
    assert(ws.subrange(0, end as int) =~= ws.take(end as int));
}

/// The last chunk of a text with words ends with its last word, for windows
/// of at least one word.
pub proof fn law_last_chunk_reaches_last_word(text: Seq<char>, size: nat, overlap: nat)
    requires
        words(text).len() > 0,
        size >= 1,
    ensures
        exists|s: int|
            0 <= s < words(text).len() && chunk_words_spec(text, size, overlap).last() == join_space(
                #[trigger] words(text).subrange(s, words(text).len() as int),
            ),
{
    let ws = words(text);
    lemma_last_window_reaches_end(ws, size, overlap, 0);
    let w = windows(ws, size, overlap);
    let r = chunk_words_spec(text, size, overlap);
    assert(r.last() == w.last());
}

/// Splits `text` into its whitespace-separated words.
pub fn split_words(text: &str) -> (r: Vec<String>)
    ensures
        views(r@) == words(text@),
{
    let cs = chars_of(text);
    let mut done: Vec<String> = Vec::new();
    let mut cur = String::new();
    let mut i: usize = 0;
    while i < cs.len()
        invariant
            cs@ == text@,
            i <= cs@.len(),
            cur@.len() > 0 <==> (i > 0 && !is_white_space(cs@[i - 1])),
            words(cs@.take(i as int)) == views(done@) + (if cur@.len() > 0 {
                seq![cur@]
            } else {
                seq![]
            }),
        decreases cs@.len() - i,
    {
        let c = cs[i];
        let ghost prefix = cs@.take(i as int);
        let ghost next = cs@.take(i + 1);
        assert(next.drop_last() == prefix);
        assert(next.last() == c);
        assert(next.len() == i + 1);
        if white_space(c) {
            assert(words(next) == words(prefix));
            if !cur.as_str().is_empty() {
                let ghost before = done@;
                let w = cur;
                done.push(w);
                cur = String::new();
                assert(views(done@) =~= views(before).push(w@));
            }
            assert(words(next) == views(done@));
        } else {
            let ghost old_done = views(done@);
            let ghost old_cur = cur@;
            push_char(&mut cur, c);
            if i > 0 && !white_space(cs[i - 1]) {
                assert(next[next.len() - 2] == cs@[i - 1]);
                assert(words(prefix) == old_done.push(old_cur));
                assert(words(prefix).drop_last() =~= old_done);
                assert(words(next) == old_done.push(old_cur.push(c)));
            } else {
                assert(words(prefix) == old_done);
                assert(words(next) == old_done.push(seq![c]));
                assert(old_cur.len() == 0);
                assert(cur@ =~= seq![c]);
            }
            assert(words(next) =~= views(done@) + seq![cur@]);
        }
        i += 1;
    }
    assert(cs@.take(cs@.len() as int) == cs@);
    if !cur.as_str().is_empty() {
        let ghost before = done@;
        let w = cur;
        done.push(w);
        assert(views(done@) =~= views(before).push(w@));
    }
    done
}


/// The words `ws[start..end]` joined by single spaces.
pub fn join_range(ws: &Vec<String>, start: usize, end: usize) -> (r: String)
    requires
        start <= end <= ws@.len(),
    ensures
        r@ == join_space(views(ws@).subrange(start as int, end as int)),
{
    let mut r = String::new();
    let mut j = start;
    while j < end
        invariant
            start <= j <= end <= ws@.len(),
            r@ == join_space(views(ws@).subrange(start as int, j as int)),
        decreases end - j,
    {
        let ghost part = views(ws@).subrange(start as int, j + 1);
        assert(part.drop_last() =~= views(ws@).subrange(start as int, j as int));
        assert(part.last() == ws@[j as int]@);
        if j > start {
            push_char(&mut r, ' ');
        } else {
            assert(r@ =~= seq![]);
        }
        r.append(ws[j].as_str());
        assert(r@ =~= join_space(part));
        j += 1;
    }
    r
}

/// Splits `text` into windows of `size` words that overlap by `overlap`
/// words and keeps at most three of them: the first, the middle and the
/// last. Text without words gives no chunk.
pub fn chunk_words(text: &str, size: usize, overlap: usize) -> (r: Vec<String>)
    ensures
        views(r@) == chunk_words_spec(text@, size as nat, overlap as nat),
        r@.len() <= 3,
{
    let ws = split_words(text);
    let ghost all = words(text@);
    let n = ws.len();
    let step = if size > overlap { size - overlap } else { 1 };
    let mut chunks: Vec<String> = Vec::new();
    let mut start: usize = 0;
    while start < n
        invariant
            views(ws@) == all,
            n == ws@.len(),
            step == window_step(size as nat, overlap as nat),
            start <= n,
            views(chunks@) + windows_from(all, size as nat, overlap as nat, start as nat)
                == windows(all, size as nat, overlap as nat),
        decreases n - start,
    {
        let end = if size >= n - start { n } else { start + size };
        let piece = join_range(&ws, start, end);
        let ghost before = chunks@;
        let ghost rest = if end == n {
            seq![]
        } else {
            windows_from(all, size as nat, overlap as nat, (start + step) as nat)
        };
        assert(windows_from(all, size as nat, overlap as nat, start as nat) == seq![piece@]
            + rest);
        chunks.push(piece);
        assert(views(chunks@) =~= views(before).push(piece@));
        if end == n {
            start = n;
        } else {
            start = start + step;
        }
        assert(views(chunks@) + windows_from(all, size as nat, overlap as nat, start as nat)
            =~= views(before) + (seq![piece@] + rest));
    }
    assert(views(chunks@) =~= windows(all, size as nat, overlap as nat));
    if chunks.len() <= 3 {
        chunks
    } else {
        let mid = chunks.len() / 2;
        let last = chunks.len() - 1;
        let r = vec![chunks[0].clone(), chunks[mid].clone(), chunks[last].clone()];
        assert(views(r@) =~= representative(views(chunks@)));
        r
    }
}


/// The chunks of `text` for a window of `chunk_size_tokens` tokens that
/// overlaps the next by `overlap_tokens` tokens, a word counting as 1.3
/// tokens.
pub open spec fn chunk_text_spec(text: Seq<char>, chunk_size_tokens: nat, overlap_tokens: nat) -> Seq<
    Seq<char>,
> {
    chunk_words_spec(
        text,
        tokens_to_words_spec(chunk_size_tokens),
        tokens_to_words_spec(overlap_tokens),
    )
}

/// Text yields a chunk exactly when it has a word.
pub proof fn lemma_chunks_empty_iff_no_words(text: Seq<char>, size: nat, overlap: nat)
    ensures
        chunk_words_spec(text, size, overlap).len() == 0 <==> words(text).len() == 0,
{
    let ws = words(text);
    if ws.len() > 0 {
        assert(windows(ws, size, overlap).len() >= 1);
    }
}

/// Splits text into representative chunks with a token-approximate sliding
/// window: a word counts as 1.3 tokens, so a window holds
/// `(chunk_size_tokens as f32 / 1.3) as usize` words and overlaps the next
/// by `(overlap_tokens as f32 / 1.3) as usize` words. Returns at most three
/// chunks: the first, the middle and the last window.
pub fn chunk_text(text: &str, chunk_size_tokens: usize, overlap_tokens: usize) -> (r: Vec<String>)
    ensures
        views(r@) == chunk_text_spec(text@, chunk_size_tokens as nat, overlap_tokens as nat),
        r@.len() <= 3,
        r@.len() == 0 <==> words(text@).len() == 0,
{
    let size = tokens_to_words(chunk_size_tokens);
    let overlap = tokens_to_words(overlap_tokens);
    let r = chunk_words(text, size, overlap);
    proof {
        lemma_chunks_empty_iff_no_words(text@, size as nat, overlap as nat);
    }
    r
}

/// Consecutive chunks overlap: once the text has more words than a window
/// holds (`W` words for `chunk_size_tokens`), the second chunk starts
/// `W - O` words on (`O` words for `overlap_tokens`; one word on when the
/// overlap is not smaller than the window), so that it repeats the last `O`
/// words of the first. Stated for windows of at least one word, where the
/// text has at most three windows, so that every window is kept; there are then two chunks when the second
/// window reaches the last word, and three otherwise.
pub proof fn law_second_chunk_starts_after_the_step(text: Seq<char>, chunk_size_tokens: nat, overlap_tokens: nat)
    requires
        tokens_to_words_spec(chunk_size_tokens) >= 1,
        words(text).len() > tokens_to_words_spec(chunk_size_tokens),
        words(text).len() <= tokens_to_words_spec(chunk_size_tokens) + 2 * (if tokens_to_words_spec(
            chunk_size_tokens,
        ) > tokens_to_words_spec(overlap_tokens) {
            tokens_to_words_spec(chunk_size_tokens) - tokens_to_words_spec(overlap_tokens)
        } else {
            1
        }),
    ensures
        ({
            let ws = words(text);
            let n = ws.len();
            let w = tokens_to_words_spec(chunk_size_tokens);
            let o = tokens_to_words_spec(overlap_tokens);
            let step: int = if w > o { w - o } else { 1 };
            let cs = chunk_text_spec(text, chunk_size_tokens, overlap_tokens);
            &&& cs.len() == (if step + w >= n { 2int } else { 3int })
            &&& cs[0] == join_space(ws.subrange(0, w as int))
            &&& cs[1] == join_space(ws.subrange(step, if step + w >= n { n as int } else { step + w }))
            &&& cs[cs.len() - 1] == join_space(ws.subrange(
                if step + w >= n { step } else { 2 * step },
                n as int,
            ))
        }),
{
    let ws = words(text);
    let n = ws.len();
    let w = tokens_to_words_spec(chunk_size_tokens);
    let o = tokens_to_words_spec(overlap_tokens);
    let step = window_step(w, o);
    let w0 = windows_from(ws, w, o, 0);
    let w1 = windows_from(ws, w, o, step);
    assert(w0 == seq![join_space(ws.subrange(0, w as int))] + w1);
    if step + w >= n {
        assert(w1 == seq![join_space(ws.subrange(step as int, n as int))] + Seq::<Seq<char>>::empty());
    } else {
        let w2 = windows_from(ws, w, o, 2 * step);
        assert(w2 == seq![join_space(ws.subrange((2 * step) as int, n as int))] + Seq::<Seq<char>>::empty());
        assert(w1 == seq![join_space(ws.subrange(step as int, (step + w) as int))] + w2);
    }
}

/// The words of `ws` from index `s` on, at most `size` of them, joined by
/// single spaces.
pub open spec fn word_window(ws: Seq<Seq<char>>, size: nat, s: int) -> Seq<char> {
    join_space(ws.subrange(s, if s + size >= ws.len() { ws.len() as int } else { s + size }))
}

/// Of `k` windows of `size` words, window `j` starting at word `j * step`:
/// all of them when there are at most three, otherwise the first, the one
/// at index `k / 2` and the last.
pub open spec fn spaced_chunks(ws: Seq<Seq<char>>, size: nat, step: nat, k: nat) -> Seq<Seq<char>> {
    if k <= 3 {
        Seq::new(k, |j: int| word_window(ws, size, j * step))
    } else {
        seq![
            word_window(ws, size, 0),
            word_window(ws, size, ((k / 2) * step) as int),
            word_window(ws, size, (k - 1) * step),
        ]
    }
}

proof fn lemma_windows_are_spaced(ws: Seq<Seq<char>>, size: nat, overlap: nat, j0: nat)
    requires
        size >= 1,
        j0 * window_step(size, overlap) < ws.len(),
    ensures
        ({
            let step = window_step(size, overlap);
            let v = windows_from(ws, size, overlap, j0 * step);
            &&& v.len() >= 1
            &&& forall|j: int| 0 <= j < v.len() ==> v[j] == word_window(ws, size, (j0 + j) * step)
            &&& (j0 + v.len() - 1) * step + size >= ws.len()
            &&& v.len() >= 2 ==> (j0 + v.len() - 2) * step + size < ws.len()
        }),
    decreases ws.len() - j0 * window_step(size, overlap),
{
    let step = window_step(size, overlap);
    let start = j0 * step;
    let n = ws.len();
    let v = windows_from(ws, size, overlap, start);
    if start + size >= n {
        assert(v == seq![join_space(ws.subrange(start as int, n as int))] + Seq::<Seq<char>>::empty());
        assert((j0 + 0) * step == start);
    } else {
        assert((j0 + 1) * step == start + step) by (nonlinear_arith)
            requires
                start == j0 * step,
        ;
        assert(start + step < n);
        lemma_windows_are_spaced(ws, size, overlap, j0 + 1);
        let rest = windows_from(ws, size, overlap, (j0 + 1) * step);
        assert(v == seq![join_space(ws.subrange(start as int, (start + size) as int))] + rest);
        assert forall|j: int| 0 <= j < v.len() implies v[j] == word_window(ws, size, (j0 + j) * step) by {
            if j == 0 {
                assert((j0 + j) * step == start);
            } else {
                assert(v[j] == rest[j - 1]);
                assert((j0 + 1) + (j - 1) == j0 + j);
            }
        }
        assert((j0 + 1) + rest.len() - 1 == j0 + v.len() - 1);
        if rest.len() == 1 {
            assert(j0 + v.len() - 2 == j0);
        } else {
            assert((j0 + 1) + rest.len() - 2 == j0 + v.len() - 2);
        }
    }
}

/// Whether the chunks of `text` are `k` windows of `W` words (`W` for
/// `chunk_size_tokens`) spaced `W - O` words apart (`O` for
/// `overlap_tokens`; one word apart when the overlap is not smaller than
/// the window), `k` being the fewest windows whose last reaches the final
/// word, kept as `spaced_chunks` says.
pub open spec fn chunks_are_spaced_windows(text: Seq<char>, chunk_size_tokens: nat, overlap_tokens: nat, k: nat) -> bool {
    let ws = words(text);
    let w = tokens_to_words_spec(chunk_size_tokens);
    let o = tokens_to_words_spec(overlap_tokens);
    let step: nat = if w > o { (w - o) as nat } else { 1 };
    &&& k >= 1
    &&& (k - 1) * step + w >= ws.len()
    &&& k >= 2 ==> (k - 2) * step + w < ws.len()
    &&& chunk_text_spec(text, chunk_size_tokens, overlap_tokens) == spaced_chunks(ws, w, step, k)
}

/// The chunks of a text are windows of `W` words spaced `W - O` words
/// apart: window `j` starts at word `j * (W - O)`, and there are `k`
/// windows, the fewest whose last reaches the final word. All `k` are kept
/// when there are at most three, otherwise the first, the one at index
/// `k / 2` and the last. Stated for windows of at least one word and text
/// with words.
pub proof fn law_chunks_are_spaced_windows(text: Seq<char>, chunk_size_tokens: nat, overlap_tokens: nat)
    requires
        tokens_to_words_spec(chunk_size_tokens) >= 1,
        words(text).len() > 0,
    ensures
        exists|k: nat| chunks_are_spaced_windows(text, chunk_size_tokens, overlap_tokens, k),
{
    let ws = words(text);
    let w = tokens_to_words_spec(chunk_size_tokens);
    let o = tokens_to_words_spec(overlap_tokens);
    let step = window_step(w, o);
    assert(0 * step == 0);
    lemma_windows_are_spaced(ws, w, o, 0);
    let v = windows(ws, w, o);
    let k = v.len();
    let cs = chunk_text_spec(text, chunk_size_tokens, overlap_tokens);
    assert(cs == representative(v));
    if k <= 3 {
        assert forall|j: int| 0 <= j < k implies v[j] == word_window(ws, w, j * step) by {
            assert(0 + j == j);
        }
        assert(cs =~= spaced_chunks(ws, w, step, k));
    } else {
        assert(v[0] == word_window(ws, w, (0 + 0) * step as int));
        assert(v[(k / 2) as int] == word_window(ws, w, (0 + (k / 2) as int) * step));
        assert(v[k - 1] == word_window(ws, w, (0 + (k - 1)) * step));
        assert(cs =~= spaced_chunks(ws, w, step, k));
    }
    let stepx: nat = if w > o { (w - o) as nat } else { 1 };
    assert(stepx == step);
    assert((0 + k - 1) * step == (k - 1) * stepx);
    assert((0 + k - 2) * step == (k - 2) * stepx);
    assert(k >= 1 && (k - 1) * stepx + w >= ws.len() && (k >= 2 ==> (k - 2) * stepx + w < ws.len())
        && cs == spaced_chunks(ws, w, stepx, k));
    assert(chunks_are_spaced_windows(text, chunk_size_tokens, overlap_tokens, k));
}

} // verus!
