//! Turning the chunk hits of a vector query into a ranking of files.

use vstd::prelude::*;

verus! {

/// Optional restrictions of a search.
pub struct SearchFilters {
    pub category: Option<String>,
    pub extension: Option<String>,
    pub min_size: Option<i64>,
    pub max_size: Option<i64>,
    pub after_ms: Option<i64>,
    pub before_ms: Option<i64>,
}

impl Default for SearchFilters {
    /// No restriction at all.
    fn default() -> (f: Self)
        ensures
            f.category is None,
            f.extension is None,
            f.min_size is None,
            f.max_size is None,
            f.after_ms is None,
            f.before_ms is None,
    {
        SearchFilters {
            category: None,
            extension: None,
            min_size: None,
            max_size: None,
            after_ms: None,
            before_ms: None,
        }
    }
}

/// One hit of a vector query, in the order the store returned it: the file
/// the chunk belongs to and the hit's score as an integer key that orders
/// hits as their scores do.
pub struct ChunkHit {
    pub file_id: String,
    pub score: u32,
}

/// One file of the ranking. `chunk` is the first hit of the file, whose
/// record describes the file; `best` is the first hit of the file with the
/// highest score; `score` is that score.
#[derive(Clone, Copy, Debug, PartialEq, Eq, Structural)]
pub struct FileHit {
    pub chunk: usize,
    pub best: usize,
    pub score: u32,
}

/// Hits `i` and `j` belong to the same file.
pub open spec fn same_file(h: Seq<ChunkHit>, i: int, j: int) -> bool {
    h[i].file_id@ == h[j].file_id@
}

/// Hit `i` is the first hit of its file.
pub open spec fn first_of_file(h: Seq<ChunkHit>, i: int) -> bool {
    &&& 0 <= i < h.len()
    &&& forall|j: int| 0 <= j < i ==> !#[trigger] same_file(h, j, i)
}

/// Among the hits before `upto`, `b` is the first one with the highest score
/// of the file of hit `c`.
pub open spec fn best_before(h: Seq<ChunkHit>, upto: int, c: int, b: int) -> bool {
    &&& 0 <= b < upto <= h.len()
    &&& same_file(h, c, b)
    &&& forall|j: int| 0 <= j < upto && #[trigger] same_file(h, c, j) ==> h[j].score <= h[b].score
    &&& forall|j: int| 0 <= j < b && #[trigger] same_file(h, c, j) ==> h[j].score < h[b].score
}

/// Some entry of `fs` belongs to the file of hit `j`.
pub open spec fn file_listed(h: Seq<ChunkHit>, fs: Seq<FileHit>, j: int) -> bool {
    exists|g: int| 0 <= g < fs.len() && #[trigger] same_file(h, fs[g].chunk as int, j)
}

/// `x` ranks before `y`: a higher score first, and among equal scores the
/// file whose first hit came first.
pub open spec fn ranks_before(x: FileHit, y: FileHit) -> bool {
    x.score > y.score || (x.score == y.score && x.chunk < y.chunk)
}

/// `f` describes its file faithfully among the hits before `upto`.
pub open spec fn describes_file(h: Seq<ChunkHit>, upto: int, f: FileHit) -> bool {
    &&& first_of_file(h, f.chunk as int)
    &&& f.chunk < upto
    &&& best_before(h, upto, f.chunk as int, f.best as int)
    &&& f.score == h[f.best as int].score
}

/// `out` ranks the files of `h`: one entry per file, each with its first
/// hit and its best hit, ordered by `ranks_before`.
pub open spec fn is_file_ranking(h: Seq<ChunkHit>, out: Seq<FileHit>) -> bool {
    &&& forall|k: int| 0 <= k < out.len() ==> describes_file(h, h.len() as int, #[trigger] out[k])
    &&& forall|i: int|
        #![trigger first_of_file(h, i)]
        first_of_file(h, i) ==> exists|k: int| 0 <= k < out.len() && out[k].chunk == i
    &&& forall|k: int, l: int| 0 <= k < l < out.len() ==> ranks_before(out[k], out[l])
}

/// Whether `x` ranks before `y`.
fn ranks_before_exec(x: &FileHit, y: &FileHit) -> (b: bool)
    ensures
        b == ranks_before(*x, *y),
{
    x.score > y.score || (x.score == y.score && x.chunk < y.chunk)
}

/// Groups the hits by file in order of first appearance, keeping for each
/// file its first hit and its first best-scoring hit.
fn group_by_file(hits: &Vec<ChunkHit>) -> (groups: Vec<FileHit>)
    ensures
        forall|g: int| 0 <= g < groups@.len() ==> describes_file(hits@, hits@.len() as int, #[trigger] groups@[g]),
        forall|g1: int, g2: int| 0 <= g1 < g2 < groups@.len() ==> groups@[g1].chunk < groups@[g2].chunk,
        forall|j: int| 0 <= j < hits@.len() ==> #[trigger] file_listed(hits@, groups@, j),
{
    let ghost h = hits@;
    let mut groups: Vec<FileHit> = Vec::new();
    let mut i: usize = 0;
    while i < hits.len()
        invariant
            h == hits@,
            i <= h.len(),
            forall|g: int| 0 <= g < groups@.len() ==> describes_file(h, i as int, #[trigger] groups@[g]),
            forall|g1: int, g2: int| 0 <= g1 < g2 < groups@.len() ==> groups@[g1].chunk < groups@[g2].chunk,
            forall|j: int| 0 <= j < i ==> #[trigger] file_listed(h, groups@, j),
        decreases h.len() - i,
    {
        let mut found: Option<usize> = None;
        let mut g: usize = 0;
        while g < groups.len()
            invariant
                h == hits@,
                i < h.len(),
                g <= groups@.len(),
                forall|k: int| 0 <= k < groups@.len() ==> (#[trigger] groups@[k]).chunk < i,
                match found {
                    Some(f) => f < groups@.len() && same_file(h, groups@[f as int].chunk as int, i as int),
                    None => forall|k: int| 0 <= k < g ==> !same_file(h, (#[trigger] groups@[k]).chunk as int, i as int),
                },
            decreases groups@.len() - g,
        {
            if found.is_none() && hits[groups[g].chunk].file_id == hits[i].file_id {
                found = Some(g);
            }
            g += 1;
        }
        let ghost before = groups@;
        match found {
            Some(f) => {
                let cur = groups[f];
                if hits[i].score > cur.score {
                    groups.set(f, FileHit { chunk: cur.chunk, best: i, score: hits[i].score });
                }
                assert forall|k: int| 0 <= k < groups@.len() implies describes_file(h, i + 1, #[trigger] groups@[k]) by {
                    assert(describes_file(h, i as int, before[k]));
                    if k != f {
                        if same_file(h, before[k].chunk as int, i as int) {
                            // two groups of one file would share their first hit
                            assert(same_file(h, before[k].chunk as int, before[f as int].chunk as int));
                            if before[k].chunk < before[f as int].chunk {
                                assert(!same_file(h, before[k].chunk as int, before[f as int].chunk as int));
                            } else if before[k].chunk > before[f as int].chunk {
                                assert(!same_file(h, before[f as int].chunk as int, before[k].chunk as int));
                            }
                        }
                    }
                }
                assert forall|j: int| 0 <= j < i + 1 implies #[trigger] file_listed(h, groups@, j) by {
                    if j < i {
                        assert(file_listed(h, before, j));
                        let g0 = choose|g: int| 0 <= g < before.len() && #[trigger] same_file(h, before[g].chunk as int, j);
                        assert(groups@[g0].chunk == before[g0].chunk);
                        assert(same_file(h, groups@[g0].chunk as int, j));
                    } else {
                        assert(same_file(h, groups@[f as int].chunk as int, j));
                    }
                }
            },
            None => {
                assert(first_of_file(h, i as int)) by {
                    assert forall|j: int| 0 <= j < i implies !#[trigger] same_file(h, j, i as int) by {
                        if same_file(h, j, i as int) {
                            assert(file_listed(h, before, j));
                            let g0 = choose|g: int| 0 <= g < before.len() && #[trigger] same_file(h, before[g].chunk as int, j);
                            assert(same_file(h, before[g0].chunk as int, i as int));
                        }
                    }
                }
                groups.push(FileHit { chunk: i, best: i, score: hits[i].score });
                assert forall|k: int| 0 <= k < groups@.len() implies describes_file(h, i + 1, #[trigger] groups@[k]) by {
                    if k < before.len() {
                        assert(describes_file(h, i as int, before[k]));
                        assert(groups@[k] == before[k]);
                        assert(!same_file(h, before[k].chunk as int, i as int));
                    } else {
                        assert forall|j: int| 0 <= j < i + 1 && #[trigger] same_file(h, i as int, j)
                            implies h[j].score <= h[i as int].score by {
                            if j < i {
                                assert(!same_file(h, j, i as int));
                            }
                        }
                        assert forall|j: int| 0 <= j < i && #[trigger] same_file(h, i as int, j)
                            implies h[j].score < h[i as int].score by {
                            assert(!same_file(h, j, i as int));
                        }
                    }
                }
                assert forall|j: int| 0 <= j < i + 1 implies #[trigger] file_listed(h, groups@, j) by {
                    if j < i {
                        assert(file_listed(h, before, j));
                        let g0 = choose|g: int| 0 <= g < before.len() && #[trigger] same_file(h, before[g].chunk as int, j);
                        assert(groups@[g0] == before[g0]);
                        assert(same_file(h, groups@[g0].chunk as int, j));
                    } else {
                        assert(same_file(h, groups@[before.len() as int].chunk as int, j));
                    }
                }
            },
        }
        i += 1;
    }
    groups
}


/// The first hit of the file of hit `j`, searching from `i` on.
proof fn lemma_first_hit_of_file(h: Seq<ChunkHit>, j: int, i: int) -> (f: int)
    requires
        0 <= i <= j < h.len(),
        forall|k: int| 0 <= k < i ==> !#[trigger] same_file(h, k, j),
    ensures
        first_of_file(h, f),
        same_file(h, f, j),
        f <= j,
    decreases j - i,
{
    if same_file(h, i, j) {
        assert forall|k: int| 0 <= k < i implies !#[trigger] same_file(h, k, i) by {
            assert(!same_file(h, k, j));
        }
        i
    } else {
        lemma_first_hit_of_file(h, j, i + 1)
    }
}

/// In a ranking, no file appears twice.
pub proof fn law_ranking_lists_each_file_once(h: Seq<ChunkHit>, out: Seq<FileHit>)
    requires
        is_file_ranking(h, out),
    ensures
        forall|k: int, l: int|
            0 <= k < l < out.len() ==> !same_file(h, #[trigger] out[k].chunk as int, #[trigger] out[l].chunk as int),
{
    assert forall|k: int, l: int| 0 <= k < l < out.len() implies !same_file(
        h,
        #[trigger] out[k].chunk as int,
        #[trigger] out[l].chunk as int,
    ) by {
        let x = out[k];
        let y = out[l];
        assert(describes_file(h, h.len() as int, x));
        assert(describes_file(h, h.len() as int, y));
        assert(ranks_before(x, y));
        if same_file(h, x.chunk as int, y.chunk as int) {
            if x.chunk < y.chunk {
                assert(!same_file(h, x.chunk as int, y.chunk as int));
            } else if x.chunk > y.chunk {
                assert(!same_file(h, y.chunk as int, x.chunk as int));
            }
            // one file, one best score
            assert(same_file(h, x.chunk as int, y.best as int));
            assert(same_file(h, y.chunk as int, x.best as int));
            assert(h[y.best as int].score <= h[x.best as int].score);
            assert(h[x.best as int].score <= h[y.best as int].score);
        }
    }
}

/// Every hit is represented in a ranking by its file, with a score at least
/// as high as the hit's.
pub proof fn law_ranking_covers_every_hit(h: Seq<ChunkHit>, out: Seq<FileHit>, j: int)
    requires
        is_file_ranking(h, out),
        0 <= j < h.len(),
    ensures
        exists|k: int| 0 <= k < out.len() && same_file(h, #[trigger] out[k].chunk as int, j) && out[k].score >= h[j].score,
{
    let f = lemma_first_hit_of_file(h, j, 0);
    let k = choose|k: int| 0 <= k < out.len() && out[k].chunk == f;
    assert(describes_file(h, h.len() as int, out[k]));
    assert(same_file(h, f, j));
    assert(same_file(h, out[k].chunk as int, j));
}

/// `x` is an entry of `s`.
pub open spec fn listed_in(x: FileHit, s: Seq<FileHit>) -> bool {
    exists|k: int| 0 <= k < s.len() && s[k] == x
}

/// Ranks the files that the hits of a vector query belong to: each file
/// appears once, with its first hit (whose record describes the file) and
/// its highest score (taken from the first hit that reaches it); files are
/// ordered by descending score, and files with equal scores by their first
/// appearance among the hits.
pub fn rank_files(hits: &Vec<ChunkHit>) -> (out: Vec<FileHit>)
    ensures
        is_file_ranking(hits@, out@),
{
    let groups = group_by_file(hits);
    let ghost gs = groups@;
    let mut out: Vec<FileHit> = Vec::new();
    let mut i: usize = 0;
    while i < groups.len()
        invariant
            gs == groups@,
            i <= gs.len(),
            forall|g1: int, g2: int| 0 <= g1 < g2 < gs.len() ==> gs[g1].chunk < gs[g2].chunk,
            forall|k: int| 0 <= k < out@.len() ==> #[trigger] listed_in(out@[k], gs.take(i as int)),
            forall|g: int| 0 <= g < i ==> #[trigger] listed_in(gs[g], out@),
            forall|k: int, l: int| 0 <= k < l < out@.len() ==> ranks_before(out@[k], out@[l]),
        decreases gs.len() - i,
    {
        let x = groups[i];
        let mut p: usize = 0;
        while p < out.len() && !ranks_before_exec(&x, &out[p])
            invariant
                p <= out@.len(),
                forall|k: int| 0 <= k < p ==> !ranks_before(x, #[trigger] out@[k]),
            decreases out@.len() - p,
        {
            p += 1;
        }
        let ghost before = out@;
        // every entry so far comes from an earlier group, so its first hit differs from x's
        assert forall|k: int| 0 <= k < before.len() implies (#[trigger] before[k]).chunk != x.chunk by {
            assert(listed_in(before[k], gs.take(i as int)));
            let g = choose|g: int| 0 <= g < gs.take(i as int).len() && gs.take(i as int)[g] == before[k];
            assert(gs[g] == before[k]);
        }
        out.insert(p, x);
        assert(out@ == before.insert(p as int, x));
        assert forall|k: int, l: int| 0 <= k < l < out@.len() implies ranks_before(out@[k], out@[l]) by {
            if l < p {
                assert(out@[k] == before[k] && out@[l] == before[l]);
            } else if l == p {
                assert(out@[k] == before[k]);
                assert(!ranks_before(x, before[k]));
            } else if k < p {
                assert(out@[k] == before[k] && out@[l] == before[l - 1]);
                assert(!ranks_before(x, before[k]));
                assert(ranks_before(x, before[p as int]));
                assert(ranks_before(before[k], before[p as int]) || k == p);
            } else if k == p {
                assert(out@[l] == before[l - 1]);
                assert(ranks_before(x, before[p as int]));
                assert(ranks_before(before[p as int], before[l - 1]) || l - 1 == p);
            } else {
                assert(out@[k] == before[k - 1] && out@[l] == before[l - 1]);
            }
        }
        assert forall|k: int| 0 <= k < out@.len() implies #[trigger] listed_in(out@[k], gs.take(i + 1)) by {
            if k == p {
                assert(gs.take(i + 1)[i as int] == x);
            } else {
                let k0 = if k < p { k } else { k - 1 };
                assert(out@[k] == before[k0]);
                assert(listed_in(before[k0], gs.take(i as int)));
                let g = choose|g: int| 0 <= g < gs.take(i as int).len() && gs.take(i as int)[g] == before[k0];
                assert(gs.take(i + 1)[g] == before[k0]);
            }
        }
        assert forall|g: int| 0 <= g < i + 1 implies #[trigger] listed_in(gs[g], out@) by {
            if g == i {
                assert(out@[p as int] == x);
            } else {
                assert(listed_in(gs[g], before));
                let k = choose|k: int| 0 <= k < before.len() && before[k] == gs[g];
                if k < p {
                    assert(out@[k] == before[k]);
                } else {
                    assert(out@[k + 1] == before[k]);
                }
            }
        }
        i += 1;
    }
    let ghost h = hits@;
    assert forall|k: int| 0 <= k < out@.len() implies describes_file(h, h.len() as int, #[trigger] out@[k]) by {
        assert(listed_in(out@[k], gs.take(i as int)));
        let g = choose|g: int| 0 <= g < gs.take(i as int).len() && gs.take(i as int)[g] == out@[k];
        assert(gs[g] == out@[k]);
    }
    assert forall|j: int| #![trigger first_of_file(h, j)]
        first_of_file(h, j) implies exists|k: int| 0 <= k < out@.len() && out@[k].chunk == j by {
        assert(file_listed(h, gs, j));
        let g = choose|g: int| 0 <= g < gs.len() && #[trigger] same_file(h, gs[g].chunk as int, j);
        let c = gs[g].chunk as int;
        assert(first_of_file(h, c));
        if c < j {
            assert(!same_file(h, c, j));
        } else if c > j {
            assert(!same_file(h, j, c));
        }
        assert(listed_in(gs[g], out@));
        let k = choose|k: int| 0 <= k < out@.len() && out@[k] == gs[g];
        assert(out@[k].chunk == j);
    }
    out
}

} // verus!
