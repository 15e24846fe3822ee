//! What indexing a file stores: its identity, its facts and the records of
//! its chunks.

use vstd::prelude::*;
use vstd::utf8::encode_utf8;
use crate::chunker::{chunk_text, chunk_text_spec};
use crate::classifier::{category_for_extension, category_of};
use crate::paths::{lower_extension, lower_extension_spec, path_file_name, path_file_name_of};
use crate::text::{decimal, take_chars, truncate_chars, u64_decimal, views};

verus! {

/// The SHA-256 digest of a byte string.
pub uninterp spec fn sha256_of(data: Seq<u8>) -> Seq<u8>;

/// `Sha256::digest` (crate `sha2`). Claims that the result is `sha256_of`
/// of the data and is 32 bytes long, the output size of SHA-256.
#[verifier::external_body]
fn sha256_digest(data: &[u8]) -> (r: Vec<u8>)
    ensures
        r@ == sha256_of(data@),
        r@.len() == 32,
{
    <sha2::Sha256 as sha2::Digest>::digest(data).to_vec()
}

/// The lower-case hexadecimal digit of `n < 16`.
pub open spec fn hex_digit(n: nat) -> char {
    if n < 10 { (48 + n) as char } else { (87 + n) as char }
}

/// Bytes in lower-case hexadecimal, two digits per byte, high nibble first.
pub open spec fn hex_lower(data: Seq<u8>) -> Seq<char>
    decreases data.len(),
{
    if data.len() == 0 {
        seq![]
    } else {
        hex_lower(data.drop_last()) + seq![
            hex_digit((data.last() / 16) as nat),
            hex_digit((data.last() % 16) as nat),
        ]
    }
}

proof fn lemma_hex_lower_len(data: Seq<u8>)
    ensures
        hex_lower(data).len() == 2 * data.len(),
    decreases data.len(),
{
    if data.len() > 0 {
        lemma_hex_lower_len(data.drop_last());
    }
}

/// `hex::encode` (crate `hex`). Claims the encoding its documentation and
/// source give: two lower-case hexadecimal digits per byte, high nibble
/// first.
#[verifier::external_body]
fn hex_encode(data: &[u8]) -> (r: String)
    ensures
        r@ == hex_lower(data@),
{
    hex::encode(data)
}

/// The identifier of the file at `path`: the first 16 hexadecimal digits of
/// the SHA-256 digest of the path's UTF-8 bytes.
pub open spec fn file_id_spec(path: Seq<char>) -> Seq<char> {
    hex_lower(sha256_of(encode_utf8(path))).take(16)
}

/// Computes `file_id_spec`.
pub fn file_id(path: &str) -> (r: String)
    ensures
        r@ == file_id_spec(path@),
        r@.len() == 16,
{
    let digest = sha256_digest(path.as_bytes());
    let hex = hex_encode(digest.as_slice());
    proof {
        lemma_hex_lower_len(digest@);
    }
    truncate_chars(hex.as_str(), 16)
}

/// Indexing progress: files started, files stored and files that failed.
pub struct IndexStatus {
    pub total: u64,
    pub indexed: u64,
    pub failed: u64,
    pub is_running: bool,
}

/// `x + 1`, wrapping at `u64::MAX` as an atomic counter's `fetch_add` does.
pub open spec fn counter_next(x: u64) -> u64 {
    if x == u64::MAX { 0 } else { (x + 1) as u64 }
}

fn counter_step(x: u64) -> (r: u64)
    ensures
        r == counter_next(x),
{
    if x == u64::MAX { 0 } else { x + 1 }
}

/// The counters of indexing: files started, files stored, files that failed.
#[derive(Clone, Copy, Debug, PartialEq, Eq, Structural)]
pub struct IndexCounters {
    pub total: u64,
    pub indexed: u64,
    pub failed: u64,
}

/// What follows the outcome of storing a file's chunks.
pub enum IndexAction {
    /// Storing failed: the file goes to the retry queue.
    QueueRetry,
    /// Storing succeeded: the progress is reported.
    ReportProgress(IndexStatus),
}

/// The counters after a file is started.
pub open spec fn started(c: IndexCounters) -> IndexCounters {
    IndexCounters { total: counter_next(c.total), ..c }
}

/// The counters after a file's chunks were stored (`stored`) or not.
pub open spec fn finished(c: IndexCounters, stored: bool) -> IndexCounters {
    if stored {
        IndexCounters { indexed: counter_next(c.indexed), ..c }
    } else {
        IndexCounters { failed: counter_next(c.failed), ..c }
    }
}

/// Files started and not yet finished.
pub open spec fn in_flight(c: IndexCounters) -> int {
    c.total - c.indexed - c.failed
}

impl IndexCounters {
    /// No file seen.
    pub fn new() -> (c: Self)
        ensures
            c.total == 0 && c.indexed == 0 && c.failed == 0,
    {
        IndexCounters { total: 0, indexed: 0, failed: 0 }
    }

    /// Counts a file whose chunks are about to be stored.
    pub fn start_file(&mut self)
        ensures
            *final(self) == started(*old(self)),
    {
        self.total = counter_step(self.total);
    }

    /// Counts the outcome of storing a file's chunks, and says what follows:
    /// a retry when storing failed, the progress (running) when it succeeded.
    pub fn finish_file(&mut self, stored: bool) -> (a: IndexAction)
        ensures
            *final(self) == finished(*old(self), stored),
            stored ==> a == IndexAction::ReportProgress(
                (IndexStatus {
                    total: final(self).total,
                    indexed: final(self).indexed,
                    failed: final(self).failed,
                    is_running: true,
                }),
            ),
            !stored ==> a is QueueRetry,
    {
        if stored {
            self.indexed = counter_step(self.indexed);
            IndexAction::ReportProgress(
                IndexStatus {
                    total: self.total,
                    indexed: self.indexed,
                    failed: self.failed,
                    is_running: true,
                },
            )
        } else {
            self.failed = counter_step(self.failed);
            IndexAction::QueueRetry
        }
    }

    /// The progress as the counters stand.
    pub fn status(&self, is_running: bool) -> (s: IndexStatus)
        ensures
            s.total == self.total && s.indexed == self.indexed && s.failed == self.failed
                && s.is_running == is_running,
    {
        IndexStatus { total: self.total, indexed: self.indexed, failed: self.failed, is_running }
    }
}

/// Starting and finishing a file leaves the number of files in flight as it
/// was (while no counter wraps): every started file is counted once as
/// stored or failed.
pub proof fn law_each_started_file_finishes_once(c: IndexCounters, stored: bool)
    requires
        c.total < u64::MAX,
        c.indexed < u64::MAX,
        c.failed < u64::MAX,
    ensures
        in_flight(finished(started(c), stored)) == in_flight(c),
{
}

/// With no file in flight, the files started are those stored plus those
/// that failed, and that stays so file after file (while no counter wraps).
pub proof fn law_settled_counters_add_up(c: IndexCounters, stored: bool)
    requires
        c.total == c.indexed + c.failed,
        c.total < u64::MAX,
    ensures
        finished(started(c), stored).total == finished(started(c), stored).indexed + finished(
            started(c),
            stored,
        ).failed,
{
}

/// The window of a chunk, in tokens.
pub const CHUNK_SIZE_TOKENS: usize = 400;

/// The overlap of consecutive chunks, in tokens.
pub const CHUNK_OVERLAP_TOKENS: usize = 50;

/// The most characters of a chunk that a record keeps.
pub const MAX_RECORD_TEXT_CHARS: usize = 2000;

/// The texts indexed for a file: its chunks, or its name alone when no text
/// was extracted from it.
pub open spec fn index_texts_spec(text: Seq<char>, name: Seq<char>) -> Seq<Seq<char>> {
    if text.len() == 0 {
        seq![name]
    } else {
        chunk_text_spec(text, CHUNK_SIZE_TOKENS as nat, CHUNK_OVERLAP_TOKENS as nat)
    }
}

/// Computes `index_texts_spec`.
pub fn index_texts(text: &str, name: &str) -> (r: Vec<String>)
    ensures
        views(r@) == index_texts_spec(text@, name@),
{
    if text.is_empty() {
        let r = vec![name.to_owned()];
        assert(views(r@) =~= seq![name@]);
        r
    } else {
        chunk_text(text, CHUNK_SIZE_TOKENS, CHUNK_OVERLAP_TOKENS)
    }
}

/// What indexing records of a file, apart from its chunks.
pub struct FileFacts {
    pub file_id: String,
    pub path: String,
    pub name: String,
    pub extension: String,
    pub size: i64,
    pub modified_at: i64,
    pub category: String,
}

/// The file name of a path, or the empty string.
pub open spec fn name_or_empty(name: Option<Seq<char>>) -> Seq<char> {
    match name {
        Some(n) => n,
        None => seq![],
    }
}

/// The facts of the file at `path`, given its size and modification time.
pub fn file_facts(path: &str, size: i64, modified_at: i64) -> (f: FileFacts)
    ensures
        f.file_id@ == file_id_spec(path@),
        f.path@ == path@,
        f.name@ == name_or_empty(path_file_name_of(path@)),
        f.extension@ == lower_extension_spec(path@),
        f.category@ == category_of(lower_extension_spec(path@)),
        f.size == size,
        f.modified_at == modified_at,
{
    let name = match path_file_name(path) {
        Some(n) => n,
        None => String::new(),
    };
    let extension = lower_extension(path);
    let category = category_for_extension(extension.as_str()).to_owned();
    FileFacts {
        file_id: file_id(path),
        path: path.to_owned(),
        name,
        extension,
        size,
        modified_at,
        category,
    }
}

/// A stored chunk of a file, without its embedding. The user category,
/// thumbnail and deletion time of a freshly indexed chunk are unset.
pub struct ChunkRecord {
    pub id: String,
    pub file_id: String,
    pub path: String,
    pub name: String,
    pub extension: String,
    pub size: i64,
    pub modified_at: i64,
    pub category: String,
    pub chunk_index: i32,
    pub content_text: String,
    pub indexed_at: i64,
}

/// Record `i` of the chunks `texts` of the file `f`, indexed at `now`.
pub open spec fn is_chunk_record(r: ChunkRecord, f: FileFacts, texts: Seq<Seq<char>>, i: int, now: i64) -> bool {
    &&& r.id@ == f.file_id@ + seq!['_'] + decimal(i)
    &&& r.file_id@ == f.file_id@
    &&& r.path@ == f.path@
    &&& r.name@ == f.name@
    &&& r.extension@ == f.extension@
    &&& r.size == f.size
    &&& r.modified_at == f.modified_at
    &&& r.category@ == f.category@
    &&& r.chunk_index == i as i32
    &&& r.content_text@ == take_chars(texts[i], MAX_RECORD_TEXT_CHARS as nat)
    &&& r.indexed_at == now
}

/// The records of the chunks `texts` of the file `f`, indexed at `now`:
/// one per chunk, numbered from zero.
pub fn chunk_records(f: &FileFacts, texts: &Vec<String>, now: i64) -> (r: Vec<ChunkRecord>)
    ensures
        r@.len() == texts@.len(),
        forall|i: int| 0 <= i < r@.len() ==> is_chunk_record(#[trigger] r@[i], *f, views(texts@), i, now),
{
    let mut r: Vec<ChunkRecord> = Vec::new();
    let mut i: usize = 0;
    while i < texts.len()
        invariant
            i <= texts@.len(),
            r@.len() == i,
            forall|k: int| 0 <= k < i ==> is_chunk_record(#[trigger] r@[k], *f, views(texts@), k, now),
        decreases texts@.len() - i,
    {
        let mut id = f.file_id.clone();
        id.append("_");
        let n = u64_decimal(i as u64);
        id.append(n.as_str());
        let rec = ChunkRecord {
            id,
            file_id: f.file_id.clone(),
            path: f.path.clone(),
            name: f.name.clone(),
            extension: f.extension.clone(),
            size: f.size,
            modified_at: f.modified_at,
            category: f.category.clone(),
            chunk_index: i as i32,
            content_text: truncate_chars(texts[i].as_str(), MAX_RECORD_TEXT_CHARS),
            indexed_at: now,
        };
        proof {
            reveal_strlit("_");
        }
        assert(rec.id@ =~= f.file_id@ + seq!['_'] + decimal(i as int));
        r.push(rec);
        i += 1;
    }
    r
}

/// A chunk record carries the facts of its file as they are: its identity,
/// path, name, extension, size, modification time and category come from
/// the file, whatever the indexing time; only `indexed_at` is the indexing
/// time. Two records of the same chunk indexed at different times differ
/// in that field alone.
pub proof fn law_records_keep_the_file_facts(
    r: ChunkRecord,
    q: ChunkRecord,
    f: FileFacts,
    texts: Seq<Seq<char>>,
    i: int,
    now: i64,
    later: i64,
)
    requires
        is_chunk_record(r, f, texts, i, now),
        is_chunk_record(q, f, texts, i, later),
    ensures
        r.file_id@ == f.file_id@,
        r.path@ == f.path@,
        r.name@ == f.name@,
        r.extension@ == f.extension@,
        r.size == f.size,
        r.modified_at == f.modified_at,
        r.category@ == f.category@,
        r.indexed_at == now,
        q.modified_at == r.modified_at && q.size == r.size && q.id@ == r.id@ && q.chunk_index
            == r.chunk_index && q.content_text@ == r.content_text@,
{
}

} // verus!
