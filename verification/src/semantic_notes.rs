//! Semantic note-search support: the index configuration, chunk metadata
//! parsing and snippet building. The index itself — video encoding,
//! embeddings, disk — is the host's business; in a build without an index
//! backend the entry points report that plainly.

use vstd::prelude::*;
use crate::text::{self, find_from, lines_spec, trim_spec};

verus! {

/// Logging configuration of the media encoder.
#[derive(Debug, Clone)]
pub struct FfmpegConfig {
    pub library_log_level: String,
    pub cli_log_level: String,
    pub hide_banner: bool,
    pub x265_log_level: String,
}

impl Default for FfmpegConfig {
    fn default() -> (r: Self)
        ensures
            r.library_log_level@ == "error"@,
            r.cli_log_level@ == "error"@,
            r.hide_banner == true,
            r.x265_log_level@ == "error"@,
    {
        FfmpegConfig {
            library_log_level: "error".to_owned(),
            cli_log_level: "error".to_owned(),
            hide_banner: true,
            x265_log_level: "error".to_owned(),
        }
    }
}

/// How note bodies are cut into chunks.
#[derive(Debug, Clone)]
pub struct ChunkingConfig {
    pub chunk_size: usize,
    pub overlap: usize,
}

impl Default for ChunkingConfig {
    fn default() -> (r: Self)
        ensures
            r.chunk_size == 500,
            r.overlap == 100,
    {
        ChunkingConfig { chunk_size: 500, overlap: 100 }
    }
}

/// Which device the embedding model runs on.
#[derive(Debug, Clone)]
pub struct MlConfig {
    pub device: String,
}

impl Default for MlConfig {
    fn default() -> (r: Self)
        ensures
            r.device@ == "metal"@,
    {
        MlConfig { device: "metal".to_owned() }
    }
}

/// How chunks are encoded.
#[derive(Debug, Clone)]
pub struct QrConfig {
    pub error_correction: String,
    pub version: Option<i16>,
    pub enable_compression: bool,
    pub compression_threshold: usize,
}

impl Default for QrConfig {
    fn default() -> (r: Self)
        ensures
            r.error_correction@ == "low"@,
            r.version is None,
            r.enable_compression == true,
            r.compression_threshold == 100,
    {
        QrConfig {
            error_correction: "low".to_owned(),
            version: None,
            enable_compression: true,
            compression_threshold: 100,
        }
    }
}

/// How chunk metadata is stored.
#[derive(Debug, Clone)]
pub struct MetadataConfig {
    pub strategy: String,
}

impl Default for MetadataConfig {
    fn default() -> (r: Self)
        ensures
            r.strategy@ == "indexed"@,
    {
        MetadataConfig { strategy: "indexed".to_owned() }
    }
}

/// Whether fetched note content is cached.
#[derive(Debug, Clone)]
pub struct CacheConfig {
    pub enable_notes_cache: bool,
}

impl Default for CacheConfig {
    fn default() -> (r: Self)
        ensures
            r.enable_notes_cache == true,
    {
        CacheConfig { enable_notes_cache: true }
    }
}

/// The whole index configuration.
#[derive(Debug, Clone)]
pub struct MemvidConfig {
    pub chunking: ChunkingConfig,
    pub ml: MlConfig,
    pub qr: QrConfig,
    pub metadata: MetadataConfig,
    pub cache: CacheConfig,
    pub ffmpeg: FfmpegConfig,
}

impl Default for MemvidConfig {
    fn default() -> (r: Self)
        ensures
            r.chunking.chunk_size == 500,
            r.chunking.overlap == 100,
            r.ml.device@ == "metal"@,
            r.qr.error_correction@ == "low"@,
            r.metadata.strategy@ == "indexed"@,
            r.cache.enable_notes_cache == true,
            r.ffmpeg.library_log_level@ == "error"@,
    {
        MemvidConfig {
            chunking: ChunkingConfig::default(),
            ml: MlConfig::default(),
            qr: QrConfig::default(),
            metadata: MetadataConfig::default(),
            cache: CacheConfig::default(),
            ffmpeg: FfmpegConfig::default(),
        }
    }
}

/// What the metadata index stores for one note.
#[derive(Debug, Clone)]
pub struct NoteMetadataEntry {
    pub note_id: String,
    pub title: String,
    pub folder: String,
    pub modified: String,
}

pub struct NoteMetadataEntryView {
    pub note_id: Seq<char>,
    pub title: Seq<char>,
    pub folder: Seq<char>,
    pub modified: Seq<char>,
}

impl View for NoteMetadataEntry {
    type V = NoteMetadataEntryView;

    open spec fn view(&self) -> NoteMetadataEntryView {
        NoteMetadataEntryView {
            note_id: self.note_id@,
            title: self.title@,
            folder: self.folder@,
            modified: self.modified@,
        }
    }
}

/// What the semantic index holds, by the host's account.
#[derive(Debug, Clone)]
pub struct IndexStats {
    pub exists: bool,
    pub is_stale: bool,
    pub indexed_note_count: usize,
    pub current_note_count: usize,
    pub last_updated: String,
    pub video_size_bytes: u64,
    pub index_size_bytes: u64,
}

/// The chunk-metadata fold over the chunk's lines: header lines set the
/// note id, title and folder, a modified line is skipped, and the first
/// other nonempty line starts the remaining content, located by its first
/// occurrence in the whole chunk.
pub open spec fn chunk_meta_fold(
    s: Seq<char>,
    ls: Seq<Seq<char>>,
    i: int,
    id: Seq<char>,
    title: Seq<char>,
    folder: Seq<char>,
) -> (Seq<char>, Seq<char>, Seq<char>, Seq<char>)
    decreases ls.len() - i,
{
    if i < 0 || i >= ls.len() {
        (id, title, folder, s)
    } else {
        let line = ls[i];
        if line.len() >= 9 && line.subrange(0, 9) == "NOTE_ID: "@ {
            chunk_meta_fold(s, ls, i + 1, line.subrange(9, line.len() as int), title, folder)
        } else if line.len() >= 7 && line.subrange(0, 7) == "TITLE: "@ {
            chunk_meta_fold(s, ls, i + 1, id, line.subrange(7, line.len() as int), folder)
        } else if line.len() >= 8 && line.subrange(0, 8) == "FOLDER: "@ {
            chunk_meta_fold(s, ls, i + 1, id, title, line.subrange(8, line.len() as int))
        } else if line.len() >= 10 && line.subrange(0, 10) == "MODIFIED: "@ {
            chunk_meta_fold(s, ls, i + 1, id, title, folder)
        } else if line.len() > 0 {
            (
                id,
                title,
                folder,
                match find_from(s, line, 0) {
                    Some(ix) => s.skip(ix),
                    None => s,
                },
            )
        } else {
            chunk_meta_fold(s, ls, i + 1, id, title, folder)
        }
    }
}

pub open spec fn chunk_meta_spec(s: Seq<char>) -> (Seq<char>, Seq<char>, Seq<char>, Seq<char>) {
    chunk_meta_fold(s, lines_spec(s), 0, Seq::empty(), Seq::empty(), Seq::empty())
}

/// Reads the inline metadata headers off a chunk: the note id, title and
/// folder, and the remaining content.
pub fn parse_chunk_metadata(chunk: &str) -> (r: (String, String, String, String))
    ensures
        (r.0@, r.1@, r.2@, r.3@) == chunk_meta_spec(chunk@),
{
    let raw = text::str_to_chars(chunk);
    let ls = text::lines_vec(&raw);
    let mut id: Vec<char> = Vec::new();
    let mut title: Vec<char> = Vec::new();
    let mut folder: Vec<char> = Vec::new();
    let mut i: usize = 0;
    while i < ls.len()
        invariant
            i <= ls@.len(),
            ls.deep_view() == lines_spec(raw@),
            raw@ == chunk@,
            chunk_meta_spec(chunk@) == chunk_meta_fold(
                raw@,
                ls.deep_view(),
                i as int,
                id@,
                title@,
                folder@,
            ),
        decreases ls@.len() - i,
    {
        proof {
            reveal_strlit("NOTE_ID: ");
            reveal_strlit("TITLE: ");
            reveal_strlit("FOLDER: ");
            reveal_strlit("MODIFIED: ");
            assert(ls.deep_view()[i as int] == ls@[i as int]@);
        }
        let line = &ls[i];
        proof {
            if line@.len() >= 9 {
                assert(line@.subrange(0, 9) =~= line@.subrange(0int, 0int + 9));
            }
            if line@.len() >= 7 {
                assert(line@.subrange(0, 7) =~= line@.subrange(0int, 0int + 7));
            }
            if line@.len() >= 8 {
                assert(line@.subrange(0, 8) =~= line@.subrange(0int, 0int + 8));
            }
            if line@.len() >= 10 {
                assert(line@.subrange(0, 10) =~= line@.subrange(0int, 0int + 10));
            }
        }
        if line.len() >= 9 && text::eq_at(line, 0, &text::str_to_chars("NOTE_ID: ")) {
            id = text::subvec(line, 9, line.len());
        } else if line.len() >= 7 && text::eq_at(line, 0, &text::str_to_chars("TITLE: ")) {
            title = text::subvec(line, 7, line.len());
        } else if line.len() >= 8 && text::eq_at(line, 0, &text::str_to_chars("FOLDER: ")) {
            folder = text::subvec(line, 8, line.len());
        } else if line.len() >= 10 && text::eq_at(line, 0, &text::str_to_chars("MODIFIED: ")) {
        } else if line.len() > 0 {
            let remaining: Vec<char> = match text::find_vec(&raw, line, 0) {
                Some(ix) => {
                    proof {
                        text::lemma_find_from_bounds(raw@, line@, 0);
                        assert(raw@.skip(ix as int)
                            =~= raw@.subrange(ix as int, raw@.len() as int));
                    }
                    text::subvec(&raw, ix, raw.len())
                }
                None => text::subvec(&raw, 0, raw.len()),
            };
            proof {
                assert(raw@.subrange(0, raw@.len() as int) =~= raw@);
            }
            return (
                text::chars_to_string(&id),
                text::chars_to_string(&title),
                text::chars_to_string(&folder),
                text::chars_to_string(&remaining),
            );
        }
        i += 1;
    }
    (
        text::chars_to_string(&id),
        text::chars_to_string(&title),
        text::chars_to_string(&folder),
        chunk.to_owned(),
    )
}

/// The position after the last space in `s`, if `s` holds one.
pub open spec fn last_space(s: Seq<char>) -> Option<int>
    decreases s.len(),
{
    if s.len() == 0 {
        None
    } else if s.last() == ' ' {
        Some(s.len() - 1)
    } else {
        last_space(s.drop_last())
    }
}

/// What a snippet of width `max` holds: the trimmed text whole if it
/// fits, else cut at the last space inside the width (or hard at the
/// width), with an ellipsis.
pub open spec fn snippet_spec(s: Seq<char>, max: int) -> Seq<char> {
    let t = trim_spec(s);
    if t.len() <= max {
        t
    } else {
        match last_space(t.take(max)) {
            Some(k) => t.take(k) + "..."@,
            None => t.take(max) + "..."@,
        }
    }
}

fn find_last_space(v: &Vec<char>) -> (r: Option<usize>)
    ensures
        match r {
            Some(k) => last_space(v@) == Some(k as int),
            None => last_space(v@) is None,
        },
{
    let mut j: usize = v.len();
    proof {
        assert(v@.take(v@.len() as int) =~= v@);
    }
    while j > 0
        invariant
            j <= v@.len(),
            last_space(v@) == last_space(v@.take(j as int)),
        decreases j,
    {
        proof {
            assert(v@.take(j as int).last() == v@[j - 1]);
            assert(v@.take(j as int).drop_last() =~= v@.take(j - 1 as int));
        }
        if v[j - 1] == ' ' {
            return Some(j - 1);
        }
        j -= 1;
    }
    proof {
        assert(v@.take(0) =~= Seq::<char>::empty());
    }
    None
}

/// Cuts a snippet of at most `max_len` characters from the text, ending
/// at a word boundary where one fits, with an ellipsis when cut.
pub fn create_snippet(s: &str, max_len: usize) -> (r: String)
    ensures
        r@ == snippet_spec(s@, max_len as int),
{
    let raw = text::str_to_chars(s);
    let t = text::trim_vec(&raw);
    if t.len() <= max_len {
        return text::chars_to_string(&t);
    }
    let head = text::subvec(&t, 0, max_len);
    proof {
        assert(t@.subrange(0, max_len as int) =~= t@.take(max_len as int));
    }
    let mut out: Vec<char> = match find_last_space(&head) {
        Some(k) => {
            proof {
                lemma_last_space_bounds(head@);
                assert(t@.subrange(0, k as int) =~= t@.take(k as int));
            }
            text::subvec(&t, 0, k)
        }
        None => head,
    };
    let dots = text::str_to_chars("...");
    text::push_all(&mut out, &dots);
    text::chars_to_string(&out)
}

proof fn lemma_last_space_bounds(s: Seq<char>)
    ensures
        last_space(s) matches Some(k) ==> 0 <= k < s.len(),
    decreases s.len(),
{
    if s.len() > 0 && s.last() != ' ' {
        lemma_last_space_bounds(s.drop_last());
    }
}

/// Where the semantic-index video lives.
pub fn video_path() -> (r: String)
    ensures
        exists|b: Seq<char>| r@ == crate::memory::memory_path_text(b, "apple_notes.mp4"@),
{
    media_file_path("apple_notes.mp4")
}

/// Where the semantic-index database lives.
pub fn index_path() -> (r: String)
    ensures
        exists|b: Seq<char>| r@ == crate::memory::memory_path_text(b, "apple_notes_index.db"@),
{
    media_file_path("apple_notes_index.db")
}

/// Where the semantic-index metadata lives.
pub fn meta_path() -> (r: String)
    ensures
        exists|b: Seq<char>| r@ == crate::memory::memory_path_text(b, "apple_notes_meta.json"@),
{
    media_file_path("apple_notes_meta.json")
}

/// Where the per-note metadata index lives.
pub fn note_metadata_path() -> (r: String)
    ensures
        exists|b: Seq<char>| r@ == crate::memory::memory_path_text(b, "apple_notes_metadata.json"@),
{
    media_file_path("apple_notes_metadata.json")
}

/// Where the cached note contents live.
pub fn notes_cache_path() -> (r: String)
    ensures
        exists|b: Seq<char>| r@ == crate::memory::memory_path_text(b, "apple_notes_cache.json"@),
{
    media_file_path("apple_notes_cache.json")
}

/// Relies on `dirs::cache_dir`, as the conversation-memory paths do.
#[verifier::external_body]
fn media_base() -> String {
    dirs::cache_dir()
        .unwrap_or_else(|| std::path::PathBuf::from("."))
        .to_string_lossy()
        .into_owned()
}

fn media_file_path(file: &str) -> (r: String)
    ensures
        exists|b: Seq<char>| r@ == crate::memory::memory_path_text(b, file@),
{
    let base = media_base();
    let mut v = text::str_to_chars(base.as_str());
    let mid = text::str_to_chars("/prolog-router/");
    text::push_all(&mut v, &mid);
    let f = text::str_to_chars(file);
    text::push_all(&mut v, &f);
    proof {
        assert(v@ =~= crate::memory::memory_path_text(base@, file@));
    }
    text::chars_to_string(&v)
}

/// Whether the semantic-index files are both present.
pub fn index_exists() -> bool {
    let video = video_path();
    let index = index_path();
    crate::notes::file_exists(video.as_str()) && crate::notes::file_exists(index.as_str())
}

/// Rebuilding the semantic index needs an index backend, which this build
/// does not carry; the host owns that work.
pub fn rebuild_index_json() -> (r: Result<String, String>)
    ensures
        r matches Err(e) && e@ == "Semantic search is not available: no index backend is configured"@,
{
    Err("Semantic search is not available: no index backend is configured".to_owned())
}

/// Searching the semantic index needs an index backend, which this build
/// does not carry; the host owns that work.
pub fn search_json(query: &str, top_k: usize) -> (r: Result<String, String>)
    ensures
        r matches Err(e) && e@ == "Semantic search is not available: no index backend is configured"@,
{
    let _ = query;
    let _ = top_k;
    Err("Semantic search is not available: no index backend is configured".to_owned())
}


/// The first metadata entry under a numeric chunk index.
pub open spec fn entry_lookup(entries: Seq<(u32, NoteMetadataEntryView)>, idx: int)
    -> Option<NoteMetadataEntryView>
    decreases entries.len(),
{
    if entries.len() == 0 {
        None
    } else if entries[0].0 == idx {
        Some(entries[0].1)
    } else {
        entry_lookup(entries.drop_first(), idx)
    }
}

/// The note id with its store scheme restored, as the index stores ids
/// without it.
pub open spec fn restore_id(id: Seq<char>) -> Seq<char> {
    if id.len() >= 13 && id.subrange(0, 13) == "x-coredata://"@ {
        id
    } else {
        "x-coredata://"@ + id
    }
}

/// What resolving an index-prefixed chunk yields: a chunk of the shape
/// `N:<index>` then a newline, whose index names a metadata entry, gives
/// that entry's note with the text after the newline as content.
pub open spec fn indexed_chunk_spec(
    s: Seq<char>,
    entries: Seq<(u32, NoteMetadataEntryView)>,
) -> Option<(Seq<char>, Seq<char>, Seq<char>, Seq<char>)> {
    if s.len() >= 2 && s.subrange(0, 2) == "N:"@ {
        let rest = s.skip(2);
        match find_from(rest, seq!['\n'], 0) {
            None => None,
            Some(nl) => {
                let idx_text = rest.subrange(0, nl);
                if text::is_numeral(idx_text) && text::dec_val(text::numeral_body(idx_text))
                    <= u32::MAX {
                    match entry_lookup(entries, text::dec_val(text::numeral_body(idx_text))) {
                        Some(e) => Some(
                            (
                                restore_id(e.note_id),
                                e.title,
                                e.folder,
                                rest.subrange(nl + 1, rest.len() as int),
                            ),
                        ),
                        None => None,
                    }
                } else {
                    None
                }
            }
        }
    } else {
        None
    }
}

/// Resolves an index-prefixed chunk against the metadata entries; chunks
/// of any other shape, stray indexes and absent entries give nothing, and
/// the caller falls back to the inline headers.
pub fn resolve_indexed_chunk(chunk: &str, entries: &Vec<(u32, NoteMetadataEntry)>)
    -> (r: Option<(String, String, String, String)>)
    ensures
        (match r {
            Some(t) => Some((t.0@, t.1@, t.2@, t.3@)),
            None => None::<(Seq<char>, Seq<char>, Seq<char>, Seq<char>)>,
        }) == indexed_chunk_spec(
            chunk@,
            Seq::new(entries@.len(), |i: int| (entries@[i].0, entries@[i].1@)),
        ),
{
    proof {
        reveal_strlit("N:");
        reveal_strlit("x-coredata://");
    }
    let ghost eview: Seq<(u32, NoteMetadataEntryView)> = Seq::new(
        entries@.len(),
        |i: int| (entries@[i].0, entries@[i].1@),
    );
    let s = text::str_to_chars(chunk);
    let prefix = text::str_to_chars("N:");
    if !(s.len() >= 2 && text::eq_at(&s, 0, &prefix)) {
        proof {
            if s@.len() >= 2 {
                assert(s@.subrange(0, 2) =~= s@.subrange(0int, 0int + 2));
            }
        }
        return None;
    }
    proof {
        assert(s@.subrange(0, 2) =~= s@.subrange(0int, 0int + 2));
    }
    let sl = s.len();
    let rest = text::subvec(&s, 2, sl);
    proof {
        assert(s@.skip(2) =~= s@.subrange(2, s@.len() as int));
    }
    let mut newline: Vec<char> = Vec::new();
    newline.push('\n');
    proof {
        assert(newline@ =~= seq!['\n']);
    }
    let nl = match text::find_vec(&rest, &newline, 0) {
        Some(k) => k,
        None => {
            return None;
        }
    };
    proof {
        text::lemma_find_from_bounds(rest@, newline@, 0);
    }
    let idx_text = text::subvec(&rest, 0, nl);
    let idx64 = match text::parse_u64(&idx_text) {
        Some(n) => n,
        None => {
            return None;
        }
    };
    if idx64 > u32::MAX as u64 {
        return None;
    }
    let idx = idx64 as u32;
    let mut i: usize = 0;
    proof {
        assert(eview.skip(0) =~= eview);
    }
    while i < entries.len()
        invariant
            i <= entries@.len(),
            eview == Seq::new(entries@.len(), |k: int| (entries@[k].0, entries@[k].1@)),
            entry_lookup(eview, idx as int) == entry_lookup(eview.skip(i as int), idx as int),
            idx64 <= u32::MAX && idx == idx64,
            text::is_numeral(idx_text@) && text::dec_val(text::numeral_body(idx_text@))
                == idx64,
            idx_text@ == rest@.subrange(0, nl as int),
            rest@ == chunk@.skip(2),
            chunk@.len() >= 2 && chunk@.subrange(0, 2) == "N:"@,
            find_from(rest@, seq!['\n'], 0) == Some(nl as int),
            nl < rest@.len(),
        decreases entries@.len() - i,
    {
        proof {
            reveal_strlit("x-coredata://");
            assert(eview.skip(i as int).drop_first() =~= eview.skip(i + 1 as int));
            assert(eview.skip(i as int)[0] == eview[i as int]);
        }
        if entries[i].0 == idx {
            let e = &entries[i].1;
            let idv = text::str_to_chars(e.note_id.as_str());
            let scheme = text::str_to_chars("x-coredata://");
            let full_id: Vec<char> = if idv.len() >= 13 && text::eq_at(&idv, 0, &scheme) {
                proof {
                    assert(idv@.subrange(0, 13) =~= idv@.subrange(0int, 0int + 13));
                }
                idv
            } else {
                proof {
                    if idv@.len() >= 13 {
                        assert(idv@.subrange(0, 13) =~= idv@.subrange(0int, 0int + 13));
                    }
                }
                let mut v = text::str_to_chars("x-coredata://");
                text::push_all(&mut v, &idv);
                v
            };
            let rl = rest.len();
            let content = text::subvec(&rest, nl + 1, rl);
            proof {
                assert(entry_lookup(eview.skip(i as int), idx as int)
                    == Some(eview[i as int].1));
                assert(eview[i as int].1 == e@);
                assert(full_id@ == restore_id(e@.note_id));
            }
            return Some(
                (
                    text::chars_to_string(&full_id),
                    e.title.clone(),
                    e.folder.clone(),
                    text::chars_to_string(&content),
                ),
            );
        }
        i += 1;
    }
    None
}

} // verus!
