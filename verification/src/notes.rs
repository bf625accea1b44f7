//! Parsing the delimiter-based note listings that the notes host hands
//! back: `RECORD_START`/`RECORD_END` blocks of `key: value` lines, full
//! note bodies between `BODY_START` and `BODY_END`, and the tag index
//! format with its comma-separated tag lists.
//!
//! Reading the notes themselves is the host's business; these functions
//! take the raw text and are verified.

use vstd::prelude::*;
use crate::text::{self, find_from, lines_spec, trim_spec};

verus! {

/// A note listing entry.
#[derive(Debug, Clone)]
pub struct NoteRecord {
    pub id: String,
    pub title: String,
    pub folder: String,
    pub modified: String,
    pub snippet: String,
    /// Command to open this note in the notes host.
    pub open_cmd: String,
}

pub struct NoteRecordView {
    pub id: Seq<char>,
    pub title: Seq<char>,
    pub folder: Seq<char>,
    pub modified: Seq<char>,
    pub snippet: Seq<char>,
    pub open_cmd: Seq<char>,
}

impl View for NoteRecord {
    type V = NoteRecordView;

    open spec fn view(&self) -> NoteRecordView {
        NoteRecordView {
            id: self.id@,
            title: self.title@,
            folder: self.folder@,
            modified: self.modified@,
            snippet: self.snippet@,
            open_cmd: self.open_cmd@,
        }
    }
}

impl DeepView for NoteRecord {
    type V = NoteRecordView;

    open spec fn deep_view(&self) -> NoteRecordView {
        self.view()
    }
}

/// A full note, body included.
#[derive(Debug, Clone)]
pub struct NoteContent {
    pub id: String,
    pub title: String,
    pub folder: String,
    pub modified: String,
    pub body: String,
    /// Command to open this note in the notes host.
    pub open_cmd: String,
}

pub struct NoteContentView {
    pub id: Seq<char>,
    pub title: Seq<char>,
    pub folder: Seq<char>,
    pub modified: Seq<char>,
    pub body: Seq<char>,
    pub open_cmd: Seq<char>,
}

impl DeepView for NoteContent {
    type V = NoteContentView;

    open spec fn deep_view(&self) -> NoteContentView {
        self.view()
    }
}

impl View for NoteContent {
    type V = NoteContentView;

    open spec fn view(&self) -> NoteContentView {
        NoteContentView {
            id: self.id@,
            title: self.title@,
            folder: self.folder@,
            modified: self.modified@,
            body: self.body@,
            open_cmd: self.open_cmd@,
        }
    }
}

/// The command that opens a note by id.
pub open spec fn open_cmd_for(id: Seq<char>) -> Seq<char> {
    "osascript scripts/notes_open.applescript \""@ + id + "\""@
}

fn build_open_cmd(id: &str) -> (r: Vec<char>)
    ensures
        r@ == open_cmd_for(id@),
{
    let mut v = text::str_to_chars("osascript scripts/notes_open.applescript \"");
    let idv = text::str_to_chars(id);
    text::push_all(&mut v, &idv);
    v.push('"');
    proof {
        reveal_strlit("\"");
        assert(v@ =~= open_cmd_for(id@));
    }
    v
}

/// The key/value split of a `key: value` line, at the first `: `.
pub open spec fn kv_split(line: Seq<char>) -> Option<(Seq<char>, Seq<char>)> {
    match find_from(line, ": "@, 0) {
        Some(k) => Some((line.subrange(0, k), line.subrange(k + 2, line.len() as int))),
        None => None,
    }
}

fn kv_split_vec(line: &Vec<char>) -> (r: Option<(Vec<char>, Vec<char>)>)
    ensures
        match r {
            Some(p) => kv_split(line@) == Some((p.0@, p.1@)),
            None => kv_split(line@) is None,
        },
{
    proof {
        reveal_strlit(": ");
    }
    let pat = text::str_to_chars(": ");
    match text::find_vec(line, &pat, 0) {
        Some(k) => {
            let ll = line.len();
            proof {
                text::lemma_find_from_bounds(line@, pat@, 0);
                assert(k + 2 <= ll);
            }
            let key = text::subvec(line, 0, k);
            let val = text::subvec(line, k + 2, ll);
            Some((key, val))
        }
        None => None,
    }
}

/// A record with a field set from one `key: value` line; unknown keys
/// leave it unchanged.
pub open spec fn record_with_field(r: NoteRecordView, line: Seq<char>) -> NoteRecordView {
    match kv_split(line) {
        None => r,
        Some((k, v)) => {
            if k == "id"@ {
                NoteRecordView { id: v, ..r }
            } else if k == "title"@ {
                NoteRecordView { title: v, ..r }
            } else if k == "folder"@ {
                NoteRecordView { folder: v, ..r }
            } else if k == "modified"@ {
                NoteRecordView { modified: v, ..r }
            } else if k == "snippet"@ {
                NoteRecordView { snippet: v, ..r }
            } else {
                r
            }
        }
    }
}

pub open spec fn empty_record() -> NoteRecordView {
    NoteRecordView {
        id: Seq::empty(),
        title: Seq::empty(),
        folder: Seq::empty(),
        modified: Seq::empty(),
        snippet: Seq::empty(),
        open_cmd: Seq::empty(),
    }
}

/// A finished record: a nonempty id gains its open command.
pub open spec fn finish_record(r: NoteRecordView) -> NoteRecordView {
    if r.id.len() > 0 {
        NoteRecordView { open_cmd: open_cmd_for(r.id), ..r }
    } else {
        r
    }
}

/// The record-listing fold: records collect between `RECORD_START` and
/// `RECORD_END`; a line starting `ERROR:` fails the whole parse with that
/// line; an unfinished record at the end is dropped.
pub open spec fn records_fold(
    ls: Seq<Seq<char>>,
    i: int,
    recs: Seq<NoteRecordView>,
    cur: Option<NoteRecordView>,
) -> Result<Seq<NoteRecordView>, Seq<char>>
    decreases ls.len() - i,
{
    if i < 0 || i >= ls.len() {
        Ok(recs)
    } else {
        let line = trim_spec(ls[i]);
        if line == "RECORD_START"@ {
            records_fold(ls, i + 1, recs, Some(empty_record()))
        } else if line == "RECORD_END"@ {
            match cur {
                Some(r) => records_fold(ls, i + 1, recs.push(finish_record(r)), None),
                None => records_fold(ls, i + 1, recs, None),
            }
        } else if line.len() >= 6 && line.subrange(0, 6) == "ERROR:"@ {
            Err(line)
        } else {
            match cur {
                Some(r) => records_fold(ls, i + 1, recs, Some(record_with_field(r, line))),
                None => records_fold(ls, i + 1, recs, None),
            }
        }
    }
}

pub open spec fn parse_records_spec(s: Seq<char>) -> Result<Seq<NoteRecordView>, Seq<char>> {
    records_fold(lines_spec(s), 0, Seq::empty(), None)
}

fn record_set_field(rec: &mut NoteRecord, line: &Vec<char>)
    ensures
        final(rec)@ == record_with_field(old(rec)@, line@),
{
    proof {
        reveal_strlit("id");
        reveal_strlit("title");
        reveal_strlit("folder");
        reveal_strlit("modified");
        reveal_strlit("snippet");
    }
    match kv_split_vec(line) {
        None => {}
        Some((k, v)) => {
            let vs = text::chars_to_string(&v);
            if text::vec_eq(&k, &text::str_to_chars("id")) {
                rec.id = vs;
            } else if text::vec_eq(&k, &text::str_to_chars("title")) {
                rec.title = vs;
            } else if text::vec_eq(&k, &text::str_to_chars("folder")) {
                rec.folder = vs;
            } else if text::vec_eq(&k, &text::str_to_chars("modified")) {
                rec.modified = vs;
            } else if text::vec_eq(&k, &text::str_to_chars("snippet")) {
                rec.snippet = vs;
            }
        }
    }
}

fn new_empty_record() -> (r: NoteRecord)
    ensures
        r@ == empty_record(),
{
    NoteRecord {
        id: String::new(),
        title: String::new(),
        folder: String::new(),
        modified: String::new(),
        snippet: String::new(),
        open_cmd: String::new(),
    }
}

/// Parses a delimiter-based note listing. Fails with the offending line
/// when the host reported an error.
pub fn parse_records(output: &str) -> (r: Result<Vec<NoteRecord>, String>)
    ensures
        match r {
            Ok(recs) => parse_records_spec(output@) == Ok::<_, Seq<char>>(recs.deep_view()),
            Err(e) => parse_records_spec(output@) == Err::<Seq<NoteRecordView>, _>(e@),
        },
{
    let raw = text::str_to_chars(output);
    let ls = text::lines_vec(&raw);
    let mut recs: Vec<NoteRecord> = Vec::new();
    let mut cur: Option<NoteRecord> = None;
    let mut i: usize = 0;
    proof {
        assert(recs.deep_view() =~~= Seq::<NoteRecordView>::empty());
    }
    while i < ls.len()
        invariant
            i <= ls@.len(),
            ls.deep_view() == lines_spec(raw@),
            raw@ == output@,
            records_fold(ls.deep_view(), 0, Seq::empty(), None) == records_fold(
                ls.deep_view(),
                i as int,
                recs.deep_view(),
                match cur {
                    Some(c) => Some(c@),
                    None => None,
                },
            ),
        decreases ls@.len() - i,
    {
        proof {
            reveal_strlit("RECORD_START");
            reveal_strlit("RECORD_END");
            reveal_strlit("ERROR:");
            assert(ls.deep_view()[i as int] == ls@[i as int]@);
        }
        let line = text::trim_vec(&ls[i]);
        if text::vec_eq(&line, &text::str_to_chars("RECORD_START")) {
            cur = Some(new_empty_record());
        } else if text::vec_eq(&line, &text::str_to_chars("RECORD_END")) {
            let prev = cur;
            cur = None;
            let ghost pv: Option<NoteRecordView> = match &prev {
                Some(c) => Some(c@),
                None => None,
            };
            match prev {
                Some(mut r) => {
                    if r.id.as_str().unicode_len() > 0 {
                        let cmd = build_open_cmd(r.id.as_str());
                        r.open_cmd = text::chars_to_string(&cmd);
                    }
                    proof {
                        assert(r@ == finish_record(pv->Some_0));
                    }
                    let ghost before = recs.deep_view();
                    let ghost rv = r@;
                    recs.push(r);
                    proof {
                        assert(recs.deep_view() =~~= before.push(rv));
                    }
                }
                None => {}
            }
        } else if line.len() >= 6 && text::eq_at(&line, 0, &text::str_to_chars("ERROR:")) {
            return Err(text::chars_to_string(&line));
        } else {
            match &mut cur {
                Some(r) => {
                    record_set_field(r, &line);
                }
                None => {}
            }
        }
        proof {
            if line@.len() >= 6 {
                assert(line@.subrange(0, 6) =~= line@.subrange(0int, 0int + 6));
            }
        }
        i += 1;
    }
    Ok(recs)
}

pub open spec fn empty_note() -> NoteContentView {
    NoteContentView {
        id: Seq::empty(),
        title: Seq::empty(),
        folder: Seq::empty(),
        modified: Seq::empty(),
        body: Seq::empty(),
        open_cmd: Seq::empty(),
    }
}

/// A note with a header field set from one `key: value` line.
pub open spec fn note_with_field(n: NoteContentView, line: Seq<char>) -> NoteContentView {
    match kv_split(line) {
        None => n,
        Some((k, v)) => {
            if k == "id"@ {
                NoteContentView { id: v, ..n }
            } else if k == "title"@ {
                NoteContentView { title: v, ..n }
            } else if k == "folder"@ {
                NoteContentView { folder: v, ..n }
            } else if k == "modified"@ {
                NoteContentView { modified: v, ..n }
            } else {
                n
            }
        }
    }
}

/// The full-note fold: header lines before `BODY_START`, raw body lines
/// until `BODY_END`, an `ERROR:` line failing the parse; a note without
/// an id fails too.
pub open spec fn content_fold(
    ls: Seq<Seq<char>>,
    i: int,
    n: NoteContentView,
    in_body: bool,
    body_lines: Seq<Seq<char>>,
) -> Result<NoteContentView, Seq<char>>
    decreases ls.len() - i,
{
    if i < 0 || i >= ls.len() {
        if n.id.len() == 0 {
            Err("Failed to parse note content"@)
        } else {
            Ok(NoteContentView { open_cmd: open_cmd_for(n.id), ..n })
        }
    } else {
        let lt = trim_spec(ls[i]);
        if lt.len() >= 6 && lt.subrange(0, 6) == "ERROR:"@ {
            Err(lt)
        } else if in_body {
            if lt == "BODY_END"@ {
                content_fold(
                    ls,
                    i + 1,
                    NoteContentView { body: text::join_with(body_lines, "\n"@), ..n },
                    false,
                    body_lines,
                )
            } else {
                content_fold(ls, i + 1, n, true, body_lines.push(ls[i]))
            }
        } else if lt == "BODY_START"@ {
            content_fold(ls, i + 1, n, true, body_lines)
        } else {
            content_fold(ls, i + 1, note_with_field(n, lt), false, body_lines)
        }
    }
}

pub open spec fn parse_note_content_spec(s: Seq<char>) -> Result<NoteContentView, Seq<char>> {
    content_fold(lines_spec(s), 0, empty_note(), false, Seq::empty())
}

fn note_set_field(n: &mut NoteContent, line: &Vec<char>)
    ensures
        final(n)@ == note_with_field(old(n)@, line@),
{
    proof {
        reveal_strlit("id");
        reveal_strlit("title");
        reveal_strlit("folder");
        reveal_strlit("modified");
    }
    match kv_split_vec(line) {
        None => {}
        Some((k, v)) => {
            let vs = text::chars_to_string(&v);
            if text::vec_eq(&k, &text::str_to_chars("id")) {
                n.id = vs;
            } else if text::vec_eq(&k, &text::str_to_chars("title")) {
                n.title = vs;
            } else if text::vec_eq(&k, &text::str_to_chars("folder")) {
                n.folder = vs;
            } else if text::vec_eq(&k, &text::str_to_chars("modified")) {
                n.modified = vs;
            }
        }
    }
}

/// Parses one full note, body included. Fails with the offending line on
/// a host error and with a fixed message when no id was found.
pub fn parse_note_content(output: &str) -> (r: Result<NoteContent, String>)
    ensures
        match r {
            Ok(n) => parse_note_content_spec(output@) == Ok::<_, Seq<char>>(n@),
            Err(e) => parse_note_content_spec(output@) == Err::<NoteContentView, _>(e@),
        },
{
    let raw = text::str_to_chars(output);
    let ls = text::lines_vec(&raw);
    let mut note = NoteContent {
        id: String::new(),
        title: String::new(),
        folder: String::new(),
        modified: String::new(),
        body: String::new(),
        open_cmd: String::new(),
    };
    let mut in_body: bool = false;
    let mut body_lines: Vec<Vec<char>> = Vec::new();
    let mut i: usize = 0;
    proof {
        assert(note@ =~= empty_note());
        assert(body_lines.deep_view() =~~= Seq::<Seq<char>>::empty());
        assert(note@ == empty_note());
    }
    while i < ls.len()
        invariant
            i <= ls@.len(),
            ls.deep_view() == lines_spec(raw@),
            raw@ == output@,
            content_fold(ls.deep_view(), 0, empty_note(), false, Seq::empty()) == content_fold(
                ls.deep_view(),
                i as int,
                note@,
                in_body,
                body_lines.deep_view(),
            ),
        decreases ls@.len() - i,
    {
        proof {
            reveal_strlit("BODY_START");
            reveal_strlit("BODY_END");
            reveal_strlit("ERROR:");
            assert(ls.deep_view()[i as int] == ls@[i as int]@);
        }
        let lt = text::trim_vec(&ls[i]);
        if lt.len() >= 6 && text::eq_at(&lt, 0, &text::str_to_chars("ERROR:")) {
            proof {
                assert(lt@.subrange(0, 6) =~= lt@.subrange(0int, 0int + 6));
            }
            return Err(text::chars_to_string(&lt));
        }
        proof {
            if lt@.len() >= 6 {
                assert(lt@.subrange(0, 6) =~= lt@.subrange(0int, 0int + 6));
            }
        }
        if in_body {
            if text::vec_eq(&lt, &text::str_to_chars("BODY_END")) {
                in_body = false;
                let sep = text::str_to_chars("\n");
                let body = text::join_vecs(&body_lines, &sep);
                note.body = text::chars_to_string(&body);
            } else {
                let ghost bd = body_lines.deep_view();
                let line_copy = text::subvec(&ls[i], 0, ls[i].len());
                proof {
                    assert(line_copy@ =~= ls@[i as int]@);
                }
                body_lines.push(line_copy);
                proof {
                    assert(body_lines.deep_view() =~~= bd.push(ls.deep_view()[i as int]));
                }
            }
        } else if text::vec_eq(&lt, &text::str_to_chars("BODY_START")) {
            in_body = true;
        } else {
            note_set_field(&mut note, &lt);
        }
        i += 1;
    }
    if note.id.as_str().unicode_len() == 0 {
        return Err("Failed to parse note content".to_owned());
    }
    let cmd = build_open_cmd(note.id.as_str());
    note.open_cmd = text::chars_to_string(&cmd);
    Ok(note)
}

/// A hex digit in either letter case.
pub open spec fn is_hex_digit(c: char) -> bool {
    ('0' <= c && c <= '9') || ('a' <= c && c <= 'f') || ('A' <= c && c <= 'F')
}

/// Whether a tag is a CSS hex colour code: an optional leading `#`, then
/// exactly three, six or eight hex digits.
pub open spec fn is_css_color_spec(tag: Seq<char>) -> bool {
    let body = if tag.len() > 0 && tag[0] == '#' {
        tag.drop_first()
    } else {
        tag
    };
    (body.len() == 3 || body.len() == 6 || body.len() == 8) && all_hex(body)
}

pub open spec fn all_hex(s: Seq<char>) -> bool {
    forall|i: int| 0 <= i < s.len() ==> is_hex_digit(#[trigger] s[i])
}

/// Whether a tag is a CSS hex colour code rather than a real tag.
pub fn is_css_color_code(tag: &str) -> (r: bool)
    ensures
        r == is_css_color_spec(tag@),
{
    let v = text::str_to_chars(tag);
    let start: usize = if v.len() > 0 && v[0] == '#' {
        1
    } else {
        0
    };
    proof {
        if start == 1 {
            assert(v@.drop_first() =~= v@.skip(1));
        } else {
            assert(v@.skip(0) =~= v@);
        }
    }
    let n = v.len() - start;
    if !(n == 3 || n == 6 || n == 8) {
        return false;
    }
    let mut i: usize = start;
    while i < v.len()
        invariant
            start <= i <= v@.len(),
            v@ == tag@,
            (if tag@.len() > 0 && tag@[0] == '#' {
                tag@.drop_first()
            } else {
                tag@
            }) == v@.skip(start as int),
            forall|k: int| start <= k < i ==> is_hex_digit(#[trigger] v@[k]),
        decreases v@.len() - i,
    {
        let c = v[i];
        if !(('0' <= c && c <= '9') || ('a' <= c && c <= 'f') || ('A' <= c && c <= 'F')) {
            proof {
                let body = if tag@.len() > 0 && tag@[0] == '#' {
                    tag@.drop_first()
                } else {
                    tag@
                };
                assert(body[i - start] == v@[i as int]);
                assert(!is_hex_digit(body[i - start]));
                assert(0 <= i - start < body.len());
                assert(!all_hex(body));
            }
            return false;
        }
        i += 1;
    }
    proof {
        let body = if tag@.len() > 0 && tag@[0] == '#' {
            tag@.drop_first()
        } else {
            tag@
        };
        assert forall|k: int| 0 <= k < body.len() implies is_hex_digit(
            #[trigger] body[k],
        ) by {
            assert(body[k] == v@[k + start]);
        }
        assert(all_hex(body));
    }
    true
}

/// An indexed note: listing fields plus its tags.
#[derive(Debug, Clone)]
pub struct IndexedNote {
    pub id: String,
    pub title: String,
    pub folder: String,
    pub modified: String,
    pub tags: Vec<String>,
}

pub struct IndexedNoteView {
    pub id: Seq<char>,
    pub title: Seq<char>,
    pub folder: Seq<char>,
    pub modified: Seq<char>,
    pub tags: Seq<Seq<char>>,
}

impl View for IndexedNote {
    type V = IndexedNoteView;

    open spec fn view(&self) -> IndexedNoteView {
        IndexedNoteView {
            id: self.id@,
            title: self.title@,
            folder: self.folder@,
            modified: self.modified@,
            tags: self.tags.deep_view(),
        }
    }
}

impl DeepView for IndexedNote {
    type V = IndexedNoteView;

    open spec fn deep_view(&self) -> IndexedNoteView {
        self.view()
    }
}

/// The persisted notes index: counts, timestamps, and the maps from tag
/// to note ids and from note id to its entry.
#[derive(Debug, Clone)]
pub struct NotesIndex {
    /// Number of notes when the index was built, for staleness checks.
    pub note_count: usize,
    /// Timestamp of the last update.
    pub last_updated: String,
    /// Map from tag to the ids of the notes that carry it.
    pub tags: std::collections::HashMap<String, Vec<String>>,
    /// Map from note id to its indexed entry.
    pub notes: std::collections::HashMap<String, IndexedNote>,
}

/// The comma-separated tags of a `tags:` value: each piece trimmed, the
/// empty ones and the colour codes dropped.
pub open spec fn tags_of(v: Seq<char>) -> Seq<Seq<char>>
    decreases v.len(),
        via tags_of_dec
{
    match find_from(v, ","@, 0) {
        Some(k) => {
            let piece = trim_spec(v.subrange(0, k));
            (if piece.len() > 0 && !is_css_color_spec(piece) {
                seq![piece]
            } else {
                Seq::empty()
            }) + tags_of(v.subrange(k + 1, v.len() as int))
        }
        None => {
            let piece = trim_spec(v);
            if piece.len() > 0 && !is_css_color_spec(piece) {
                seq![piece]
            } else {
                Seq::empty()
            }
        }
    }
}

#[via_fn]
proof fn tags_of_dec(v: Seq<char>) {
    reveal_strlit(",");
    text::lemma_find_from_bounds(v, ","@, 0);
}

fn tags_of_vec(v: &Vec<char>) -> (r: Vec<String>)
    ensures
        r.deep_view() == tags_of(v@),
    decreases v@.len(),
{
    proof {
        reveal_strlit(",");
    }
    let comma = text::str_to_chars(",");
    let mut out: Vec<String> = Vec::new();
    proof {
        assert(out.deep_view() =~~= Seq::<Seq<char>>::empty());
    }
    let mut rest: Vec<char> = text::subvec(v, 0, v.len());
    proof {
        assert(rest@ =~= v@);
    }
    let ghost mut done: Seq<Seq<char>> = Seq::empty();
    loop
        invariant
            comma@ == ","@,
            out.deep_view() == done,
            tags_of(v@) == done + tags_of(rest@),
        decreases rest@.len() + 1,
    {
        match text::find_vec(&rest, &comma, 0) {
            Some(k) => {
                let rl = rest.len();
                proof {
                    reveal_strlit(",");
                    text::lemma_find_from_bounds(rest@, comma@, 0);
                    assert(k + 1 <= rl);
                }
                let head = text::subvec(&rest, 0, k);
                let piece = text::trim_vec(&head);
                let ghost done0 = done;
                if piece.len() > 0 && !is_css_color_code(text::chars_to_string(&piece).as_str()) {
                    let ghost pd = out.deep_view();
                    out.push(text::chars_to_string(&piece));
                    proof {
                        done = done.push(piece@);
                        assert(out.deep_view() =~~= pd.push(piece@));
                    }
                }
                let tail = text::subvec(&rest, k + 1, rl);
                proof {
                    let piece_part: Seq<Seq<char>> = if piece@.len() > 0
                        && !is_css_color_spec(piece@) {
                        seq![piece@]
                    } else {
                        Seq::empty()
                    };
                    assert(tags_of(rest@) == piece_part + tags_of(tail@));
                    assert(done =~= done0 + piece_part);
                    assert(done + tags_of(tail@) =~= done0 + tags_of(rest@));
                }
                rest = tail;
            }
            None => {
                let piece = text::trim_vec(&rest);
                let ghost done0 = done;
                if piece.len() > 0 && !is_css_color_code(text::chars_to_string(&piece).as_str()) {
                    let ghost pd = out.deep_view();
                    out.push(text::chars_to_string(&piece));
                    proof {
                        done = done.push(piece@);
                        assert(out.deep_view() =~~= pd.push(piece@));
                    }
                }
                proof {
                    let piece_part: Seq<Seq<char>> = if piece@.len() > 0
                        && !is_css_color_spec(piece@) {
                        seq![piece@]
                    } else {
                        Seq::empty()
                    };
                    assert(tags_of(rest@) == piece_part);
                    assert(done =~= done0 + piece_part);
                    assert(out.deep_view() =~= tags_of(v@));
                }
                return out;
            }
        }
    }
}

pub open spec fn empty_indexed() -> IndexedNoteView {
    IndexedNoteView {
        id: Seq::empty(),
        title: Seq::empty(),
        folder: Seq::empty(),
        modified: Seq::empty(),
        tags: Seq::empty(),
    }
}

/// An indexed note with a field set from one `key: value` line.
pub open spec fn indexed_with_field(n: IndexedNoteView, line: Seq<char>) -> IndexedNoteView {
    match kv_split(line) {
        None => n,
        Some((k, v)) => {
            if k == "id"@ {
                IndexedNoteView { id: v, ..n }
            } else if k == "title"@ {
                IndexedNoteView { title: v, ..n }
            } else if k == "folder"@ {
                IndexedNoteView { folder: v, ..n }
            } else if k == "modified"@ {
                IndexedNoteView { modified: v, ..n }
            } else if k == "tags"@ {
                IndexedNoteView { tags: tags_of(v), ..n }
            } else {
                n
            }
        }
    }
}

/// The note count named by a `NOTE_COUNT: ` line: a numeral, or zero.
pub open spec fn count_of(v: Seq<char>) -> int {
    let tv = trim_spec(v);
    if text::is_numeral(tv) && text::dec_val(text::numeral_body(tv)) <= usize::MAX {
        text::dec_val(text::numeral_body(tv))
    } else {
        0
    }
}

/// The index-listing fold: a `NOTE_COUNT: ` line sets the count, records
/// collect as in a listing, and tags are split, trimmed and cleaned of
/// colour codes.
pub open spec fn index_fold(
    ls: Seq<Seq<char>>,
    i: int,
    count: int,
    notes: Seq<IndexedNoteView>,
    cur: Option<IndexedNoteView>,
) -> Result<(int, Seq<IndexedNoteView>), Seq<char>>
    decreases ls.len() - i,
{
    if i < 0 || i >= ls.len() {
        Ok((count, notes))
    } else {
        let line = trim_spec(ls[i]);
        if line.len() >= 12 && line.subrange(0, 12) == "NOTE_COUNT: "@ {
            index_fold(ls, i + 1, count_of(line.subrange(12, line.len() as int)), notes, cur)
        } else if line == "RECORD_START"@ {
            index_fold(ls, i + 1, count, notes, Some(empty_indexed()))
        } else if line == "RECORD_END"@ {
            match cur {
                Some(n) => index_fold(ls, i + 1, count, notes.push(n), None),
                None => index_fold(ls, i + 1, count, notes, None),
            }
        } else if line.len() >= 6 && line.subrange(0, 6) == "ERROR:"@ {
            Err(line)
        } else {
            match cur {
                Some(n) => index_fold(ls, i + 1, count, notes, Some(indexed_with_field(n, line))),
                None => index_fold(ls, i + 1, count, notes, None),
            }
        }
    }
}

pub open spec fn parse_index_spec(s: Seq<char>) -> Result<(int, Seq<IndexedNoteView>), Seq<char>> {
    index_fold(lines_spec(s), 0, 0, Seq::empty(), None)
}

fn parse_count(v: &Vec<char>) -> (r: usize)
    ensures
        r == count_of(v@),
{
    let tv = text::trim_vec(v);
    match text::parse_u64(&tv) {
        Some(n) => {
            if n <= usize::MAX as u64 {
                n as usize
            } else {
                0
            }
        }
        None => 0,
    }
}

fn indexed_set_field(n: &mut IndexedNote, line: &Vec<char>)
    ensures
        final(n)@ == indexed_with_field(old(n)@, line@),
{
    proof {
        reveal_strlit("id");
        reveal_strlit("title");
        reveal_strlit("folder");
        reveal_strlit("modified");
        reveal_strlit("tags");
    }
    match kv_split_vec(line) {
        None => {}
        Some((k, v)) => {
            if text::vec_eq(&k, &text::str_to_chars("id")) {
                n.id = text::chars_to_string(&v);
            } else if text::vec_eq(&k, &text::str_to_chars("title")) {
                n.title = text::chars_to_string(&v);
            } else if text::vec_eq(&k, &text::str_to_chars("folder")) {
                n.folder = text::chars_to_string(&v);
            } else if text::vec_eq(&k, &text::str_to_chars("modified")) {
                n.modified = text::chars_to_string(&v);
            } else if text::vec_eq(&k, &text::str_to_chars("tags")) {
                n.tags = tags_of_vec(&v);
            }
        }
    }
}

/// Parses the tag-index build listing: the note count and the indexed
/// notes, with colour-code tags filtered out. Fails with the offending
/// line on a host error.
pub fn parse_index_output(output: &str) -> (r: Result<(usize, Vec<IndexedNote>), String>)
    ensures
        match r {
            Ok(p) => parse_index_spec(output@) == Ok::<_, Seq<char>>(
                (p.0 as int, p.1.deep_view()),
            ),
            Err(e) => parse_index_spec(output@) == Err::<(int, Seq<IndexedNoteView>), _>(e@),
        },
{
    let raw = text::str_to_chars(output);
    let ls = text::lines_vec(&raw);
    let mut count: usize = 0;
    let mut notes: Vec<IndexedNote> = Vec::new();
    let mut cur: Option<IndexedNote> = None;
    let mut i: usize = 0;
    proof {
        assert(notes.deep_view() =~~= Seq::<IndexedNoteView>::empty());
    }
    while i < ls.len()
        invariant
            i <= ls@.len(),
            ls.deep_view() == lines_spec(raw@),
            raw@ == output@,
            index_fold(ls.deep_view(), 0, 0, Seq::empty(), None) == index_fold(
                ls.deep_view(),
                i as int,
                count as int,
                notes.deep_view(),
                match cur {
                    Some(c) => Some(c@),
                    None => None,
                },
            ),
        decreases ls@.len() - i,
    {
        proof {
            reveal_strlit("NOTE_COUNT: ");
            reveal_strlit("RECORD_START");
            reveal_strlit("RECORD_END");
            reveal_strlit("ERROR:");
            assert(ls.deep_view()[i as int] == ls@[i as int]@);
        }
        let line = text::trim_vec(&ls[i]);
        proof {
            if line@.len() >= 12 {
                assert(line@.subrange(0, 12) =~= line@.subrange(0int, 0int + 12));
            }
            if line@.len() >= 6 {
                assert(line@.subrange(0, 6) =~= line@.subrange(0int, 0int + 6));
            }
        }
        if line.len() >= 12 && text::eq_at(&line, 0, &text::str_to_chars("NOTE_COUNT: ")) {
            let v = text::subvec(&line, 12, line.len());
            count = parse_count(&v);
        } else if text::vec_eq(&line, &text::str_to_chars("RECORD_START")) {
            let n0 = IndexedNote {
                id: String::new(),
                title: String::new(),
                folder: String::new(),
                modified: String::new(),
                tags: Vec::new(),
            };
            proof {
                assert(n0@.tags =~= Seq::<Seq<char>>::empty());
                assert(n0@ == empty_indexed());
            }
            cur = Some(n0);
        } else if text::vec_eq(&line, &text::str_to_chars("RECORD_END")) {
            let prev = cur;
            cur = None;
            match prev {
                Some(n) => {
                    let ghost before = notes.deep_view();
                    let ghost nv = n@;
                    notes.push(n);
                    proof {
                        assert(notes.deep_view() =~~= before.push(nv));
                    }
                }
                None => {}
            }
        } else if line.len() >= 6 && text::eq_at(&line, 0, &text::str_to_chars("ERROR:")) {
            return Err(text::chars_to_string(&line));
        } else {
            match &mut cur {
                Some(n) => {
                    indexed_set_field(n, &line);
                }
                None => {}
            }
        }
        i += 1;
    }
    Ok((count, notes))
}

/// Whether a file exists at the given path.
///
/// Relies on `std::path::Path::exists`; the result depends on the file
/// system, so nothing is promised of it.
#[verifier::external_body]
pub fn file_exists(path: &str) -> bool {
    std::path::Path::new(path).exists()
}

/// Whether the notes host's search script is present beside the program.
pub fn is_available() -> bool {
    file_exists("scripts/notes_search.applescript")
}

/// Which notes action a tool name stands for, and how the index tools
/// choose between checking and rebuilding: the decision half of tool
/// dispatch, with the execution left to the host.
pub open spec fn notes_action_spec(tool: Seq<char>, index_action: Option<Seq<char>>)
    -> Option<Seq<char>> {
    if tool == "search_notes"@ {
        Some("search"@)
    } else if tool == "list_notes"@ {
        Some("list"@)
    } else if tool == "get_note"@ {
        Some("get"@)
    } else if tool == "notes_index"@ {
        if index_action == Some("build"@) {
            Some("index_build"@)
        } else {
            Some("index_check"@)
        }
    } else if tool == "notes_tags"@ {
        Some("tags"@)
    } else if tool == "notes_search_by_tag"@ {
        Some("search_by_tag"@)
    } else {
        None
    }
}

/// Maps a tool name to the notes-host action it stands for; the index
/// tool rebuilds only when its `action` argument says `build`, and
/// checks otherwise. Tools that are not notes tools map to nothing.
pub fn notes_action_for(tool: &str, index_action: Option<&str>) -> (r: Option<&'static str>)
    ensures
        (match r {
            Some(a) => Some(a@),
            None => None::<Seq<char>>,
        }) == notes_action_spec(tool@, match index_action {
            Some(a) => Some(a@),
            None => None,
        }),
{
    let t = text::str_to_chars(tool);
    if text::vec_eq(&t, &text::str_to_chars("search_notes")) {
        Some("search")
    } else if text::vec_eq(&t, &text::str_to_chars("list_notes")) {
        Some("list")
    } else if text::vec_eq(&t, &text::str_to_chars("get_note")) {
        Some("get")
    } else if text::vec_eq(&t, &text::str_to_chars("notes_index")) {
        match index_action {
            Some(a) => {
                let av = text::str_to_chars(a);
                if text::vec_eq(&av, &text::str_to_chars("build")) {
                    Some("index_build")
                } else {
                    Some("index_check")
                }
            }
            None => Some("index_check"),
        }
    } else if text::vec_eq(&t, &text::str_to_chars("notes_tags")) {
        Some("tags")
    } else if text::vec_eq(&t, &text::str_to_chars("notes_search_by_tag")) {
        Some("search_by_tag")
    } else {
        None
    }
}

/// The pieces of `s` between occurrences of `pat`, left to right.
pub open spec fn split_on(s: Seq<char>, pat: Seq<char>) -> Seq<Seq<char>>
    decreases s.len(),
        via split_on_dec
{
    if pat.len() == 0 {
        seq![s]
    } else {
        match find_from(s, pat, 0) {
            None => seq![s],
            Some(k) => seq![s.subrange(0, k)] + split_on(
                s.subrange(k + pat.len(), s.len() as int),
                pat,
            ),
        }
    }
}

#[via_fn]
proof fn split_on_dec(s: Seq<char>, pat: Seq<char>) {
    text::lemma_find_from_bounds(s, pat, 0);
}

/// One batch field line applied to the note being collected: the body
/// markers toggle body collection, body lines append with newlines, and
/// the header prefixes set their fields.
pub open spec fn batch_line(
    n: NoteContentView,
    in_body: bool,
    line: Seq<char>,
) -> (NoteContentView, bool) {
    if line == "BODY_START"@ {
        (n, true)
    } else if line == "BODY_END"@ {
        (n, false)
    } else if in_body {
        (
            NoteContentView {
                body: if n.body.len() == 0 {
                    line
                } else {
                    n.body + "\n"@ + line
                },
                ..n
            },
            true,
        )
    } else if line.len() >= 4 && line.subrange(0, 4) == "id: "@ {
        (NoteContentView { id: line.subrange(4, line.len() as int), ..n }, false)
    } else if line.len() >= 7 && line.subrange(0, 7) == "title: "@ {
        (NoteContentView { title: line.subrange(7, line.len() as int), ..n }, false)
    } else if line.len() >= 8 && line.subrange(0, 8) == "folder: "@ {
        (NoteContentView { folder: line.subrange(8, line.len() as int), ..n }, false)
    } else if line.len() >= 10 && line.subrange(0, 10) == "modified: "@ {
        (NoteContentView { modified: line.subrange(10, line.len() as int), ..n }, false)
    } else {
        (n, in_body)
    }
}

pub open spec fn batch_fields(
    ls: Seq<Seq<char>>,
    i: int,
    n: NoteContentView,
    in_body: bool,
) -> NoteContentView
    decreases ls.len() - i,
{
    if i < 0 || i >= ls.len() {
        n
    } else {
        let st = batch_line(n, in_body, ls[i]);
        batch_fields(ls, i + 1, st.0, st.1)
    }
}

/// What one piece of a batch listing yields: nothing for blank pieces,
/// per-note errors, and notes without an id; else the note, with its
/// `RECORD_END` marker stripped and its open command attached.
pub open spec fn batch_piece(piece: Seq<char>) -> Option<NoteContentView> {
    let p1 = trim_spec(piece);
    if p1.len() == 0 {
        None
    } else {
        let p2 = trim_spec(
            if p1.len() >= 10 && p1.subrange(p1.len() - 10, p1.len() as int) == "RECORD_END"@ {
                p1.subrange(0, p1.len() - 10)
            } else {
                p1
            },
        );
        if p2.len() >= 6 && p2.subrange(0, 6) == "error:"@ {
            None
        } else {
            let n = batch_fields(lines_spec(p2), 0, empty_note(), false);
            if n.id.len() > 0 {
                Some(NoteContentView { open_cmd: open_cmd_for(n.id), ..n })
            } else {
                None
            }
        }
    }
}

pub open spec fn batch_notes(pieces: Seq<Seq<char>>, i: int, acc: Seq<NoteContentView>)
    -> Seq<NoteContentView>
    decreases pieces.len() - i,
{
    if i < 0 || i >= pieces.len() {
        acc
    } else {
        match batch_piece(pieces[i]) {
            Some(n) => batch_notes(pieces, i + 1, acc.push(n)),
            None => batch_notes(pieces, i + 1, acc),
        }
    }
}

/// What a whole batch listing yields: a host-level `ERROR:` fails it, and
/// otherwise every well-formed record between `RECORD_START` markers is a
/// note.
pub open spec fn parse_batch_spec(s: Seq<char>) -> Result<Seq<NoteContentView>, Seq<char>> {
    if s.len() >= 6 && s.subrange(0, 6) == "ERROR:"@ {
        Err(s)
    } else {
        Ok(batch_notes(split_on(s, "RECORD_START"@), 0, Seq::empty()))
    }
}

fn split_on_vec(v: &Vec<char>, pat: &Vec<char>) -> (r: Vec<Vec<char>>)
    requires
        pat@.len() >= 1,
    ensures
        r.deep_view() == split_on(v@, pat@),
{
    let mut out: Vec<Vec<char>> = Vec::new();
    let mut rest: Vec<char> = text::subvec(v, 0, v.len());
    proof {
        assert(rest@ =~= v@);
        assert(out.deep_view() =~~= Seq::<Seq<char>>::empty());
    }
    let ghost mut done: Seq<Seq<char>> = Seq::empty();
    loop
        invariant
            pat@.len() >= 1,
            out.deep_view() == done,
            split_on(v@, pat@) == done + split_on(rest@, pat@),
        decreases rest@.len() + 1,
    {
        match text::find_vec(&rest, pat, 0) {
            Some(k) => {
                let rl = rest.len();
                proof {
                    text::lemma_find_from_bounds(rest@, pat@, 0);
                    assert(k + pat@.len() <= rl);
                }
                let head = text::subvec(&rest, 0, k);
                let tail = text::subvec(&rest, k + pat.len(), rl);
                let ghost done0 = done;
                let ghost pd = out.deep_view();
                let ghost hv = head@;
                out.push(head);
                proof {
                    done = done.push(hv);
                    assert(out.deep_view() =~~= pd.push(hv));
                    assert(split_on(rest@, pat@) == seq![hv] + split_on(tail@, pat@));
                    assert(done + split_on(tail@, pat@) =~= done0 + split_on(rest@, pat@));
                }
                rest = tail;
            }
            None => {
                let ghost pd = out.deep_view();
                let ghost rv = rest@;
                out.push(rest);
                proof {
                    done = done.push(rv);
                    assert(out.deep_view() =~~= pd.push(rv));
                    assert(split_on(rv, pat@) == seq![rv]);
                    assert(done =~= split_on(v@, pat@));
                }
                return out;
            }
        }
    }
}

fn batch_note_of_piece(piece: &Vec<char>) -> (r: Option<NoteContent>)
    ensures
        match r {
            Some(n) => batch_piece(piece@) == Some(n@),
            None => batch_piece(piece@) is None,
        },
{
    proof {
        reveal_strlit("RECORD_END");
        reveal_strlit("error:");
        reveal_strlit("BODY_START");
        reveal_strlit("BODY_END");
        reveal_strlit("id: ");
        reveal_strlit("title: ");
        reveal_strlit("folder: ");
        reveal_strlit("modified: ");
        reveal_strlit("\n");
    }
    let p1 = text::trim_vec(piece);
    if p1.len() == 0 {
        return None;
    }
    let end_pat = text::str_to_chars("RECORD_END");
    let stripped: Vec<char> = if p1.len() >= 10 && text::eq_at(&p1, p1.len() - 10, &end_pat) {
        proof {
            assert(p1@.subrange(p1@.len() - 10, p1@.len() as int)
                =~= p1@.subrange(p1@.len() - 10, p1@.len() - 10 + 10));
        }
        text::subvec(&p1, 0, p1.len() - 10)
    } else {
        proof {
            if p1@.len() >= 10 {
                assert(p1@.subrange(p1@.len() - 10, p1@.len() as int)
                    =~= p1@.subrange(p1@.len() - 10, p1@.len() - 10 + 10));
            }
        }
        text::subvec(&p1, 0, p1.len())
    };
    proof {
        assert(p1@.subrange(0, p1@.len() as int) =~= p1@);
    }
    let p2 = text::trim_vec(&stripped);
    if p2.len() >= 6 && text::eq_at(&p2, 0, &text::str_to_chars("error:")) {
        proof {
            assert(p2@.subrange(0, 6) =~= p2@.subrange(0int, 0int + 6));
        }
        return None;
    }
    proof {
        if p2@.len() >= 6 {
            assert(p2@.subrange(0, 6) =~= p2@.subrange(0int, 0int + 6));
        }
    }
    let ls = text::lines_vec(&p2);
    let mut note = NoteContent {
        id: String::new(),
        title: String::new(),
        folder: String::new(),
        modified: String::new(),
        body: String::new(),
        open_cmd: String::new(),
    };
    let mut in_body: bool = false;
    let mut i: usize = 0;
    proof {
        assert(note@ == empty_note());
    }
    while i < ls.len()
        invariant
            i <= ls@.len(),
            ls.deep_view() == lines_spec(p2@),
            batch_fields(ls.deep_view(), 0, empty_note(), false) == batch_fields(
                ls.deep_view(),
                i as int,
                note@,
                in_body,
            ),
        decreases ls@.len() - i,
    {
        proof {
            reveal_strlit("BODY_START");
            reveal_strlit("BODY_END");
            reveal_strlit("id: ");
            reveal_strlit("title: ");
            reveal_strlit("folder: ");
            reveal_strlit("modified: ");
            reveal_strlit("\n");
            assert(ls.deep_view()[i as int] == ls@[i as int]@);
        }
        let line = &ls[i];
        proof {
            if line@.len() >= 4 {
                assert(line@.subrange(0, 4) =~= line@.subrange(0int, 0int + 4));
            }
            if line@.len() >= 7 {
                assert(line@.subrange(0, 7) =~= line@.subrange(0int, 0int + 7));
            }
            if line@.len() >= 8 {
                assert(line@.subrange(0, 8) =~= line@.subrange(0int, 0int + 8));
            }
            if line@.len() >= 10 {
                assert(line@.subrange(0, 10) =~= line@.subrange(0int, 0int + 10));
            }
        }
        if text::vec_eq(line, &text::str_to_chars("BODY_START")) {
            in_body = true;
        } else if text::vec_eq(line, &text::str_to_chars("BODY_END")) {
            in_body = false;
        } else if in_body {
            if note.body.as_str().unicode_len() == 0 {
                note.body = text::chars_to_string(line);
            } else {
                let mut b = text::str_to_chars(note.body.as_str());
                b.push('\n');
                text::push_all(&mut b, line);
                proof {
                    assert(b@ =~= note@.body + "\n"@ + line@);
                }
                note.body = text::chars_to_string(&b);
            }
        } else if line.len() >= 4 && text::eq_at(line, 0, &text::str_to_chars("id: ")) {
            note.id = text::chars_to_string(&text::subvec(line, 4, line.len()));
        } else if line.len() >= 7 && text::eq_at(line, 0, &text::str_to_chars("title: ")) {
            note.title = text::chars_to_string(&text::subvec(line, 7, line.len()));
        } else if line.len() >= 8 && text::eq_at(line, 0, &text::str_to_chars("folder: ")) {
            note.folder = text::chars_to_string(&text::subvec(line, 8, line.len()));
        } else if line.len() >= 10 && text::eq_at(line, 0, &text::str_to_chars("modified: ")) {
            note.modified = text::chars_to_string(&text::subvec(line, 10, line.len()));
        }
        i += 1;
    }
    if note.id.as_str().unicode_len() == 0 {
        return None;
    }
    let cmd = build_open_cmd(note.id.as_str());
    note.open_cmd = text::chars_to_string(&cmd);
    Some(note)
}

/// Parses a whole batch listing into the notes it holds. A host-level
/// `ERROR:` fails the parse with the whole text; blank pieces, per-note
/// errors and records without ids are dropped.
pub fn parse_batch_notes(output: &str) -> (r: Result<Vec<NoteContent>, String>)
    ensures
        match r {
            Ok(notes) => parse_batch_spec(output@) == Ok::<_, Seq<char>>(notes.deep_view()),
            Err(e) => parse_batch_spec(output@) == Err::<Seq<NoteContentView>, _>(e@),
        },
{
    proof {
        reveal_strlit("ERROR:");
        reveal_strlit("RECORD_START");
    }
    let raw = text::str_to_chars(output);
    if raw.len() >= 6 && text::eq_at(&raw, 0, &text::str_to_chars("ERROR:")) {
        proof {
            assert(raw@.subrange(0, 6) =~= raw@.subrange(0int, 0int + 6));
        }
        return Err(output.to_owned());
    }
    proof {
        if raw@.len() >= 6 {
            assert(raw@.subrange(0, 6) =~= raw@.subrange(0int, 0int + 6));
        }
    }
    let start_pat = text::str_to_chars("RECORD_START");
    let pieces = split_on_vec(&raw, &start_pat);
    let mut notes: Vec<NoteContent> = Vec::new();
    let mut i: usize = 0;
    proof {
        assert(notes.deep_view() =~~= Seq::<NoteContentView>::empty());
    }
    while i < pieces.len()
        invariant
            i <= pieces@.len(),
            pieces.deep_view() == split_on(raw@, "RECORD_START"@),
            raw@ == output@,
            batch_notes(pieces.deep_view(), 0, Seq::empty()) == batch_notes(
                pieces.deep_view(),
                i as int,
                notes.deep_view(),
            ),
        decreases pieces@.len() - i,
    {
        proof {
            assert(pieces.deep_view()[i as int] == pieces@[i as int]@);
        }
        match batch_note_of_piece(&pieces[i]) {
            Some(n) => {
                let ghost before = notes.deep_view();
                let ghost nv = n@;
                notes.push(n);
                proof {
                    assert(notes.deep_view() =~~= before.push(nv));
                }
            }
            None => {}
        }
        i += 1;
    }
    Ok(notes)
}

} // verus!
