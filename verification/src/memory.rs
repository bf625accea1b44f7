//! Conversation-memory support: the turn and configuration types, session
//! id generation, and the cache file locations. The store itself — video
//! encoding, embeddings, disk — is the host's business.

use vstd::prelude::*;
use crate::text;

verus! {

/// Who spoke in one remembered turn.
#[derive(Debug, Clone, PartialEq, Eq, Structural)]
pub enum TurnRole {
    User,
    Assistant,
}

impl TurnRole {
    /// The lowercase token form of the role.
    pub fn as_str(&self) -> (r: &'static str)
        ensures
            self is User ==> r@ == "user"@,
            self is Assistant ==> r@ == "assistant"@,
    {
        match self {
            TurnRole::User => "user",
            TurnRole::Assistant => "assistant",
        }
    }
}

/// One remembered conversation turn.
#[derive(Debug, Clone)]
pub struct ConversationTurn {
    pub session_id: String,
    /// Timestamp of the turn.
    pub timestamp: String,
    pub role: TurnRole,
    pub content: String,
}

/// Memory settings.
#[derive(Debug, Clone)]
pub struct MemoryConfig {
    pub enabled: bool,
    pub max_context_results: usize,
    pub session_timeout_hours: u64,
}

impl Default for MemoryConfig {
    fn default() -> (r: Self)
        ensures
            r.enabled == true,
            r.max_context_results == 3,
            r.session_timeout_hours == 24,
    {
        MemoryConfig { enabled: true, max_context_results: 3, session_timeout_hours: 24 }
    }
}

/// What the memory store holds, by the host's account.
#[derive(Debug, Clone)]
pub struct MemoryStats {
    pub exists: bool,
    pub exchange_count: usize,
    pub last_updated: String,
    pub video_size_bytes: u64,
    pub index_size_bytes: u64,
}

/// Asks the clock for the seconds and subsecond nanoseconds since the
/// epoch.
///
/// Relies on `SystemTime::now` and `duration_since`; the result depends
/// on the clock, so nothing is promised of it.
#[verifier::external_body]
fn now_unix() -> (u64, u64) {
    let duration = std::time::SystemTime::now()
        .duration_since(std::time::UNIX_EPOCH)
        .unwrap_or_default();
    (duration.as_secs(), duration.subsec_nanos() as u64)
}

/// A session id built from one clock reading: the epoch seconds in
/// decimal, an underscore, and four hex digits of the nanosecond part.
pub fn generate_session_id() -> (r: String)
    ensures
        exists|secs: int, sub: int|
            0 <= secs && 0 <= sub < 0x10000 && r@ == text::dec_digits(secs) + seq!['_']
                + text::hex4(sub),
{
    let (secs, nanos) = now_unix();
    let sub = nanos % 0xFFFF;
    let mut v = text::u64_to_dec(secs);
    v.push('_');
    let h = text::u64_to_hex4(sub);
    text::push_all(&mut v, &h);
    proof {
        assert(v@ =~= text::dec_digits(secs as int) + seq!['_'] + text::hex4(sub as int));
    }
    text::chars_to_string(&v)
}

/// Asks for the user's cache directory, or `.` when there is none.
///
/// Relies on `dirs::cache_dir`; the result depends on the environment,
/// so nothing is promised of it.
#[verifier::external_body]
fn cache_base() -> String {
    dirs::cache_dir()
        .unwrap_or_else(|| std::path::PathBuf::from("."))
        .to_string_lossy()
        .into_owned()
}

/// The conversation-memory file location under the cache directory.
pub open spec fn memory_path_text(base: Seq<char>, file: Seq<char>) -> Seq<char> {
    base + "/prolog-router/"@ + file
}

fn cache_file_path(file: &str) -> (r: String)
    ensures
        exists|b: Seq<char>| r@ == memory_path_text(b, file@),
{
    let base = cache_base();
    let mut v = text::str_to_chars(base.as_str());
    let mid = text::str_to_chars("/prolog-router/");
    text::push_all(&mut v, &mid);
    let f = text::str_to_chars(file);
    text::push_all(&mut v, &f);
    proof {
        assert(v@ =~= memory_path_text(base@, file@));
    }
    text::chars_to_string(&v)
}

/// Where the conversation-memory video lives.
pub fn video_path() -> (r: String)
    ensures
        exists|b: Seq<char>| r@ == memory_path_text(b, "conversation_memory.mp4"@),
{
    cache_file_path("conversation_memory.mp4")
}

/// Where the conversation-memory index lives.
pub fn index_path() -> (r: String)
    ensures
        exists|b: Seq<char>| r@ == memory_path_text(b, "conversation_memory_index.db"@),
{
    cache_file_path("conversation_memory_index.db")
}

/// Where the conversation-memory metadata lives.
pub fn meta_path() -> (r: String)
    ensures
        exists|b: Seq<char>| r@ == memory_path_text(b, "conversation_memory_meta.json"@),
{
    cache_file_path("conversation_memory_meta.json")
}

} // verus!
