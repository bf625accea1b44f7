use intent_router::memory::{self, MemoryConfig, TurnRole, generate_session_id};
use intent_router::notes::{
    is_available, is_css_color_code, notes_action_for, parse_batch_notes, parse_index_output,
    parse_note_content, parse_records,
};
use intent_router::semantic_notes::{self, NoteMetadataEntry, create_snippet, parse_chunk_metadata,
    resolve_indexed_chunk};
use intent_router::weather::{TemperatureUnit, WeatherKitConfig, format_condition};

#[test]
fn test_parse_records_empty() {
    let output = "";
    let records = parse_records(output).unwrap();
    assert!(records.is_empty());
}

#[test]
fn test_parse_records_single() {
    let output = "RECORD_START
id: x-coredata://123
title: Test Note
folder: Notes
modified: 2026-01-27T10:30:00Z
snippet: This is a test note...
RECORD_END";

    let records = parse_records(output).unwrap();
    assert_eq!(records.len(), 1);
    assert_eq!(records[0].id, "x-coredata://123");
    assert_eq!(records[0].title, "Test Note");
    assert_eq!(records[0].folder, "Notes");
    assert_eq!(records[0].snippet, "This is a test note...");
    assert_eq!(
        records[0].open_cmd,
        "osascript scripts/notes_open.applescript \"x-coredata://123\""
    );
}

#[test]
fn test_parse_records_multiple() {
    let output = "RECORD_START
id: note-1
title: First Note
folder: Work
modified: 2026-01-27T10:00:00Z
snippet: First note content
RECORD_END
RECORD_START
id: note-2
title: Second Note
folder: Personal
modified: 2026-01-27T11:00:00Z
snippet: Second note content
RECORD_END";

    let records = parse_records(output).unwrap();
    assert_eq!(records.len(), 2);
    assert_eq!(records[0].title, "First Note");
    assert_eq!(records[1].title, "Second Note");
}

#[test]
fn test_parse_records_error() {
    let output = "ERROR: Notes application not available";
    let result = parse_records(output);
    assert!(result.is_err());
    assert!(result.unwrap_err().contains("ERROR:"));
}

#[test]
fn test_parse_note_content() {
    let output = "id: x-coredata://123
title: Full Note
folder: Notes
modified: 2026-01-27T10:30:00Z
BODY_START
This is the full body of the note.
It can have multiple lines.

And paragraphs.
BODY_END";

    let note = parse_note_content(output).unwrap();
    assert_eq!(note.id, "x-coredata://123");
    assert_eq!(note.title, "Full Note");
    assert!(note.body.contains("multiple lines"));
    assert!(note.body.contains("paragraphs"));
    assert_eq!(
        note.open_cmd,
        "osascript scripts/notes_open.applescript \"x-coredata://123\""
    );
}

#[test]
fn test_is_available_without_scripts() {
    let _ = is_available();
}

#[test]
fn test_is_css_color_code() {
    assert!(is_css_color_code("#fff"));
    assert!(is_css_color_code("#FFF"));
    assert!(is_css_color_code("#abc"));
    assert!(is_css_color_code("#123"));

    assert!(is_css_color_code("#ffffff"));
    assert!(is_css_color_code("#FFFFFF"));
    assert!(is_css_color_code("#dee2e6"));
    assert!(is_css_color_code("#e9ecef"));
    assert!(is_css_color_code("#000000"));

    assert!(is_css_color_code("#ffffffff"));
    assert!(is_css_color_code("#00000080"));

    assert!(!is_css_color_code("#project"));
    assert!(!is_css_color_code("#todo"));
    assert!(!is_css_color_code("#work"));
    assert!(!is_css_color_code("#meeting-notes"));

    assert!(!is_css_color_code("#ff"));
    assert!(!is_css_color_code("#ffff"));
    assert!(!is_css_color_code("#fffff"));
    assert!(!is_css_color_code("#fffffff"));
    assert!(!is_css_color_code("#fffffffff"));
    assert!(!is_css_color_code("#ghijkl"));
}

#[test]
fn test_parse_index_filters_color_codes() {
    let output = "NOTE_COUNT: 1
RECORD_START
id: note-1
title: Test Note
folder: Notes
modified: 2026-01-27T10:00:00Z
tags: #project,#fff,#work,#dee2e6,#todo
RECORD_END";

    let (count, notes) = parse_index_output(output).unwrap();
    assert_eq!(count, 1);
    assert_eq!(notes.len(), 1);
    assert_eq!(notes[0].tags, vec!["#project", "#work", "#todo"]);
}

#[test]
fn test_format_condition() {
    assert_eq!(format_condition("Clear"), "clear");
    assert_eq!(format_condition("PartlyCloudy"), "partly cloudy");
    assert_eq!(format_condition("Thunderstorms"), "thunderstorms");
}

#[test]
fn test_config_creation() {
    let config = WeatherKitConfig::new(
        "TEAM123",
        "com.example.weather",
        "KEY456",
        "/path/to/key.p8",
    );
    assert_eq!(config.team_id, "TEAM123");
    assert_eq!(config.service_id, "com.example.weather");
}

#[test]
fn test_temperature_unit_from_str() {
    assert_eq!(TemperatureUnit::from_str("F"), TemperatureUnit::Fahrenheit);
    assert_eq!(TemperatureUnit::from_str("fahrenheit"), TemperatureUnit::Fahrenheit);
    assert_eq!(TemperatureUnit::from_str("FAHRENHEIT"), TemperatureUnit::Fahrenheit);
    assert_eq!(TemperatureUnit::from_str("C"), TemperatureUnit::Celsius);
    assert_eq!(TemperatureUnit::from_str("celsius"), TemperatureUnit::Celsius);
    assert_eq!(TemperatureUnit::from_str("anything"), TemperatureUnit::Celsius);
}

#[test]
fn test_generate_session_id() {
    let id1 = generate_session_id();
    let _id2 = generate_session_id();
    assert!(!id1.is_empty());
    assert!(id1.contains('_'));
}

#[test]
fn test_memory_config_default() {
    let config = MemoryConfig::default();
    assert!(config.enabled);
    assert_eq!(config.max_context_results, 3);
    assert_eq!(config.session_timeout_hours, 24);
}

#[test]
fn conversation_memory_test_cache_paths() {
    let vpath = memory::video_path();
    let ipath = memory::index_path();
    let mpath = memory::meta_path();

    assert!(vpath.contains("conversation_memory.mp4"));
    assert!(ipath.contains("conversation_memory_index.db"));
    assert!(mpath.contains("conversation_memory_meta.json"));
}

#[test]
fn test_turn_role_as_str() {
    assert_eq!(TurnRole::User.as_str(), "user");
    assert_eq!(TurnRole::Assistant.as_str(), "assistant");
}

#[test]
fn test_parse_chunk_metadata() {
    let chunk = "NOTE_ID: x-coredata://123/ICNote/p456\nTITLE: Test Note\nFOLDER: Notes\nMODIFIED: 2026-01-27\n\nThis is the actual content of the note.";
    let (id, title, folder, content) = parse_chunk_metadata(chunk);
    assert_eq!(id, "x-coredata://123/ICNote/p456");
    assert_eq!(title, "Test Note");
    assert_eq!(folder, "Notes");
    assert!(content.contains("actual content"));
}

#[test]
fn test_parse_chunk_metadata_no_metadata() {
    let chunk = "Just some plain text without metadata headers.";
    let (id, title, folder, content) = parse_chunk_metadata(chunk);
    assert!(id.is_empty());
    assert!(title.is_empty());
    assert!(folder.is_empty());
    assert!(content.contains("plain text"));
}

#[test]
fn test_create_snippet() {
    let text = "This is a short text.";
    assert_eq!(create_snippet(text, 100), "This is a short text.");

    let long_text = "This is a much longer text that should be truncated at a word boundary.";
    let snippet = create_snippet(long_text, 30);
    assert!(snippet.len() <= 33);
    assert!(snippet.ends_with("..."));
}

#[test]
fn memvid_notes_test_cache_paths() {
    let vpath = semantic_notes::video_path();
    let ipath = semantic_notes::index_path();
    let mpath = semantic_notes::meta_path();

    assert!(vpath.contains("apple_notes.mp4"));
    assert!(ipath.contains("apple_notes_index.db"));
    assert!(mpath.contains("apple_notes_meta.json"));
}

#[test]
fn test_search_json_reports_missing_backend() {
    let err = semantic_notes::search_json("anything", 5).unwrap_err();
    assert!(err.contains("not available"));
    assert!(semantic_notes::rebuild_index_json().is_err());
}

#[test]
fn test_parse_batch_notes() {
    let output = "RECORD_START
id: note-1
title: First
folder: Work
modified: 2026-01-27T10:00:00Z
BODY_START
alpha
beta
BODY_END
RECORD_END
RECORD_START
error: not found
RECORD_END
RECORD_START
id: note-2
title: Second
folder: Home
modified: 2026-01-27T11:00:00Z
BODY_START
gamma
BODY_END
RECORD_END";
    let notes = parse_batch_notes(output).unwrap();
    assert_eq!(notes.len(), 2);
    assert_eq!(notes[0].id, "note-1");
    assert_eq!(notes[0].body, "alpha\nbeta");
    assert_eq!(notes[1].id, "note-2");
    assert_eq!(notes[1].body, "gamma");
    assert_eq!(
        notes[0].open_cmd,
        "osascript scripts/notes_open.applescript \"note-1\""
    );
    assert!(parse_batch_notes("ERROR: host gone").is_err());
}

#[test]
fn test_notes_action_for_dispatch() {
    assert_eq!(notes_action_for("search_notes", None), Some("search"));
    assert_eq!(notes_action_for("list_notes", None), Some("list"));
    assert_eq!(notes_action_for("get_note", None), Some("get"));
    assert_eq!(notes_action_for("notes_index", Some("build")), Some("index_build"));
    assert_eq!(notes_action_for("notes_index", Some("check")), Some("index_check"));
    assert_eq!(notes_action_for("notes_index", None), Some("index_check"));
    assert_eq!(notes_action_for("notes_tags", None), Some("tags"));
    assert_eq!(notes_action_for("notes_search_by_tag", None), Some("search_by_tag"));
    assert_eq!(notes_action_for("get_weather", None), None);
}

#[test]
fn test_resolve_indexed_chunk() {
    let entries = vec![(
        7u32,
        NoteMetadataEntry {
            note_id: "abc/ICNote/p7".to_string(),
            title: "Seventh".to_string(),
            folder: "Notes".to_string(),
            modified: "2026-01-27".to_string(),
        },
    )];
    let (id, title, folder, content) =
        resolve_indexed_chunk("N:7\nthe chunk body", &entries).unwrap();
    assert_eq!(id, "x-coredata://abc/ICNote/p7");
    assert_eq!(title, "Seventh");
    assert_eq!(folder, "Notes");
    assert_eq!(content, "the chunk body");
    assert!(resolve_indexed_chunk("N:9\nbody", &entries).is_none());
    assert!(resolve_indexed_chunk("plain text", &entries).is_none());
}
