use intent_router::encode::{ToPrologDict, ToPrologList, escape_prolog_atom, escape_prolog_string};
use intent_router::model::{Constraints, Entities, IntentType, SourcePreference, WeatherQueryType};

#[test]
fn test_intent_type_atom() {
    assert_eq!(IntentType::Summarize.as_atom(), "summarize");
    assert_eq!(IntentType::Weather.as_atom(), "weather");
    assert_eq!(IntentType::Unknown.as_atom(), "unknown");
}

#[test]
fn main_test_prolog_dict_generation() {
    let entities = Entities {
        topic: Some("AI notes".to_string()),
        location: None,
        ..Default::default()
    };

    let dict = entities.to_prolog_dict();
    assert!(dict.contains("topic:\"AI notes\""));
    assert!(!dict.contains("location"));
}

#[test]
fn main_test_prolog_list_generation() {
    let entities = Entities {
        topic: Some("AI notes".to_string()),
        location: Some("NYC".to_string()),
        ..Default::default()
    };

    let list = entities.to_prolog_list();
    assert!(list.starts_with('['));
    assert!(list.ends_with(']'));
    assert!(list.contains("topic-'AI notes'"));
    assert!(list.contains("location-'NYC'"));
    assert!(!list.contains("date"));
}

#[test]
fn main_test_constraints_list_generation() {
    let constraints = Constraints {
        source_preference: SourcePreference::Notes,
        safety: "normal".to_string(),
    };

    let list = constraints.to_prolog_list();
    assert!(list.contains("source_preference-notes"));
    assert!(list.contains("safety-'normal'"));
}

#[test]
fn main_test_prolog_dict_with_weather_query() {
    let entities = Entities {
        location: Some("NYC".to_string()),
        date: Some("2026-01-27".to_string()),
        date_end: Some("2026-02-02".to_string()),
        weather_query: Some(WeatherQueryType::Forecast),
        ..Default::default()
    };
    let dict = entities.to_prolog_dict();
    assert!(dict.contains("location:\"NYC\""));
    assert!(dict.contains("date:\"2026-01-27\""));
    assert!(dict.contains("date_end:\"2026-02-02\""));
    assert!(dict.contains("weather_query:\"forecast\""));
}

#[test]
fn types_test_prolog_dict_generation() {
    let entities = Entities {
        topic: Some("AI notes".to_string()),
        location: None,
        ..Default::default()
    };

    let dict = entities.to_prolog_dict();
    assert!(dict.contains("topic:\"AI notes\""));
    assert!(!dict.contains("location"));
}

#[test]
fn types_test_prolog_list_generation() {
    let entities = Entities {
        topic: Some("AI notes".to_string()),
        location: Some("NYC".to_string()),
        ..Default::default()
    };

    let list = entities.to_prolog_list();
    assert!(list.starts_with('['));
    assert!(list.ends_with(']'));
    assert!(list.contains("topic-'AI notes'"));
    assert!(list.contains("location-'NYC'"));
    assert!(!list.contains("date"));
}

#[test]
fn types_test_constraints_list_generation() {
    let constraints = Constraints {
        source_preference: SourcePreference::Notes,
        safety: "normal".to_string(),
    };

    let list = constraints.to_prolog_list();
    assert!(list.contains("source_preference-notes"));
    assert!(list.contains("safety-'normal'"));
}

#[test]
fn types_test_prolog_dict_with_weather_query() {
    let entities = Entities {
        location: Some("NYC".to_string()),
        date: Some("2026-01-27".to_string()),
        date_end: Some("2026-02-02".to_string()),
        weather_query: Some(WeatherQueryType::Forecast),
        ..Default::default()
    };
    let dict = entities.to_prolog_dict();
    assert!(dict.contains("location:\"NYC\""));
    assert!(dict.contains("date:\"2026-01-27\""));
    assert!(dict.contains("date_end:\"2026-02-02\""));
    assert!(dict.contains("weather_query:\"forecast\""));
}

#[test]
fn test_dict_encoding_exact() {
    let entities = Entities {
        topic: Some("AI notes".to_string()),
        ..Default::default()
    };
    assert_eq!(entities.to_prolog_dict(), "_{topic:\"AI notes\"}");
    let empty = Entities::default();
    assert_eq!(empty.to_prolog_dict(), "_{}");
}

#[test]
fn test_escaping_round_trip_shape() {
    assert_eq!(escape_prolog_string("a\\b\"c"), "a\\\\b\\\"c");
    assert_eq!(escape_prolog_atom("it's"), "it\\'s");
    assert_eq!(escape_prolog_string("plain"), "plain");
}

#[test]
fn test_constraints_dict_generation() {
    let constraints = Constraints::default();
    assert_eq!(
        constraints.to_prolog_dict(),
        "_{source_preference:\"either\", safety:\"normal\"}"
    );
}

#[test]
fn test_prolog_dict_generation() {
    let entities = Entities {
        topic: Some("AI notes".to_string()),
        location: None,
        ..Default::default()
    };

    let dict = entities.to_prolog_dict();
    assert!(dict.contains("topic:\"AI notes\""));
    assert!(!dict.contains("location"));
}

#[test]
fn test_prolog_list_generation() {
    let entities = Entities {
        topic: Some("AI notes".to_string()),
        location: Some("NYC".to_string()),
        ..Default::default()
    };

    let list = entities.to_prolog_list();
    assert!(list.starts_with('['));
    assert!(list.ends_with(']'));
    assert!(list.contains("topic-'AI notes'"));
    assert!(list.contains("location-'NYC'"));
    assert!(!list.contains("date"));
}

#[test]
fn test_constraints_list_generation() {
    let constraints = Constraints {
        source_preference: SourcePreference::Notes,
        safety: "normal".to_string(),
    };

    let list = constraints.to_prolog_list();
    assert!(list.contains("source_preference-notes"));
    assert!(list.contains("safety-'normal'"));
}

#[test]
fn test_prolog_dict_with_weather_query() {
    let entities = Entities {
        location: Some("NYC".to_string()),
        date: Some("2026-01-27".to_string()),
        date_end: Some("2026-02-02".to_string()),
        weather_query: Some(WeatherQueryType::Forecast),
        ..Default::default()
    };
    let dict = entities.to_prolog_dict();
    assert!(dict.contains("location:\"NYC\""));
    assert!(dict.contains("date:\"2026-01-27\""));
    assert!(dict.contains("date_end:\"2026-02-02\""));
    assert!(dict.contains("weather_query:\"forecast\""));
}
