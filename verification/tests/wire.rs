use intent_router::json::parse_json;
use intent_router::model::{
    Constraints, Entities, IntentPayload, IntentType, SourcePreference, WeatherQueryType,
};
use intent_router::wire::{payload_from_json_model, payload_to_json};

#[test]
fn test_payload_json_exact() {
    let payload = IntentPayload {
        intent: IntentType::Weather,
        entities: Entities {
            location: Some("NYC".to_string()),
            date: Some("tomorrow".to_string()),
            ..Default::default()
        },
        constraints: Constraints::default(),
    };
    let mut expected = String::from("{\"intent\":\"weather\",");
    expected.push_str("\"entities\":{\"location\":\"NYC\",\"date\":\"tomorrow\"},");
    expected.push_str("\"constraints\":{\"source_preference\":\"either\",\"safety\":\"normal\"}}");
    assert_eq!(payload_to_json(&payload), expected);
}

#[test]
fn test_payload_json_round_trip() {
    let payload = IntentPayload {
        intent: IntentType::Weather,
        entities: Entities {
            location: Some("NYC".to_string()),
            date: Some("tomorrow".to_string()),
            ..Default::default()
        },
        constraints: Constraints::default(),
    };

    let json = payload_to_json(&payload);
    let parsed = parse_json(&json).expect("wire text parses");
    let recovered = payload_from_json_model(&parsed).expect("wire object reads back");

    assert_eq!(payload.intent, recovered.intent);
    assert_eq!(payload.entities.location, recovered.entities.location);
    assert_eq!(payload.entities.date, recovered.entities.date);
    assert_eq!(payload.entities.topic, recovered.entities.topic);
    assert_eq!(payload.entities.weather_query, recovered.entities.weather_query);
    assert_eq!(
        payload.constraints.source_preference,
        recovered.constraints.source_preference
    );
}

#[test]
fn test_payload_json_round_trip_all_fields() {
    let payload = IntentPayload {
        intent: IntentType::Remind,
        entities: Entities {
            topic: Some("dentist \"checkup\"".to_string()),
            query: Some("q".to_string()),
            location: Some("home".to_string()),
            date: Some("2026-02-01".to_string()),
            date_end: Some("2026-02-02".to_string()),
            recipient: Some("me".to_string()),
            priority: Some("high".to_string()),
            weather_query: Some(WeatherQueryType::Forecast),
        },
        constraints: Constraints {
            source_preference: SourcePreference::Files,
            safety: "strict".to_string(),
        },
    };
    let json = payload_to_json(&payload);
    let parsed = parse_json(&json).expect("wire text parses");
    let recovered = payload_from_json_model(&parsed).expect("wire object reads back");
    assert_eq!(recovered.intent, IntentType::Remind);
    assert_eq!(recovered.entities.topic, Some("dentist \"checkup\"".to_string()));
    assert_eq!(recovered.entities.date_end, Some("2026-02-02".to_string()));
    assert_eq!(recovered.entities.priority, Some("high".to_string()));
    assert_eq!(recovered.constraints.safety, "strict");
}
