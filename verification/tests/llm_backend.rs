use intent_router::json::{JsonModel, parse_json};
use intent_router::llm::{
    ContentItem, LlmRequest, OutputItem, ResponsesResponse, extract_text_from_response,
    normalize_intent_payload, parse_json_from_text,
};
use intent_router::model::{IntentType, SourcePreference, WeatherQueryType};

#[test]
fn test_extract_text_from_response_chunks() {
    let resp = ResponsesResponse {
        id: Some("r1".to_string()),
        output: vec![
            OutputItem { content: vec![ContentItem { text: Some("hello".to_string()) }] },
            OutputItem {
                content: vec![
                    ContentItem { text: None },
                    ContentItem { text: Some("world".to_string()) },
                ],
            },
        ],
        output_text: Some("ignored".to_string()),
    };
    assert_eq!(extract_text_from_response(&resp).unwrap(), "hello\nworld");
}

#[test]
fn test_extract_text_from_response_fallback_and_failure() {
    let with_fallback = ResponsesResponse {
        id: None,
        output: vec![],
        output_text: Some("  flat text  ".to_string()),
    };
    assert_eq!(extract_text_from_response(&with_fallback).unwrap(), "flat text");
    let empty = ResponsesResponse { id: None, output: vec![], output_text: None };
    assert!(extract_text_from_response(&empty).is_err());
}

#[test]
fn test_parse_json_from_text_first_object() {
    let text = "Here you go: {\"intent\": \"weather\", \"entities\": {\"location\": \"NYC\"}} trailing";
    let raw = parse_json_from_text(text).unwrap();
    assert_eq!(raw.intent, Some("weather".to_string()));
    assert_eq!(raw.entities.unwrap().location, Some("NYC".to_string()));
}

#[test]
fn test_parse_json_from_text_no_object_fails() {
    assert!(parse_json_from_text("nothing to see").is_err());
}

#[test]
fn test_normalize_intent_payload_tokens() {
    let raw = parse_json_from_text(
        "{\"intent\": \"Forecast\", \"entities\": {\"location\": \"Rome\", \"weather_query\": \"assessment\"}, \"constraints\": {\"source_preference\": \"notes\"}}",
    )
    .unwrap();
    let payload = normalize_intent_payload(raw);
    assert_eq!(payload.intent, IntentType::Weather);
    assert_eq!(payload.entities.location, Some("Rome".to_string()));
    assert_eq!(payload.entities.weather_query, Some(WeatherQueryType::Assessment));
    assert_eq!(payload.constraints.source_preference, SourcePreference::Notes);
    assert_eq!(payload.constraints.safety, "normal");
}

#[test]
fn test_normalize_unknown_intent_token() {
    let raw = parse_json_from_text("{\"intent\": \"dance\"}").unwrap();
    let payload = normalize_intent_payload(raw);
    assert_eq!(payload.intent, IntentType::Unknown);
    assert_eq!(payload.constraints.source_preference, SourcePreference::Either);
}

#[test]
fn test_llm_request_default() {
    let r = LlmRequest::default();
    assert!(r.input.is_empty());
    assert!(r.instructions.is_none());
    assert!(r.previous_response_id.is_none());
    assert!(!r.verbose);
}

#[test]
fn test_json_model_round_trip_text() {
    let j = parse_json("{\"a\": [1, true, null], \"b\": \"x\"}").unwrap();
    assert_eq!(j.to_text(), "{\"a\":[1,true,null],\"b\":\"x\"}");
    let again = parse_json(&j.to_text()).unwrap();
    assert_eq!(again.to_text(), j.to_text());
}

#[test]
fn test_json_model_lookup() {
    let j = parse_json("{\"location\": \"NYC\", \"n\": 5}").unwrap();
    assert_eq!(
        j.get("location").and_then(|v| v.as_str().cloned()),
        Some("NYC".to_string())
    );
    assert!(j.get("missing").is_none());
    assert!(matches!(j.get("n"), Some(JsonModel::Num(_))));
    assert!(parse_json("not json").is_none());
}
