use intent_router::extract::extract_intent_stub;
use intent_router::model::{IntentType, SourcePreference, WeatherQueryType};

#[test]
fn intent_test_stub_extractor_summarize() {
    let payload = extract_intent_stub("summarize my notes about AI");
    assert_eq!(payload.intent, IntentType::Summarize);
    assert_eq!(payload.entities.topic, Some("AI".to_string()));
    assert_eq!(payload.constraints.source_preference, SourcePreference::Notes);
}

#[test]
fn intent_test_stub_extractor_weather() {
    let payload = extract_intent_stub("what's the weather tomorrow");
    assert_eq!(payload.intent, IntentType::Weather);
    let expected = (chrono::Local::now().date_naive() + chrono::Days::new(1))
        .format("%Y-%m-%d")
        .to_string();
    assert_eq!(payload.entities.date, Some(expected));
    assert_eq!(payload.entities.weather_query, Some(WeatherQueryType::Current));
}

#[test]
fn intent_test_stub_extractor_weather_with_location() {
    let payload = extract_intent_stub("what's the weather in London tomorrow");
    assert_eq!(payload.intent, IntentType::Weather);
    assert_eq!(payload.entities.location, Some("London".to_string()));
    assert!(payload.entities.date.is_some());
}

#[test]
fn intent_test_stub_extractor_weather_forecast() {
    let payload = extract_intent_stub("forecast for Seattle next week");
    assert_eq!(payload.intent, IntentType::Weather);
    assert_eq!(payload.entities.location, Some("Seattle".to_string()));
    assert_eq!(payload.entities.weather_query, Some(WeatherQueryType::Forecast));
    assert!(payload.entities.date.is_some());
    assert!(payload.entities.date_end.is_some());
}

#[test]
fn intent_test_stub_extractor_weather_assessment() {
    let payload = extract_intent_stub("bad weather in Chicago tomorrow");
    assert_eq!(payload.intent, IntentType::Weather);
    assert_eq!(payload.entities.location, Some("Chicago".to_string()));
    assert_eq!(payload.entities.weather_query, Some(WeatherQueryType::Assessment));
}

#[test]
fn intent_test_stub_extractor_will_it_rain() {
    let payload = extract_intent_stub("will it rain in Boston this weekend");
    assert_eq!(payload.intent, IntentType::Weather);
    assert_eq!(payload.entities.location, Some("Boston".to_string()));
    assert_eq!(payload.entities.weather_query, Some(WeatherQueryType::Assessment));
    assert!(payload.entities.date.is_some());
    assert!(payload.entities.date_end.is_some());
}

#[test]
fn intent_test_stub_extractor_unknown() {
    let payload = extract_intent_stub("hello world");
    assert_eq!(payload.intent, IntentType::Unknown);
}

#[test]
fn intent_test_stub_extractor_email_with_recipient() {
    let payload = extract_intent_stub("send an email to Mary");
    assert_eq!(payload.intent, IntentType::Draft);
    assert_eq!(payload.entities.recipient, Some("Mary".to_string()));
}

#[test]
fn intent_test_stub_extractor_email_to_pattern() {
    let payload = extract_intent_stub("I want you to send an email to John about the project");
    assert_eq!(payload.intent, IntentType::Draft);
    assert_eq!(payload.entities.recipient, Some("John".to_string()));
    assert_eq!(payload.entities.topic, Some("the project".to_string()));
}

#[test]
fn main_test_stub_extractor_summarize() {
    let payload = extract_intent_stub("summarize my notes about AI");
    assert_eq!(payload.intent, IntentType::Summarize);
    assert_eq!(payload.entities.topic, Some("AI".to_string()));
    assert_eq!(payload.constraints.source_preference, SourcePreference::Notes);
}

#[test]
fn main_test_stub_extractor_weather() {
    let payload = extract_intent_stub("what's the weather tomorrow");
    assert_eq!(payload.intent, IntentType::Weather);
    let expected = (chrono::Local::now().date_naive() + chrono::Days::new(1))
        .format("%Y-%m-%d")
        .to_string();
    assert_eq!(payload.entities.date, Some(expected));
    assert_eq!(payload.entities.weather_query, Some(WeatherQueryType::Current));
}

#[test]
fn main_test_stub_extractor_weather_with_location() {
    let payload = extract_intent_stub("what's the weather in London tomorrow");
    assert_eq!(payload.intent, IntentType::Weather);
    assert_eq!(payload.entities.location, Some("London".to_string()));
    assert!(payload.entities.date.is_some());
}

#[test]
fn main_test_stub_extractor_weather_forecast() {
    let payload = extract_intent_stub("forecast for Seattle next week");
    assert_eq!(payload.intent, IntentType::Weather);
    assert_eq!(payload.entities.location, Some("Seattle".to_string()));
    assert_eq!(payload.entities.weather_query, Some(WeatherQueryType::Forecast));
    assert!(payload.entities.date.is_some());
    assert!(payload.entities.date_end.is_some());
}

#[test]
fn main_test_stub_extractor_weather_assessment() {
    let payload = extract_intent_stub("bad weather in Chicago tomorrow");
    assert_eq!(payload.intent, IntentType::Weather);
    assert_eq!(payload.entities.location, Some("Chicago".to_string()));
    assert_eq!(payload.entities.weather_query, Some(WeatherQueryType::Assessment));
}

#[test]
fn main_test_stub_extractor_will_it_rain() {
    let payload = extract_intent_stub("will it rain in Boston this weekend");
    assert_eq!(payload.intent, IntentType::Weather);
    assert_eq!(payload.entities.location, Some("Boston".to_string()));
    assert_eq!(payload.entities.weather_query, Some(WeatherQueryType::Assessment));
    assert!(payload.entities.date.is_some());
    assert!(payload.entities.date_end.is_some());
}

#[test]
fn main_test_stub_extractor_unknown() {
    let payload = extract_intent_stub("hello world");
    assert_eq!(payload.intent, IntentType::Unknown);
}

#[test]
fn main_test_stub_extractor_email_with_recipient() {
    let payload = extract_intent_stub("send an email to Mary");
    assert_eq!(payload.intent, IntentType::Draft);
    assert_eq!(payload.entities.recipient, Some("Mary".to_string()));
}

#[test]
fn main_test_stub_extractor_email_to_pattern() {
    let payload = extract_intent_stub("I want you to send an email to John about the project");
    assert_eq!(payload.intent, IntentType::Draft);
    assert_eq!(payload.entities.recipient, Some("John".to_string()));
    assert_eq!(payload.entities.topic, Some("the project".to_string()));
}

#[test]
fn test_stub_extractor_summarize() {
    let payload = extract_intent_stub("summarize my notes about AI");
    assert_eq!(payload.intent, IntentType::Summarize);
    assert_eq!(payload.entities.topic, Some("AI".to_string()));
    assert_eq!(payload.constraints.source_preference, SourcePreference::Notes);
}

#[test]
fn test_stub_extractor_weather() {
    let payload = extract_intent_stub("what's the weather tomorrow");
    assert_eq!(payload.intent, IntentType::Weather);
    let expected = (chrono::Local::now().date_naive() + chrono::Days::new(1))
        .format("%Y-%m-%d")
        .to_string();
    assert_eq!(payload.entities.date, Some(expected));
    assert_eq!(payload.entities.weather_query, Some(WeatherQueryType::Current));
}

#[test]
fn test_stub_extractor_weather_with_location() {
    let payload = extract_intent_stub("what's the weather in London tomorrow");
    assert_eq!(payload.intent, IntentType::Weather);
    assert_eq!(payload.entities.location, Some("London".to_string()));
    assert!(payload.entities.date.is_some());
}

#[test]
fn test_stub_extractor_weather_forecast() {
    let payload = extract_intent_stub("forecast for Seattle next week");
    assert_eq!(payload.intent, IntentType::Weather);
    assert_eq!(payload.entities.location, Some("Seattle".to_string()));
    assert_eq!(payload.entities.weather_query, Some(WeatherQueryType::Forecast));
    assert!(payload.entities.date.is_some());
    assert!(payload.entities.date_end.is_some());
}

#[test]
fn test_stub_extractor_weather_assessment() {
    let payload = extract_intent_stub("bad weather in Chicago tomorrow");
    assert_eq!(payload.intent, IntentType::Weather);
    assert_eq!(payload.entities.location, Some("Chicago".to_string()));
    assert_eq!(payload.entities.weather_query, Some(WeatherQueryType::Assessment));
}

#[test]
fn test_stub_extractor_will_it_rain() {
    let payload = extract_intent_stub("will it rain in Boston this weekend");
    assert_eq!(payload.intent, IntentType::Weather);
    assert_eq!(payload.entities.location, Some("Boston".to_string()));
    assert_eq!(payload.entities.weather_query, Some(WeatherQueryType::Assessment));
    assert!(payload.entities.date.is_some());
    assert!(payload.entities.date_end.is_some());
}

#[test]
fn test_stub_extractor_unknown() {
    let payload = extract_intent_stub("hello world");
    assert_eq!(payload.intent, IntentType::Unknown);
}

#[test]
fn test_stub_extractor_email_with_recipient() {
    let payload = extract_intent_stub("send an email to Mary");
    assert_eq!(payload.intent, IntentType::Draft);
    assert_eq!(payload.entities.recipient, Some("Mary".to_string()));
}

#[test]
fn test_stub_extractor_email_to_pattern() {
    let payload = extract_intent_stub("I want you to send an email to John about the project");
    assert_eq!(payload.intent, IntentType::Draft);
    assert_eq!(payload.entities.recipient, Some("John".to_string()));
    assert_eq!(payload.entities.topic, Some("the project".to_string()));
}

#[test]
fn test_stub_extractor_accented_recipient() {
    let payload = extract_intent_stub("send an email to José!");
    assert_eq!(payload.intent, IntentType::Draft);
    assert_eq!(payload.entities.recipient, Some("José".to_string()));
}
