use intent_router::model::{
    Constraints, Decision, Entities, IntentPayload, IntentType, SourcePreference,
};
use intent_router::router::{
    EngineReport, ProbeOutcome, ProbeResult, decide_checked, expected_probe_outcome,
    prolog_decide_stub,
};

fn arg(args: &[(String, String)], key: &str) -> Option<String> {
    args.iter().find(|(k, _)| k == key).map(|(_, v)| v.clone())
}

#[test]
fn test_prolog_decide_summarize() {
    let payload = IntentPayload {
        intent: IntentType::Summarize,
        entities: Entities {
            topic: Some("machine learning".to_string()),
            ..Default::default()
        },
        constraints: Constraints {
            source_preference: SourcePreference::Notes,
            ..Default::default()
        },
    };

    let decision = prolog_decide_stub(&payload, false);
    match decision {
        Decision::Route { tool, args } => {
            assert_eq!(tool, "search_notes");
            assert_eq!(arg(&args, "query"), Some("machine learning".to_string()));
        }
        _ => panic!("Expected Route decision"),
    }
}

#[test]
fn test_prolog_decide_weather_missing_location() {
    let payload = IntentPayload {
        intent: IntentType::Weather,
        entities: Entities {
            date: Some("tomorrow".to_string()),
            ..Default::default()
        },
        constraints: Constraints::default(),
    };

    let decision = prolog_decide_stub(&payload, false);
    match decision {
        Decision::NeedInfo { question } => {
            assert!(question.contains("location"));
        }
        _ => panic!("Expected NeedInfo decision"),
    }
}

#[test]
fn test_route_scenario_scope_and_tool() {
    let payload = IntentPayload {
        intent: IntentType::Summarize,
        entities: Entities {
            topic: Some("machine learning".to_string()),
            ..Default::default()
        },
        constraints: Constraints {
            source_preference: SourcePreference::Notes,
            ..Default::default()
        },
    };
    match prolog_decide_stub(&payload, false) {
        Decision::Route { tool, args } => {
            assert_eq!(tool, "search_notes");
            assert_eq!(arg(&args, "query"), Some("machine learning".to_string()));
            assert_eq!(arg(&args, "scope"), Some("user".to_string()));
        }
        _ => panic!("Expected Route decision"),
    }
}

#[test]
fn test_route_files_when_preference_not_notes() {
    let payload = IntentPayload {
        intent: IntentType::Find,
        entities: Entities {
            query: Some("budget report".to_string()),
            ..Default::default()
        },
        constraints: Constraints::default(),
    };
    match prolog_decide_stub(&payload, false) {
        Decision::Route { tool, .. } => assert_eq!(tool, "search_files"),
        _ => panic!("Expected Route decision"),
    }
}

#[test]
fn test_empty_topic_asks_what_to_do() {
    let payload = IntentPayload {
        intent: IntentType::Summarize,
        entities: Entities::default(),
        constraints: Constraints::default(),
    };
    match prolog_decide_stub(&payload, false) {
        Decision::NeedInfo { question } => assert_eq!(question, "What should I summarize?"),
        _ => panic!("Expected NeedInfo decision"),
    }
}

#[test]
fn test_draft_route_and_defaults() {
    let payload = IntentPayload {
        intent: IntentType::Draft,
        entities: Entities {
            recipient: Some("Mary".to_string()),
            ..Default::default()
        },
        constraints: Constraints::default(),
    };
    match prolog_decide_stub(&payload, false) {
        Decision::Route { tool, args } => {
            assert_eq!(tool, "draft_email");
            assert_eq!(arg(&args, "to"), Some("Mary".to_string()));
            assert_eq!(arg(&args, "subject"), Some("(no subject)".to_string()));
            assert_eq!(arg(&args, "body"), Some("".to_string()));
        }
        _ => panic!("Expected Route decision"),
    }
}

#[test]
fn test_remind_needs_topic_then_date() {
    let no_topic = IntentPayload {
        intent: IntentType::Remind,
        entities: Entities::default(),
        constraints: Constraints::default(),
    };
    match prolog_decide_stub(&no_topic, false) {
        Decision::NeedInfo { question } => {
            assert_eq!(question, "What should I remind you about?")
        }
        _ => panic!("Expected NeedInfo decision"),
    }
    let no_date = IntentPayload {
        intent: IntentType::Remind,
        entities: Entities {
            topic: Some("dentist".to_string()),
            ..Default::default()
        },
        constraints: Constraints::default(),
    };
    match prolog_decide_stub(&no_date, false) {
        Decision::NeedInfo { question } => {
            assert_eq!(
                question,
                "When is this due? (e.g., tomorrow, next Friday, 2026-02-01)"
            )
        }
        _ => panic!("Expected NeedInfo decision"),
    }
}

#[test]
fn test_unknown_intent_rejected() {
    let payload = IntentPayload {
        intent: IntentType::Unknown,
        entities: Entities::default(),
        constraints: Constraints::default(),
    };
    match prolog_decide_stub(&payload, false) {
        Decision::Reject { reason } => {
            assert_eq!(reason, "No matching route or follow-up found.")
        }
        _ => panic!("Expected Reject decision"),
    }
}

#[test]
fn test_premium_weather_tool_selection() {
    let payload = IntentPayload {
        intent: IntentType::Weather,
        entities: Entities {
            location: Some("NYC".to_string()),
            ..Default::default()
        },
        constraints: Constraints::default(),
    };
    match prolog_decide_stub(&payload, true) {
        Decision::Route { tool, .. } => assert_eq!(tool, "get_apple_weather"),
        _ => panic!("Expected Route decision"),
    }
    match prolog_decide_stub(&payload, false) {
        Decision::Route { tool, .. } => assert_eq!(tool, "get_weather"),
        _ => panic!("Expected Route decision"),
    }
}

#[test]
fn test_probe_agreement_classes() {
    let payload = IntentPayload {
        intent: IntentType::Weather,
        entities: Entities::default(),
        constraints: Constraints::default(),
    };
    assert_eq!(
        expected_probe_outcome(&payload),
        ProbeOutcome::MissingField("location".to_string())
    );
    let agreeing = ProbeOutcome::MissingField("location".to_string());
    let report: EngineReport = decide_checked(&payload, false, Some(&agreeing));
    assert_eq!(report.probe, ProbeResult::Agrees);
    let contesting = ProbeOutcome::Success;
    let report = decide_checked(&payload, false, Some(&contesting));
    assert_eq!(report.probe, ProbeResult::Disagrees(ProbeOutcome::Success));
    let report = decide_checked(&payload, false, None);
    assert_eq!(report.probe, ProbeResult::Unavailable);
    match report.decision {
        Decision::NeedInfo { question } => assert!(question.contains("location")),
        _ => panic!("Expected NeedInfo decision"),
    }
}

#[test]
fn test_decision_arg_lookup() {
    let payload = IntentPayload {
        intent: IntentType::Remind,
        entities: Entities {
            topic: Some("dentist".to_string()),
            date: Some("2026-02-01".to_string()),
            ..Default::default()
        },
        constraints: Constraints::default(),
    };
    let decision = prolog_decide_stub(&payload, false);
    assert_eq!(decision.arg("title"), Some(&"dentist".to_string()));
    assert_eq!(decision.arg("due"), Some(&"2026-02-01".to_string()));
    assert_eq!(decision.arg("priority"), Some(&"normal".to_string()));
    assert_eq!(decision.arg("nonexistent"), None);
}
