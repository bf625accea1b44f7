use intent_router::backend::{scryer_decide, scryer_probe};
use intent_router::model::{Constraints, Decision, Entities, IntentPayload, IntentType};
use intent_router::router::{ProbeOutcome, ProbeResult, expected_probe_outcome};

const PROBE_RULES: &str = "
:- use_module(library(lists)).

require_search(E) :-
    ( member(topic-_, E) -> true
    ; member(query-_, E) -> true
    ; throw(error(missing_required(topic), route/5))
    ).
require(K, E) :-
    ( member(K-_, E) -> true
    ; throw(error(missing_required(K), route/5))
    ).

route(summarize, E, _, search_notes, []) :- require_search(E).
route(find, E, _, search_files, []) :- require_search(E).
route(weather, E, _, get_weather, []) :- require(location, E).
route(draft, E, _, draft_email, []) :- require(recipient, E).
route(remind, E, _, create_todo, []) :- require(topic, E), require(date, E).
";

fn payload(intent: IntentType, entities: Entities) -> IntentPayload {
    IntentPayload { intent, entities, constraints: Constraints::default() }
}

#[test]
fn test_scryer_probe_success_agrees_with_native() {
    let p = payload(
        IntentType::Summarize,
        Entities { topic: Some("AI notes".to_string()), ..Default::default() },
    );
    let probe = scryer_probe(PROBE_RULES, &p);
    assert_eq!(probe, ProbeOutcome::Success);
    assert_eq!(probe, expected_probe_outcome(&p));
}

#[test]
fn test_scryer_probe_missing_field_name() {
    let p = payload(IntentType::Weather, Entities::default());
    let probe = scryer_probe(PROBE_RULES, &p);
    assert_eq!(probe, ProbeOutcome::MissingField("location".to_string()));
    assert_eq!(probe, expected_probe_outcome(&p));
}

#[test]
fn test_scryer_probe_failure_for_unknown() {
    let p = payload(IntentType::Unknown, Entities::default());
    let probe = scryer_probe(PROBE_RULES, &p);
    assert_eq!(probe, ProbeOutcome::Failure);
    assert_eq!(probe, expected_probe_outcome(&p));
}

#[test]
fn test_scryer_probe_control_character_is_inconclusive() {
    let p = payload(
        IntentType::Summarize,
        Entities { topic: Some("line one\nline two".to_string()), ..Default::default() },
    );
    assert_eq!(scryer_probe(PROBE_RULES, &p), ProbeOutcome::Failure);
    let tabbed = payload(
        IntentType::Weather,
        Entities { location: Some("NYC\tdowntown".to_string()), ..Default::default() },
    );
    assert_eq!(scryer_probe(PROBE_RULES, &tabbed), ProbeOutcome::Failure);
}

#[test]
fn test_scryer_decide_control_character_still_decides() {
    let p = payload(
        IntentType::Summarize,
        Entities { topic: Some("notes\nwith a newline".to_string()), ..Default::default() },
    );
    let report = scryer_decide(&p, PROBE_RULES, false);
    match report.decision {
        Decision::Route { tool, .. } => assert_eq!(tool, "search_files"),
        _ => panic!("Expected Route decision"),
    }
    assert_eq!(report.probe, ProbeResult::Disagrees(ProbeOutcome::Failure));
}
