//! The decision engine: the canonical routing rules, and the probe model
//! that the external rule-engine backends are checked against.
//!
//! The native strategy owns the decision semantics. A backend probe can
//! only confirm or contest the outcome class; decisions are always built
//! natively, so a failing or absent backend never costs the caller an
//! answer.

use vstd::prelude::*;
use crate::model::{
    Decision, DecisionView, EntitiesView, IntentPayload, IntentPayloadView, IntentType,
    SourcePreference, args_view, intent_atom, weather_query_atom, weather_query_token,
};
use crate::text;

verus! {

/// The text a search route queries for: the topic, else the query slot,
/// else nothing.
pub open spec fn effective_query(e: EntitiesView) -> Seq<char> {
    match e.topic {
        Some(t) => t,
        None => match e.query {
            Some(q) => q,
            None => Seq::empty(),
        },
    }
}

/// The argument list of a weather route: the location always, the date,
/// range end and query kind only when present.
pub open spec fn weather_args(e: EntitiesView) -> Seq<(Seq<char>, Seq<char>)> {
    seq![("location"@, e.location->Some_0)] + (match e.date {
        Some(d) => seq![("date"@, d)],
        None => Seq::empty(),
    }) + (match e.date_end {
        Some(d) => seq![("date_end"@, d)],
        None => Seq::empty(),
    }) + (match e.weather_query {
        Some(w) => seq![("weather_query"@, weather_query_atom(w))],
        None => Seq::empty(),
    })
}

/// The canonical routing rules, the reference for every backend.
///
/// Summarize and Find search on the effective query, in the notes when the
/// source preference says so, else in the files; an empty query asks what
/// to do instead. Weather needs a location and picks the premium tool only
/// when one is configured. Draft needs a recipient; Remind needs a topic
/// and a date. An unknown intent is rejected.
pub open spec fn decide_spec(p: IntentPayloadView, premium_weather: bool) -> DecisionView {
    match p.intent {
        IntentType::Summarize | IntentType::Find => {
            let q = effective_query(p.entities);
            if q.len() == 0 {
                DecisionView::NeedInfo {
                    question: "What should I "@ + intent_atom(p.intent) + "?"@,
                }
            } else {
                DecisionView::Route {
                    tool: if p.constraints.source_preference == SourcePreference::Notes {
                        "search_notes"@
                    } else {
                        "search_files"@
                    },
                    args: seq![("query"@, q), ("scope"@, "user"@)],
                }
            }
        }
        IntentType::Weather => {
            if p.entities.location is None {
                DecisionView::NeedInfo { question: "What location should I use?"@ }
            } else {
                DecisionView::Route {
                    tool: if premium_weather {
                        "get_apple_weather"@
                    } else {
                        "get_weather"@
                    },
                    args: weather_args(p.entities),
                }
            }
        }
        IntentType::Draft => {
            if p.entities.recipient is None {
                DecisionView::NeedInfo { question: "Who should I email?"@ }
            } else {
                DecisionView::Route {
                    tool: "draft_email"@,
                    args: seq![
                        ("to"@, p.entities.recipient->Some_0),
                        ("subject"@, match p.entities.topic {
                            Some(t) => t,
                            None => "(no subject)"@,
                        }),
                        ("body"@, Seq::<char>::empty()),
                    ],
                }
            }
        }
        IntentType::Remind => {
            if p.entities.topic is None {
                DecisionView::NeedInfo { question: "What should I remind you about?"@ }
            } else if p.entities.date is None {
                DecisionView::NeedInfo {
                    question: "When is this due? (e.g., tomorrow, next Friday, 2026-02-01)"@,
                }
            } else {
                DecisionView::Route {
                    tool: "create_todo"@,
                    args: seq![
                        ("title"@, p.entities.topic->Some_0),
                        ("due"@, p.entities.date->Some_0),
                        ("priority"@, match p.entities.priority {
                            Some(pr) => pr,
                            None => "normal"@,
                        }),
                    ],
                }
            }
        }
        IntentType::Unknown => DecisionView::Reject {
            reason: "No matching route or follow-up found."@,
        },
    }
}

/// The canonical routing rules, executed natively. `premium_weather` says
/// whether a premium weather provider is configured; the caller reads that
/// from its environment.
pub fn prolog_decide_stub(payload: &IntentPayload, premium_weather: bool) -> (r: Decision)
    ensures
        r@ == decide_spec(payload@, premium_weather),
{
    let e = &payload.entities;
    match &payload.intent {
        IntentType::Summarize | IntentType::Find => {
            let q: String = match &e.topic {
                Some(t) => t.clone(),
                None => match &e.query {
                    Some(qq) => qq.clone(),
                    None => String::new(),
                },
            };
            if q.as_str().unicode_len() == 0 {
                let mut question = text::str_to_chars("What should I ");
                let atom = text::str_to_chars(payload.intent.as_atom());
                text::push_all(&mut question, &atom);
                question.push('?');
                proof {
                    reveal_strlit("?");
                    assert(question@ =~= "What should I "@ + intent_atom(payload@.intent)
                        + "?"@);
                }
                Decision::NeedInfo { question: text::chars_to_string(&question) }
            } else {
                let tool: &str = match &payload.constraints.source_preference {
                    SourcePreference::Notes => "search_notes",
                    _ => "search_files",
                };
                let mut args: Vec<(String, String)> = Vec::new();
                args.push(("query".to_owned(), q));
                args.push(("scope".to_owned(), "user".to_owned()));
                proof {
                    assert(args_view(args@) =~= seq![
                        ("query"@, effective_query(payload@.entities)),
                        ("scope"@, "user"@),
                    ]);
                }
                Decision::Route { tool: tool.to_owned(), args }
            }
        }
        IntentType::Weather => {
            match &e.location {
                None => Decision::NeedInfo { question: "What location should I use?".to_owned() },
                Some(loc) => {
                    let tool: &str = if premium_weather {
                        "get_apple_weather"
                    } else {
                        "get_weather"
                    };
                    let mut args: Vec<(String, String)> = Vec::new();
                    args.push(("location".to_owned(), loc.clone()));
                    if let Some(d) = &e.date {
                        args.push(("date".to_owned(), d.clone()));
                    }
                    if let Some(d) = &e.date_end {
                        args.push(("date_end".to_owned(), d.clone()));
                    }
                    if let Some(w) = &e.weather_query {
                        args.push(("weather_query".to_owned(), weather_query_token(w).to_owned()));
                    }
                    proof {
                        assert(args_view(args@) =~= weather_args(payload@.entities));
                    }
                    Decision::Route { tool: tool.to_owned(), args }
                }
            }
        }
        IntentType::Draft => {
            match &e.recipient {
                None => Decision::NeedInfo { question: "Who should I email?".to_owned() },
                Some(rcpt) => {
                    let subject: String = match &e.topic {
                        Some(t) => t.clone(),
                        None => "(no subject)".to_owned(),
                    };
                    let mut args: Vec<(String, String)> = Vec::new();
                    args.push(("to".to_owned(), rcpt.clone()));
                    args.push(("subject".to_owned(), subject));
                    args.push(("body".to_owned(), String::new()));
                    proof {
                        assert(args_view(args@) =~= decide_spec(payload@, premium_weather)
                            .arrow_Route_args());
                    }
                    Decision::Route { tool: "draft_email".to_owned(), args }
                }
            }
        }
        IntentType::Remind => {
            match &e.topic {
                None => Decision::NeedInfo {
                    question: "What should I remind you about?".to_owned(),
                },
                Some(title) => {
                    match &e.date {
                        None => Decision::NeedInfo {
                            question: "When is this due? (e.g., tomorrow, next Friday, 2026-02-01)"
                                .to_owned(),
                        },
                        Some(due) => {
                            let priority: String = match &e.priority {
                                Some(pr) => pr.clone(),
                                None => "normal".to_owned(),
                            };
                            let mut args: Vec<(String, String)> = Vec::new();
                            args.push(("title".to_owned(), title.clone()));
                            args.push(("due".to_owned(), due.clone()));
                            args.push(("priority".to_owned(), priority));
                            proof {
                                assert(args_view(args@) =~= decide_spec(payload@, premium_weather)
                                    .arrow_Route_args());
                            }
                            Decision::Route { tool: "create_todo".to_owned(), args }
                        }
                    }
                }
            }
        }
        IntentType::Unknown => Decision::Reject {
            reason: "No matching route or follow-up found.".to_owned(),
        },
    }
}

/// What a probe of a faithful rule file must report for a payload:
/// the outcome class of the canonical rules, with the missing required
/// field named when routing would ask for more information.
pub enum ProbeOutcomeView {
    Success,
    MissingField(Seq<char>),
    Failure,
}

/// A backend probe's observable outcome: the rule set accepted the facts,
/// raised a missing-required-field signal, or failed in some other way.
#[derive(Debug, Clone, PartialEq, Eq)]
pub enum ProbeOutcome {
    Success,
    MissingField(String),
    Failure,
}

impl View for ProbeOutcome {
    type V = ProbeOutcomeView;

    open spec fn view(&self) -> ProbeOutcomeView {
        match self {
            ProbeOutcome::Success => ProbeOutcomeView::Success,
            ProbeOutcome::MissingField(f) => ProbeOutcomeView::MissingField(f@),
            ProbeOutcome::Failure => ProbeOutcomeView::Failure,
        }
    }
}

/// The probe outcome a faithful rule file yields for `p`.
pub open spec fn expected_probe(p: IntentPayloadView) -> ProbeOutcomeView {
    match p.intent {
        IntentType::Summarize | IntentType::Find => {
            if effective_query(p.entities).len() == 0 {
                ProbeOutcomeView::MissingField("topic"@)
            } else {
                ProbeOutcomeView::Success
            }
        }
        IntentType::Weather => {
            if p.entities.location is None {
                ProbeOutcomeView::MissingField("location"@)
            } else {
                ProbeOutcomeView::Success
            }
        }
        IntentType::Draft => {
            if p.entities.recipient is None {
                ProbeOutcomeView::MissingField("recipient"@)
            } else {
                ProbeOutcomeView::Success
            }
        }
        IntentType::Remind => {
            if p.entities.topic is None {
                ProbeOutcomeView::MissingField("topic"@)
            } else if p.entities.date is None {
                ProbeOutcomeView::MissingField("date"@)
            } else {
                ProbeOutcomeView::Success
            }
        }
        IntentType::Unknown => ProbeOutcomeView::Failure,
    }
}

/// The probe outcome a faithful rule file must yield, computed natively.
pub fn expected_probe_outcome(payload: &IntentPayload) -> (r: ProbeOutcome)
    ensures
        r@ == expected_probe(payload@),
{
    let e = &payload.entities;
    match &payload.intent {
        IntentType::Summarize | IntentType::Find => {
            let empty = match &e.topic {
                Some(t) => t.as_str().unicode_len() == 0,
                None => match &e.query {
                    Some(q) => q.as_str().unicode_len() == 0,
                    None => true,
                },
            };
            if empty {
                ProbeOutcome::MissingField("topic".to_owned())
            } else {
                ProbeOutcome::Success
            }
        }
        IntentType::Weather => {
            if e.location.is_none() {
                ProbeOutcome::MissingField("location".to_owned())
            } else {
                ProbeOutcome::Success
            }
        }
        IntentType::Draft => {
            if e.recipient.is_none() {
                ProbeOutcome::MissingField("recipient".to_owned())
            } else {
                ProbeOutcome::Success
            }
        }
        IntentType::Remind => {
            if e.topic.is_none() {
                ProbeOutcome::MissingField("topic".to_owned())
            } else if e.date.is_none() {
                ProbeOutcome::MissingField("date".to_owned())
            } else {
                ProbeOutcome::Success
            }
        }
        IntentType::Unknown => ProbeOutcome::Failure,
    }
}

/// Backend equivalence, native side: for every payload, the canonical
/// rules route exactly when a faithful probe succeeds, ask for more
/// information exactly when the probe names a missing field, and reject
/// exactly when the probe fails. A backend agrees with the native strategy
/// precisely when its probe outcome equals `expected_probe`.
pub proof fn lemma_native_probe_agreement(p: IntentPayloadView, premium_weather: bool)
    ensures
        decide_spec(p, premium_weather) is Route <==> expected_probe(p) is Success,
        decide_spec(p, premium_weather) is NeedInfo <==> expected_probe(p) is MissingField,
        decide_spec(p, premium_weather) is Reject <==> expected_probe(p) is Failure,
{
}

/// A search route never queries for nothing: whenever the canonical
/// rules route a summarize or find request, the query argument they bound
/// is nonempty — an empty effective query asks the user instead.
pub proof fn law_route_query_nonempty(p: IntentPayloadView, premium_weather: bool)
    requires
        p.intent == IntentType::Summarize || p.intent == IntentType::Find,
    ensures
        decide_spec(p, premium_weather) matches DecisionView::Route { args, .. }
            ==> args.len() >= 1 && args[0] == ("query"@, effective_query(p.entities))
                && effective_query(p.entities).len() > 0,
{
}

/// How a backend probe relates to the native strategy on one payload.
#[derive(Debug, Clone, PartialEq, Eq)]
pub enum ProbeResult {
    /// The backend's probe matches the native outcome class.
    Agrees,
    /// The backend answered, but not with the expected outcome.
    Disagrees(ProbeOutcome),
    /// The backend could not be consulted; the native result stands alone.
    Unavailable,
}

pub enum ProbeResultView {
    Agrees,
    Disagrees(ProbeOutcomeView),
    Unavailable,
}

impl View for ProbeResult {
    type V = ProbeResultView;

    open spec fn view(&self) -> ProbeResultView {
        match self {
            ProbeResult::Agrees => ProbeResultView::Agrees,
            ProbeResult::Disagrees(o) => ProbeResultView::Disagrees(o@),
            ProbeResult::Unavailable => ProbeResultView::Unavailable,
        }
    }
}

/// The agreement judgement for one probe outcome.
pub open spec fn probe_agreement_spec(p: IntentPayloadView, o: ProbeOutcomeView) -> ProbeResultView {
    if o == expected_probe(p) {
        ProbeResultView::Agrees
    } else {
        ProbeResultView::Disagrees(o)
    }
}

impl ProbeOutcome {
    /// A copy with the same view.
    pub fn duplicate(&self) -> (r: Self)
        ensures
            r@ == self@,
    {
        match self {
            ProbeOutcome::Success => ProbeOutcome::Success,
            ProbeOutcome::Failure => ProbeOutcome::Failure,
            ProbeOutcome::MissingField(f) => ProbeOutcome::MissingField(f.clone()),
        }
    }
}

fn probe_outcome_eq(a: &ProbeOutcome, b: &ProbeOutcome) -> (r: bool)
    ensures
        r == (a@ == b@),
{
    match (a, b) {
        (ProbeOutcome::Success, ProbeOutcome::Success) => true,
        (ProbeOutcome::Failure, ProbeOutcome::Failure) => true,
        (ProbeOutcome::MissingField(x), ProbeOutcome::MissingField(y)) => {
            crate::model::str_eq(x.as_str(), y.as_str())
        }
        _ => false,
    }
}

/// Judges a backend's probe outcome against the native strategy.
pub fn probe_agreement(payload: &IntentPayload, outcome: &ProbeOutcome) -> (r: ProbeResult)
    ensures
        r@ == probe_agreement_spec(payload@, outcome@),
{
    let expected = expected_probe_outcome(payload);
    if probe_outcome_eq(outcome, &expected) {
        ProbeResult::Agrees
    } else {
        ProbeResult::Disagrees(outcome.duplicate())
    }
}

/// A routing decision together with the backend probe's verdict.
#[derive(Debug)]
pub struct EngineReport {
    pub decision: Decision,
    pub probe: ProbeResult,
}

/// Routes a payload, judging a backend's probe outcome when one is given.
/// The decision is always the native one: a missing or disagreeing backend
/// is reported, never allowed to change or fail the routing call.
pub fn decide_checked(payload: &IntentPayload, premium_weather: bool, outcome: Option<&ProbeOutcome>)
    -> (r: EngineReport)
    ensures
        r.decision@ == decide_spec(payload@, premium_weather),
        r.probe@ == match outcome {
            Some(o) => probe_agreement_spec(payload@, o@),
            None => ProbeResultView::Unavailable,
        },
{
    let probe = match outcome {
        Some(o) => probe_agreement(payload, o),
        None => ProbeResult::Unavailable,
    };
    EngineReport { decision: prolog_decide_stub(payload, premium_weather), probe }
}

} // verus!
