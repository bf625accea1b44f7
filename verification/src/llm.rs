//! Model-backed intent extraction, the verifiable parts: the request and
//! response shapes, pulling the text out of a response, extracting the
//! first JSON object from model output, and normalising the untrusted
//! payload into the strict intent model.
//!
//! The HTTP call itself lives with the host; it hands these functions
//! plain values.

use vstd::prelude::*;
use crate::actions::{brace_end, lemma_brace_end_bounds};
use crate::json::{JsonModel, JsonView, json_of, obj_lookup, parse_json};
use crate::model::{
    Constraints, Entities, IntentPayload, IntentPayloadView, IntentType, SourcePreference,
    WeatherQueryType, opt_view,
};
use crate::text::{self, find_from, lower, trim_spec};

verus! {

/// A request to the language model.
#[derive(Debug, Clone)]
pub struct LlmRequest {
    /// The full prompt text.
    pub input: String,
    /// Optional system instructions.
    pub instructions: Option<String>,
    /// Optional continuation id of an earlier response.
    pub previous_response_id: Option<String>,
    /// Whether the host should print diagnostic output.
    pub verbose: bool,
}

impl Default for LlmRequest {
    fn default() -> (r: Self)
        ensures
            r.input@ == Seq::<char>::empty(),
            r.instructions is None,
            r.previous_response_id is None,
            r.verbose == false,
    {
        LlmRequest {
            input: String::new(),
            instructions: None,
            previous_response_id: None,
            verbose: false,
        }
    }
}

/// The model's reply.
#[derive(Debug, Clone)]
pub struct LlmResponse {
    /// Continuation id, when the endpoint gives one.
    pub id: Option<String>,
    /// The text the model produced.
    pub output_text: String,
}

/// One piece of content inside a response item.
#[derive(Debug, Clone)]
pub struct ContentItem {
    pub text: Option<String>,
}

/// One output item of a response.
#[derive(Debug, Clone)]
pub struct OutputItem {
    pub content: Vec<ContentItem>,
}

/// The wire shape of a model response, as plain values.
#[derive(Debug, Clone)]
pub struct ResponsesResponse {
    pub id: Option<String>,
    pub output: Vec<OutputItem>,
    pub output_text: Option<String>,
}

/// The text chunks of a response, in order.
pub open spec fn response_chunks(r: &ResponsesResponse) -> Seq<Seq<char>> {
    chunks_of_items(r.output@)
}

pub open spec fn chunks_of_items(items: Seq<OutputItem>) -> Seq<Seq<char>>
    decreases items.len(),
{
    if items.len() == 0 {
        Seq::empty()
    } else {
        chunks_of_contents(items[0].content@) + chunks_of_items(items.drop_first())
    }
}

pub open spec fn chunks_of_contents(cs: Seq<ContentItem>) -> Seq<Seq<char>>
    decreases cs.len(),
{
    if cs.len() == 0 {
        Seq::empty()
    } else {
        (match cs[0].text {
            Some(t) => seq![t@],
            None => Seq::empty(),
        }) + chunks_of_contents(cs.drop_first())
    }
}

/// What `extract_text_from_response` yields: the content texts joined by
/// newlines, the `output_text` field as fallback, trimmed; nothing if the
/// response held no text at all.
pub open spec fn response_text(r: &ResponsesResponse) -> Option<Seq<char>> {
    let chunks = response_chunks(r);
    if chunks.len() > 0 {
        Some(trim_spec(text::join_with(chunks, "\n"@)))
    } else {
        match r.output_text {
            Some(t) => Some(trim_spec(t@)),
            None => None,
        }
    }
}

/// Pulls the text out of a model response: every content chunk in order,
/// joined by newlines, with the flat `output_text` as fallback. Fails
/// exactly when the response holds no text, with the failure as text.
pub fn extract_text_from_response(resp: &ResponsesResponse) -> (r: Result<String, String>)
    ensures
        match r {
            Ok(t) => response_text(resp) == Some(t@),
            Err(_) => response_text(resp) is None,
        },
{
    let mut chunks: Vec<Vec<char>> = Vec::new();
    let mut i: usize = 0;
    proof {
        assert(chunks.deep_view() =~~= chunks_of_items(resp.output@.take(0)));
    }
    while i < resp.output.len()
        invariant
            i <= resp.output@.len(),
            chunks.deep_view() == chunks_of_items(resp.output@.take(i as int)),
        decreases resp.output@.len() - i,
    {
        let item = &resp.output[i];
        let mut j: usize = 0;
        proof {
            assert(chunks.deep_view() + chunks_of_contents(item.content@.take(0))
                =~= chunks.deep_view());
        }
        let ghost base = chunks.deep_view();
        while j < item.content.len()
            invariant
                j <= item.content@.len(),
                chunks.deep_view() == base + chunks_of_contents(item.content@.take(j as int)),
                item == &resp.output[i as int],
                i < resp.output@.len(),
            decreases item.content@.len() - j,
        {
            proof {
                assert(item.content@.take(j + 1 as int)
                    =~= item.content@.take(j as int).push(item.content@[j as int]));
                lemma_chunks_of_contents_push(
                    item.content@.take(j as int),
                    item.content@[j as int],
                );
            }
            match &item.content[j].text {
                Some(t) => {
                    let ghost pd = chunks.deep_view();
                    chunks.push(text::str_to_chars(t.as_str()));
                    proof {
                        assert(chunks.deep_view() =~~= pd.push(t@));
                    }
                }
                None => {}
            }
            j += 1;
        }
        proof {
            assert(item.content@.take(item.content@.len() as int) =~= item.content@);
            assert(resp.output@.take(i + 1 as int)
                =~= resp.output@.take(i as int).push(resp.output@[i as int]));
            lemma_chunks_of_items_push(resp.output@.take(i as int), resp.output@[i as int]);
        }
        i += 1;
    }
    proof {
        assert(resp.output@.take(resp.output@.len() as int) =~= resp.output@);
    }
    if chunks.len() > 0 {
        let sep = text::str_to_chars("\n");
        let joined = text::join_vecs(&chunks, &sep);
        let trimmed = text::trim_vec(&joined);
        return Ok(text::chars_to_string(&trimmed));
    }
    match &resp.output_text {
        Some(t) => {
            let raw = text::str_to_chars(t.as_str());
            let trimmed = text::trim_vec(&raw);
            Ok(text::chars_to_string(&trimmed))
        }
        None => Err("No text found in LLM response".to_owned()),
    }
}

proof fn lemma_chunks_of_contents_push(cs: Seq<ContentItem>, x: ContentItem)
    ensures
        chunks_of_contents(cs.push(x)) == chunks_of_contents(cs) + (match x.text {
            Some(t) => seq![t@],
            None => Seq::<Seq<char>>::empty(),
        }),
    decreases cs.len(),
{
    if cs.len() == 0 {
        reveal_with_fuel(chunks_of_contents, 2);
        assert(cs.push(x)[0] == x);
        assert(cs.push(x).drop_first() =~= Seq::<ContentItem>::empty());
        assert(chunks_of_contents(cs.push(x)) =~= chunks_of_contents(cs) + (match x.text {
            Some(t) => seq![t@],
            None => Seq::<Seq<char>>::empty(),
        }));
    } else {
        assert(cs.push(x).drop_first() =~= cs.drop_first().push(x));
        lemma_chunks_of_contents_push(cs.drop_first(), x);
        assert(chunks_of_contents(cs.push(x)) =~= chunks_of_contents(cs) + (match x.text {
            Some(t) => seq![t@],
            None => Seq::<Seq<char>>::empty(),
        }));
    }
}

proof fn lemma_chunks_of_items_push(items: Seq<OutputItem>, x: OutputItem)
    ensures
        chunks_of_items(items.push(x)) == chunks_of_items(items) + chunks_of_contents(x.content@),
    decreases items.len(),
{
    if items.len() == 0 {
        reveal_with_fuel(chunks_of_items, 2);
        assert(items.push(x)[0] == x);
        assert(items.push(x).drop_first() =~= Seq::<OutputItem>::empty());
        assert(chunks_of_items(items.push(x))
            =~= chunks_of_items(items) + chunks_of_contents(x.content@));
    } else {
        assert(items.push(x).drop_first() =~= items.drop_first().push(x));
        lemma_chunks_of_items_push(items.drop_first(), x);
        assert(chunks_of_items(items.push(x))
            =~= chunks_of_items(items) + chunks_of_contents(x.content@));
    }
}

/// The untrusted intent shape a model reply carries, before
/// normalisation.
#[derive(Debug, Clone)]
pub struct RawEntities {
    pub topic: Option<String>,
    pub query: Option<String>,
    pub location: Option<String>,
    pub date: Option<String>,
    pub date_end: Option<String>,
    pub recipient: Option<String>,
    pub priority: Option<String>,
    pub weather_query: Option<String>,
}

#[derive(Debug, Clone)]
pub struct RawConstraints {
    pub source_preference: Option<String>,
    pub safety: Option<String>,
}

#[derive(Debug, Clone)]
pub struct RawIntentPayload {
    pub intent: Option<String>,
    pub entities: Option<RawEntities>,
    pub constraints: Option<RawConstraints>,
}

/// An optional string field of a JSON object: absent and null both mean
/// nothing; a value of any other type makes the whole shape invalid.
pub open spec fn opt_str_field(j: JsonView, key: Seq<char>) -> Result<Option<Seq<char>>, ()> {
    match obj_lookup(j, key) {
        None => Ok(None),
        Some(JsonView::Null) => Ok(None),
        Some(JsonView::Str(s)) => Ok(Some(s)),
        Some(_) => Err(()),
    }
}

fn get_opt_str(j: &JsonModel, key: &str) -> (r: Result<Option<String>, ()>)
    ensures
        match r {
            Ok(o) => opt_str_field(j@, key@) == Ok::<Option<Seq<char>>, ()>(opt_view(o)),
            Err(_) => opt_str_field(j@, key@) is Err,
        },
{
    match j.get(key) {
        None => Ok(None),
        Some(v) => match v {
            JsonModel::Null => Ok(None),
            JsonModel::Str(s) => Ok(Some(s.clone())),
            _ => Err(()),
        },
    }
}

/// The view of the raw entities, field by field.
pub struct RawEntitiesView {
    pub topic: Option<Seq<char>>,
    pub query: Option<Seq<char>>,
    pub location: Option<Seq<char>>,
    pub date: Option<Seq<char>>,
    pub date_end: Option<Seq<char>>,
    pub recipient: Option<Seq<char>>,
    pub priority: Option<Seq<char>>,
    pub weather_query: Option<Seq<char>>,
}

impl View for RawEntities {
    type V = RawEntitiesView;

    open spec fn view(&self) -> RawEntitiesView {
        RawEntitiesView {
            topic: opt_view(self.topic),
            query: opt_view(self.query),
            location: opt_view(self.location),
            date: opt_view(self.date),
            date_end: opt_view(self.date_end),
            recipient: opt_view(self.recipient),
            priority: opt_view(self.priority),
            weather_query: opt_view(self.weather_query),
        }
    }
}

pub struct RawConstraintsView {
    pub source_preference: Option<Seq<char>>,
    pub safety: Option<Seq<char>>,
}

impl View for RawConstraints {
    type V = RawConstraintsView;

    open spec fn view(&self) -> RawConstraintsView {
        RawConstraintsView {
            source_preference: opt_view(self.source_preference),
            safety: opt_view(self.safety),
        }
    }
}

pub struct RawIntentPayloadView {
    pub intent: Option<Seq<char>>,
    pub entities: Option<RawEntitiesView>,
    pub constraints: Option<RawConstraintsView>,
}

impl View for RawIntentPayload {
    type V = RawIntentPayloadView;

    open spec fn view(&self) -> RawIntentPayloadView {
        RawIntentPayloadView {
            intent: opt_view(self.intent),
            entities: match &self.entities {
                Some(e) => Some(e@),
                None => None,
            },
            constraints: match &self.constraints {
                Some(c) => Some(c@),
                None => None,
            },
        }
    }
}

/// The raw-entities shape over a JSON view.
pub open spec fn raw_entities_from_json(j: JsonView) -> Result<RawEntitiesView, ()> {
    if !(j is Obj) {
        Err(())
    } else {
        match (
            opt_str_field(j, "topic"@),
            opt_str_field(j, "query"@),
            opt_str_field(j, "location"@),
            opt_str_field(j, "date"@),
            opt_str_field(j, "date_end"@),
            opt_str_field(j, "recipient"@),
            opt_str_field(j, "priority"@),
            opt_str_field(j, "weather_query"@),
        ) {
            (
                Ok(topic),
                Ok(query),
                Ok(location),
                Ok(date),
                Ok(date_end),
                Ok(recipient),
                Ok(priority),
                Ok(weather_query),
            ) => Ok(
                RawEntitiesView {
                    topic,
                    query,
                    location,
                    date,
                    date_end,
                    recipient,
                    priority,
                    weather_query,
                },
            ),
            _ => Err(()),
        }
    }
}

fn raw_entities_from_model(j: &JsonModel) -> (r: Result<RawEntities, ()>)
    ensures
        match r {
            Ok(e) => raw_entities_from_json(j@) == Ok::<RawEntitiesView, ()>(e@),
            Err(_) => raw_entities_from_json(j@) is Err,
        },
{
    let is_obj = match j {
        JsonModel::Obj(_) => true,
        _ => false,
    };
    if !is_obj {
        return Err(());
    }
    let topic = match get_opt_str(j, "topic") {
        Ok(v) => v,
        Err(_) => {
            return Err(());
        }
    };
    let query = match get_opt_str(j, "query") {
        Ok(v) => v,
        Err(_) => {
            return Err(());
        }
    };
    let location = match get_opt_str(j, "location") {
        Ok(v) => v,
        Err(_) => {
            return Err(());
        }
    };
    let date = match get_opt_str(j, "date") {
        Ok(v) => v,
        Err(_) => {
            return Err(());
        }
    };
    let date_end = match get_opt_str(j, "date_end") {
        Ok(v) => v,
        Err(_) => {
            return Err(());
        }
    };
    let recipient = match get_opt_str(j, "recipient") {
        Ok(v) => v,
        Err(_) => {
            return Err(());
        }
    };
    let priority = match get_opt_str(j, "priority") {
        Ok(v) => v,
        Err(_) => {
            return Err(());
        }
    };
    let weather_query = match get_opt_str(j, "weather_query") {
        Ok(v) => v,
        Err(_) => {
            return Err(());
        }
    };
    Ok(RawEntities { topic, query, location, date, date_end, recipient, priority, weather_query })
}

/// The raw-constraints shape over a JSON view.
pub open spec fn raw_constraints_from_json(j: JsonView) -> Result<RawConstraintsView, ()> {
    if !(j is Obj) {
        Err(())
    } else {
        match (opt_str_field(j, "source_preference"@), opt_str_field(j, "safety"@)) {
            (Ok(source_preference), Ok(safety)) => Ok(
                RawConstraintsView { source_preference, safety },
            ),
            _ => Err(()),
        }
    }
}

/// The whole raw-intent shape over a JSON view.
pub open spec fn raw_intent_from_json(j: JsonView) -> Result<RawIntentPayloadView, ()> {
    if !(j is Obj) {
        Err(())
    } else {
        match opt_str_field(j, "intent"@) {
            Err(_) => Err(()),
            Ok(intent) => {
                let ents = match obj_lookup(j, "entities"@) {
                    None => Ok(None),
                    Some(JsonView::Null) => Ok(None),
                    Some(e) => match raw_entities_from_json(e) {
                        Ok(ev) => Ok(Some(ev)),
                        Err(_) => Err(()),
                    },
                };
                let cons = match obj_lookup(j, "constraints"@) {
                    None => Ok(None),
                    Some(JsonView::Null) => Ok(None),
                    Some(c) => match raw_constraints_from_json(c) {
                        Ok(cv) => Ok(Some(cv)),
                        Err(_) => Err(()),
                    },
                };
                match (ents, cons) {
                    (Ok(entities), Ok(constraints)) => Ok(
                        RawIntentPayloadView { intent, entities, constraints },
                    ),
                    _ => Err(()),
                }
            }
        }
    }
}

/// Reads the raw-intent shape off a parsed JSON document.
pub fn raw_intent_from_model(j: &JsonModel) -> (r: Result<RawIntentPayload, ()>)
    ensures
        match r {
            Ok(p) => raw_intent_from_json(j@) == Ok::<RawIntentPayloadView, ()>(p@),
            Err(_) => raw_intent_from_json(j@) is Err,
        },
{
    let is_obj = match j {
        JsonModel::Obj(_) => true,
        _ => false,
    };
    if !is_obj {
        return Err(());
    }
    let intent = match get_opt_str(j, "intent") {
        Ok(v) => v,
        Err(_) => {
            return Err(());
        }
    };
    let entities: Option<RawEntities> = match j.get("entities") {
        None => None,
        Some(e) => match e {
            JsonModel::Null => None,
            _ => match raw_entities_from_model(e) {
                Ok(ev) => Some(ev),
                Err(_) => {
                    return Err(());
                }
            },
        },
    };
    let constraints: Option<RawConstraints> = match j.get("constraints") {
        None => None,
        Some(c) => {
            let is_null = match c {
                JsonModel::Null => true,
                _ => false,
            };
            if is_null {
                None
            } else {
                let is_c_obj = match c {
                    JsonModel::Obj(_) => true,
                    _ => false,
                };
                if !is_c_obj {
                    return Err(());
                }
                let source_preference = match get_opt_str(c, "source_preference") {
                    Ok(v) => v,
                    Err(_) => {
                        return Err(());
                    }
                };
                let safety = match get_opt_str(c, "safety") {
                    Ok(v) => v,
                    Err(_) => {
                        return Err(());
                    }
                };
                Some(RawConstraints { source_preference, safety })
            }
        }
    };
    Ok(RawIntentPayload { intent, entities, constraints })
}

/// What extracting the first JSON object from model text yields: the
/// whole trimmed text if it opens with a brace and parses, else the first
/// brace-balanced block, which must parse as the raw intent shape.
pub open spec fn first_json_payload(s0: Seq<char>) -> Result<RawIntentPayloadView, ()> {
    let s = trim_spec(s0);
    if s.len() >= 1 && s[0] == '{' && (json_of(s) matches Some(j) && raw_intent_from_json(j) is Ok)
    {
        raw_intent_from_json(json_of(s)->Some_0)
    } else {
        match find_from(s, seq!['{'], 0) {
            None => Err(()),
            Some(start) => match brace_end(s, start, 0, false, false) {
                None => Err(()),
                Some(endp) => match json_of(s.subrange(start, endp)) {
                    None => Err(()),
                    Some(j) => raw_intent_from_json(j),
                },
            },
        }
    }
}

/// Extracts the first JSON object from model output and reads the raw
/// intent shape off it. Fails when there is no balanced object or it does
/// not fit the shape, with the failure as text.
pub fn parse_json_from_text(model_text: &str) -> (r: Result<RawIntentPayload, String>)
    ensures
        match r {
            Ok(p) => first_json_payload(model_text@) == Ok::<RawIntentPayloadView, ()>(p@),
            Err(_) => first_json_payload(model_text@) is Err,
        },
{
    let raw = text::str_to_chars(model_text);
    let s = text::trim_vec(&raw);
    if s.len() >= 1 && s[0] == '{' {
        let whole = text::chars_to_string(&s);
        match parse_json(whole.as_str()) {
            Some(j) => match raw_intent_from_model(&j) {
                Ok(p) => {
                    return Ok(p);
                }
                Err(_) => {}
            },
            None => {}
        }
    }
    let mut brace: Vec<char> = Vec::new();
    brace.push('{');
    proof {
        assert(brace@ =~= seq!['{']);
    }
    match text::find_vec(&s, &brace, 0) {
        None => Err("No '{' found in LLM output".to_owned()),
        Some(start) => {
            proof {
                text::lemma_find_from_bounds(s@, brace@, 0);
                assert(s@.subrange(start as int, start + 1 as int)[0] == s@[start as int]);
            }
            match crate::actions::brace_match_end(&s, start) {
                None => Err("No matching '}' found in LLM output".to_owned()),
                Some(endp) => {
                    proof {
                        lemma_brace_end_bounds(s@, start as int, 0, false, false);
                    }
                    let cand = text::subvec(&s, start, endp);
                    let cs = text::chars_to_string(&cand);
                    match parse_json(cs.as_str()) {
                        None => Err("Failed to parse JSON from LLM output".to_owned()),
                        Some(j) => match raw_intent_from_model(&j) {
                            Ok(p) => Ok(p),
                            Err(_) => Err("Failed to parse JSON from LLM output".to_owned()),
                        },
                    }
                }
            }
        }
    }
}

/// Which intent a raw token names; unrecognised and missing both mean
/// unknown.
pub open spec fn intent_token(o: Option<Seq<char>>) -> IntentType {
    match o {
        None => IntentType::Unknown,
        Some(s0) => {
            let s = lower(s0);
            if s == "summarize"@ || s == "summary"@ || s == "summarise"@ {
                IntentType::Summarize
            } else if s == "find"@ || s == "search"@ || s == "lookup"@ || s == "locate"@
                || s == "query"@ {
                IntentType::Find
            } else if s == "draft"@ || s == "email"@ || s == "compose"@ || s == "write_email"@ {
                IntentType::Draft
            } else if s == "remind"@ || s == "reminder"@ || s == "todo"@ || s == "task"@ {
                IntentType::Remind
            } else if s == "weather"@ || s == "forecast"@ {
                IntentType::Weather
            } else {
                IntentType::Unknown
            }
        }
    }
}

/// Which weather-query kind a raw token names; unrecognised means none.
pub open spec fn weather_query_token_of(o: Option<Seq<char>>) -> Option<WeatherQueryType> {
    match o {
        None => None,
        Some(s0) => {
            let s = lower(s0);
            if s == "current"@ {
                Some(WeatherQueryType::Current)
            } else if s == "forecast"@ {
                Some(WeatherQueryType::Forecast)
            } else if s == "assessment"@ {
                Some(WeatherQueryType::Assessment)
            } else {
                None
            }
        }
    }
}

/// Which source preference a raw token names; everything else is Either.
pub open spec fn source_pref_token(o: Option<Seq<char>>) -> SourcePreference {
    match o {
        Some(s) => if s == "notes"@ {
            SourcePreference::Notes
        } else if s == "files"@ {
            SourcePreference::Files
        } else {
            SourcePreference::Either
        },
        None => SourcePreference::Either,
    }
}

/// What normalising a raw payload yields: the strict payload, with every
/// untrusted token mapped into its closed enumeration and the defaults
/// filled in.
pub open spec fn normalize_spec(raw: RawIntentPayloadView) -> IntentPayloadView {
    let e = match raw.entities {
        Some(ev) => ev,
        None => RawEntitiesView {
            topic: None,
            query: None,
            location: None,
            date: None,
            date_end: None,
            recipient: None,
            priority: None,
            weather_query: None,
        },
    };
    let c = match raw.constraints {
        Some(cv) => cv,
        None => RawConstraintsView { source_preference: None, safety: None },
    };
    IntentPayloadView {
        intent: intent_token(raw.intent),
        entities: crate::model::EntitiesView {
            topic: e.topic,
            query: e.query,
            location: e.location,
            date: e.date,
            date_end: e.date_end,
            recipient: e.recipient,
            priority: e.priority,
            weather_query: weather_query_token_of(e.weather_query),
        },
        constraints: crate::model::ConstraintsView {
            source_preference: source_pref_token(c.source_preference),
            safety: match c.safety {
                Some(s) => s,
                None => "normal"@,
            },
        },
    }
}

fn token_matches(s: &String, lit: &str) -> (r: bool)
    ensures
        r == (lower(s@) == lit@),
{
    let v = text::str_to_chars(s.as_str());
    let l = text::to_lower_vec(&v);
    text::vec_eq(&l, &text::str_to_chars(lit))
}

/// Normalises the untrusted payload into the strict intent model: intent
/// and weather-query tokens map into their closed enumerations (unknown
/// tokens become Unknown and none), missing pieces take their defaults.
pub fn normalize_intent_payload(raw: RawIntentPayload) -> (r: IntentPayload)
    ensures
        r@ == normalize_spec(raw@),
{
    let intent: IntentType = match &raw.intent {
        None => IntentType::Unknown,
        Some(s) => {
            if token_matches(s, "summarize") || token_matches(s, "summary") || token_matches(
                s,
                "summarise",
            ) {
                IntentType::Summarize
            } else if token_matches(s, "find") || token_matches(s, "search") || token_matches(
                s,
                "lookup",
            ) || token_matches(s, "locate") || token_matches(s, "query") {
                IntentType::Find
            } else if token_matches(s, "draft") || token_matches(s, "email") || token_matches(
                s,
                "compose",
            ) || token_matches(s, "write_email") {
                IntentType::Draft
            } else if token_matches(s, "remind") || token_matches(s, "reminder") || token_matches(
                s,
                "todo",
            ) || token_matches(s, "task") {
                IntentType::Remind
            } else if token_matches(s, "weather") || token_matches(s, "forecast") {
                IntentType::Weather
            } else {
                IntentType::Unknown
            }
        }
    };
    let e: RawEntities = match raw.entities {
        Some(ev) => ev,
        None => RawEntities {
            topic: None,
            query: None,
            location: None,
            date: None,
            date_end: None,
            recipient: None,
            priority: None,
            weather_query: None,
        },
    };
    let weather_query: Option<WeatherQueryType> = match &e.weather_query {
        None => None,
        Some(s) => {
            if token_matches(s, "current") {
                Some(WeatherQueryType::Current)
            } else if token_matches(s, "forecast") {
                Some(WeatherQueryType::Forecast)
            } else if token_matches(s, "assessment") {
                Some(WeatherQueryType::Assessment)
            } else {
                None
            }
        }
    };
    let c: RawConstraints = match raw.constraints {
        Some(cv) => cv,
        None => RawConstraints { source_preference: None, safety: None },
    };
    let source_preference: SourcePreference = match &c.source_preference {
        Some(s) => {
            if crate::model::str_eq(s.as_str(), "notes") {
                SourcePreference::Notes
            } else if crate::model::str_eq(s.as_str(), "files") {
                SourcePreference::Files
            } else {
                SourcePreference::Either
            }
        }
        None => SourcePreference::Either,
    };
    let safety: String = match c.safety {
        Some(s) => s,
        None => "normal".to_owned(),
    };
    IntentPayload {
        intent,
        entities: Entities {
            topic: e.topic,
            query: e.query,
            location: e.location,
            date: e.date,
            date_end: e.date_end,
            recipient: e.recipient,
            priority: e.priority,
            weather_query,
        },
        constraints: Constraints { source_preference, safety },
    }
}

} // verus!
