//! The JSON wire shape of an intent payload: `intent` as its lowercase
//! token, nested `entities` and `constraints` objects with unset fields
//! omitted. The writer and the reader are both verified, and reading back
//! what was written provably restores the payload.

use vstd::prelude::*;
use crate::json::{JsonModel, JsonView, obj_lookup, obj_lookup_fields, views_of_fields,
    lemma_views_of_fields_index};
use crate::model::{
    Constraints, Entities, EntitiesView, IntentPayload, IntentPayloadView, IntentType,
    SourcePreference, WeatherQueryType, intent_atom, opt_view, source_pref_atom,
    weather_query_atom, weather_query_token,
};

verus! {

/// The wire keys are pairwise distinct: each pair differs in its first
/// characters or its length.
proof fn lemma_wire_keys_distinct()
    ensures
        "topic"@ != "query"@,
        "topic"@ != "location"@,
        "topic"@ != "date"@,
        "topic"@ != "date_end"@,
        "topic"@ != "recipient"@,
        "topic"@ != "priority"@,
        "topic"@ != "weather_query"@,
        "query"@ != "location"@,
        "query"@ != "date"@,
        "query"@ != "date_end"@,
        "query"@ != "recipient"@,
        "query"@ != "priority"@,
        "query"@ != "weather_query"@,
        "location"@ != "date"@,
        "location"@ != "date_end"@,
        "location"@ != "recipient"@,
        "location"@ != "priority"@,
        "location"@ != "weather_query"@,
        "date"@ != "date_end"@,
        "date"@ != "recipient"@,
        "date"@ != "priority"@,
        "date"@ != "weather_query"@,
        "date_end"@ != "recipient"@,
        "date_end"@ != "priority"@,
        "date_end"@ != "weather_query"@,
        "recipient"@ != "priority"@,
        "recipient"@ != "weather_query"@,
        "priority"@ != "weather_query"@,
        "intent"@ != "entities"@,
        "intent"@ != "constraints"@,
        "entities"@ != "constraints"@,
        "source_preference"@ != "safety"@,
{
    reveal_strlit("topic");
    reveal_strlit("query");
    reveal_strlit("location");
    reveal_strlit("date");
    reveal_strlit("date_end");
    reveal_strlit("recipient");
    reveal_strlit("priority");
    reveal_strlit("weather_query");
    reveal_strlit("intent");
    reveal_strlit("entities");
    reveal_strlit("constraints");
    reveal_strlit("source_preference");
    reveal_strlit("safety");
    assert("topic"@[0] == 't');
    assert("query"@[0] == 'q');
    assert("location"@[0] == 'l');
    assert("date"@[0] == 'd');
    assert("date_end"@[0] == 'd');
    assert("date"@.len() == 4 && "date_end"@.len() == 8);
    assert("recipient"@[0] == 'r');
    assert("priority"@[0] == 'p');
    assert("weather_query"@[0] == 'w');
    assert("intent"@[0] == 'i');
    assert("entities"@[0] == 'e');
    assert("constraints"@[0] == 'c');
    assert("source_preference"@.len() == 17 && "safety"@.len() == 6);
}

/// One optional string field of the wire object.
pub open spec fn opt_wire_field(key: Seq<char>, o: Option<Seq<char>>)
    -> Seq<(Seq<char>, JsonView)> {
    match o {
        Some(v) => seq![(key, JsonView::Str(v))],
        None => Seq::empty(),
    }
}

/// The wire object of the entities: exactly the fields that are set, in
/// declaration order.
pub open spec fn entities_wire(e: EntitiesView) -> JsonView {
    JsonView::Obj(
        opt_wire_field("topic"@, e.topic) + (opt_wire_field("query"@, e.query)
            + (opt_wire_field("location"@, e.location) + (opt_wire_field("date"@, e.date)
            + (opt_wire_field("date_end"@, e.date_end) + (opt_wire_field(
            "recipient"@,
            e.recipient,
        ) + (opt_wire_field("priority"@, e.priority) + (match e.weather_query {
            Some(w) => seq![("weather_query"@, JsonView::Str(weather_query_atom(w)))],
            None => Seq::empty(),
        }))))))),
    )
}

/// The whole wire object of a payload.
pub open spec fn payload_wire(p: IntentPayloadView) -> JsonView {
    JsonView::Obj(
        seq![
            ("intent"@, JsonView::Str(intent_atom(p.intent))),
            ("entities"@, entities_wire(p.entities)),
            (
                "constraints"@,
                JsonView::Obj(
                    seq![
                        (
                            "source_preference"@,
                            JsonView::Str(source_pref_atom(p.constraints.source_preference)),
                        ),
                        ("safety"@, JsonView::Str(p.constraints.safety)),
                    ],
                ),
            ),
        ],
    )
}

fn push_opt_wire(fields: &mut Vec<(String, JsonModel)>, key: &str, o: &Option<String>)
    ensures
        views_of_fields(final(fields)@) == views_of_fields(old(fields)@)
            + opt_wire_field(key@, crate::model::opt_view(*o)),
{
    proof {
        lemma_views_of_fields_index(fields@);
    }
    match o {
        Some(v) => {
            let ghost before = fields@;
            fields.push((key.to_owned(), JsonModel::Str(v.clone())));
            proof {
                lemma_views_of_fields_push(before, (key@, JsonView::Str(v@)));
                assert(views_of_fields(fields@) =~= views_of_fields(before)
                    + opt_wire_field(key@, crate::model::opt_view(*o)));
            }
        }
        None => {
            proof {
                assert(views_of_fields(fields@) + Seq::<(Seq<char>, JsonView)>::empty()
                    =~= views_of_fields(fields@));
            }
        }
    }
}

proof fn lemma_views_of_fields_push(s: Seq<(String, JsonModel)>, x: (Seq<char>, JsonView))
    ensures
        forall|y: (String, JsonModel)| (y.0@, y.1@) == x
            ==> views_of_fields(#[trigger] s.push(y)) == views_of_fields(s).push(x),
    decreases s,
{
    assert forall|y: (String, JsonModel)| (y.0@, y.1@) == x implies views_of_fields(
        #[trigger] s.push(y),
    ) == views_of_fields(s).push(x) by {
        lemma_views_of_fields_index(s.push(y));
        lemma_views_of_fields_index(s);
        assert(views_of_fields(s.push(y)) =~= views_of_fields(s).push(x));
    }
}

/// Builds the wire object of the entities.
#[verifier::rlimit(100)]
fn entities_json_model(e: &Entities) -> (r: JsonModel)
    ensures
        r@ == entities_wire(e@),
{
    let mut ent: Vec<(String, JsonModel)> = Vec::new();
    proof {
        assert(views_of_fields(ent@) =~= Seq::<(Seq<char>, JsonView)>::empty());
    }
    push_opt_wire(&mut ent, "topic", &e.topic);
    push_opt_wire(&mut ent, "query", &e.query);
    push_opt_wire(&mut ent, "location", &e.location);
    push_opt_wire(&mut ent, "date", &e.date);
    push_opt_wire(&mut ent, "date_end", &e.date_end);
    push_opt_wire(&mut ent, "recipient", &e.recipient);
    push_opt_wire(&mut ent, "priority", &e.priority);
    if let Some(w) = &e.weather_query {
        let ghost before = ent@;
        ent.push(("weather_query".to_owned(), JsonModel::Str(weather_query_token(w).to_owned())));
        proof {
            lemma_views_of_fields_index(before);
            lemma_views_of_fields_index(ent@);
            assert(views_of_fields(ent@) =~= views_of_fields(before).push(
                ("weather_query"@, JsonView::Str(weather_query_atom(*w))),
            ));
        }
    } else {
        proof {
            assert(views_of_fields(ent@) + Seq::<(Seq<char>, JsonView)>::empty()
                =~= views_of_fields(ent@));
        }
    }
    let r = JsonModel::Obj(ent);
    proof {
        assert(views_of_fields(r.arrow_Obj_0()@) =~= entities_wire(e@).arrow_Obj_0());
        assert(r@ == entities_wire(e@));
    }
    r
}

/// Builds the wire object of a payload.
pub fn payload_json_model(p: &IntentPayload) -> (r: JsonModel)
    ensures
        r@ == payload_wire(p@),
{
    let entities = entities_json_model(&p.entities);
    let sp: &str = match p.constraints.source_preference {
        SourcePreference::Notes => "notes",
        SourcePreference::Files => "files",
        SourcePreference::Either => "either",
    };
    let mut cons: Vec<(String, JsonModel)> = Vec::new();
    cons.push(("source_preference".to_owned(), JsonModel::Str(sp.to_owned())));
    cons.push(("safety".to_owned(), JsonModel::Str(p.constraints.safety.clone())));
    let constraints = JsonModel::Obj(cons);
    proof {
        assert(constraints@ matches JsonView::Obj(fs) && fs =~= seq![
            (
                "source_preference"@,
                JsonView::Str(source_pref_atom(p@.constraints.source_preference)),
            ),
            ("safety"@, JsonView::Str(p@.constraints.safety)),
        ]) by {
            lemma_views_of_fields_index(constraints.arrow_Obj_0()@);
        };
    }
    let mut top: Vec<(String, JsonModel)> = Vec::new();
    top.push(("intent".to_owned(), JsonModel::Str(p.intent.as_atom().to_owned())));
    top.push(("entities".to_owned(), entities));
    top.push(("constraints".to_owned(), constraints));
    let r = JsonModel::Obj(top);
    proof {
        lemma_views_of_fields_index(r.arrow_Obj_0()@);
        assert(r@ matches JsonView::Obj(fs) && fs =~= payload_wire(p@).arrow_Obj_0());
    }
    r
}

/// Serialises a payload to its compact JSON text.
pub fn payload_to_json(p: &IntentPayload) -> (r: String)
    ensures
        r@ == crate::json::json_text(payload_wire(p@)),
{
    let model = payload_json_model(p);
    model.to_text()
}

/// The intent named by a wire token, if it is one of the closed tokens.
pub open spec fn intent_of_token(s: Seq<char>) -> Option<IntentType> {
    if s == "summarize"@ { Some(IntentType::Summarize) }
    else if s == "find"@ { Some(IntentType::Find) }
    else if s == "draft"@ { Some(IntentType::Draft) }
    else if s == "remind"@ { Some(IntentType::Remind) }
    else if s == "weather"@ { Some(IntentType::Weather) }
    else if s == "unknown"@ { Some(IntentType::Unknown) }
    else { None }
}

pub open spec fn weather_of_token(s: Seq<char>) -> Option<WeatherQueryType> {
    if s == "current"@ { Some(WeatherQueryType::Current) }
    else if s == "forecast"@ { Some(WeatherQueryType::Forecast) }
    else if s == "assessment"@ { Some(WeatherQueryType::Assessment) }
    else { None }
}

pub open spec fn source_of_token(s: Seq<char>) -> Option<SourcePreference> {
    if s == "notes"@ { Some(SourcePreference::Notes) }
    else if s == "files"@ { Some(SourcePreference::Files) }
    else if s == "either"@ { Some(SourcePreference::Either) }
    else { None }
}

/// An optional string field of a wire object: absent means nothing, a
/// string is its text, anything else fails the read.
pub open spec fn read_opt_str(j: JsonView, key: Seq<char>) -> Result<Option<Seq<char>>, ()> {
    match obj_lookup(j, key) {
        None => Ok(None),
        Some(JsonView::Str(s)) => Ok(Some(s)),
        Some(_) => Err(()),
    }
}

/// What reading a wire object back yields: the strict payload, when every
/// token is one of its closed enumeration and the shapes fit.
pub open spec fn payload_of_wire(j: JsonView) -> Result<IntentPayloadView, ()> {
    match (obj_lookup(j, "intent"@), obj_lookup(j, "entities"@), obj_lookup(j, "constraints"@)) {
        (Some(JsonView::Str(it)), Some(ej), Some(cj)) => {
            match (intent_of_token(it), entities_of_wire(ej), constraints_of_wire(cj)) {
                (Some(intent), Ok(entities), Ok(constraints)) => Ok(
                    IntentPayloadView { intent, entities, constraints },
                ),
                _ => Err(()),
            }
        }
        _ => Err(()),
    }
}

pub open spec fn entities_of_wire(j: JsonView) -> Result<EntitiesView, ()> {
    if !(j is Obj) {
        Err(())
    } else {
        match (
            read_opt_str(j, "topic"@),
            read_opt_str(j, "query"@),
            read_opt_str(j, "location"@),
            read_opt_str(j, "date"@),
            read_opt_str(j, "date_end"@),
            read_opt_str(j, "recipient"@),
            read_opt_str(j, "priority"@),
            read_opt_str(j, "weather_query"@),
        ) {
            (
                Ok(topic),
                Ok(query),
                Ok(location),
                Ok(date),
                Ok(date_end),
                Ok(recipient),
                Ok(priority),
                Ok(wq),
            ) => {
                match wq {
                    None => Ok(
                        EntitiesView {
                            topic,
                            query,
                            location,
                            date,
                            date_end,
                            recipient,
                            priority,
                            weather_query: None,
                        },
                    ),
                    Some(tok) => match weather_of_token(tok) {
                        Some(w) => Ok(
                            EntitiesView {
                                topic,
                                query,
                                location,
                                date,
                                date_end,
                                recipient,
                                priority,
                                weather_query: Some(w),
                            },
                        ),
                        None => Err(()),
                    },
                }
            }
            _ => Err(()),
        }
    }
}

pub open spec fn constraints_of_wire(j: JsonView) -> Result<crate::model::ConstraintsView, ()> {
    match (read_opt_str(j, "source_preference"@), read_opt_str(j, "safety"@)) {
        (Ok(Some(sp)), Ok(Some(sf))) => match source_of_token(sp) {
            Some(source_preference) => Ok(
                crate::model::ConstraintsView { source_preference, safety: sf },
            ),
            None => Err(()),
        },
        _ => Err(()),
    }
}

/// Looking a key up past one optional wire field with another key
/// reaches the rest.
proof fn lemma_skip_opt(
    key: Seq<char>,
    o: Option<Seq<char>>,
    rest: Seq<(Seq<char>, JsonView)>,
    k: Seq<char>,
)
    requires
        key != k,
    ensures
        obj_lookup_fields(opt_wire_field(key, o) + rest, k) == obj_lookup_fields(rest, k),
{
    match o {
        Some(v) => {
            assert((opt_wire_field(key, o) + rest)[0] == (key, JsonView::Str(v)));
            assert((opt_wire_field(key, o) + rest).drop_first() =~= rest);
        }
        None => {
            assert(opt_wire_field(key, o) + rest =~= rest);
        }
    }
}

/// Looking up one of the optional wire fields by its own key.
proof fn lemma_lookup_opt_head(
    key: Seq<char>,
    o: Option<Seq<char>>,
    rest: Seq<(Seq<char>, JsonView)>,
)
    ensures
        obj_lookup_fields(opt_wire_field(key, o) + rest, key) == match o {
            Some(v) => Some(JsonView::Str(v)),
            None => obj_lookup_fields(rest, key),
        },
{
    match o {
        Some(v) => {
            assert((opt_wire_field(key, o) + rest)[0] == (key, JsonView::Str(v)));
        }
        None => {
            assert(opt_wire_field(key, o) + rest =~= rest);
        }
    }
}

/// Each entity lookup gives back exactly the optional value that was
/// written: the key's own field answers, and every other field is
/// skipped, present or not.
proof fn lemma_wire_lookup_topic(e: EntitiesView)
    ensures
        read_opt_str(entities_wire(e), "topic"@) == Ok::<_, ()>(e.topic),
{
    lemma_wire_keys_distinct();
    let wq: Option<Seq<char>> = match e.weather_query {
        Some(w) => Some(weather_query_atom(w)),
        None => None,
    };
    let f1 = opt_wire_field("topic"@, e.topic);
    let f2 = opt_wire_field("query"@, e.query);
    let f3 = opt_wire_field("location"@, e.location);
    let f4 = opt_wire_field("date"@, e.date);
    let f5 = opt_wire_field("date_end"@, e.date_end);
    let f6 = opt_wire_field("recipient"@, e.recipient);
    let f7 = opt_wire_field("priority"@, e.priority);
    let f8 = opt_wire_field("weather_query"@, wq);
    let r9: Seq<(Seq<char>, JsonView)> = Seq::empty();
    let r8 = f8 + r9;
    let r7 = f7 + r8;
    let r6 = f6 + r7;
    let r5 = f5 + r6;
    let r4 = f4 + r5;
    let r3 = f3 + r4;
    let r2 = f2 + r3;
    let r1 = f1 + r2;
    assert(f8 + r9 =~= f8);
    assert(entities_wire(e).arrow_Obj_0() =~= r1);
    lemma_lookup_opt_head("topic"@, e.topic, r2);
    lemma_skip_opt("query"@, e.query, r3, "topic"@);
    lemma_skip_opt("location"@, e.location, r4, "topic"@);
    lemma_skip_opt("date"@, e.date, r5, "topic"@);
    lemma_skip_opt("date_end"@, e.date_end, r6, "topic"@);
    lemma_skip_opt("recipient"@, e.recipient, r7, "topic"@);
    lemma_skip_opt("priority"@, e.priority, r8, "topic"@);
    lemma_skip_opt("weather_query"@, wq, r9, "topic"@);
}

proof fn lemma_wire_lookup_query(e: EntitiesView)
    ensures
        read_opt_str(entities_wire(e), "query"@) == Ok::<_, ()>(e.query),
{
    lemma_wire_keys_distinct();
    let wq: Option<Seq<char>> = match e.weather_query {
        Some(w) => Some(weather_query_atom(w)),
        None => None,
    };
    let f1 = opt_wire_field("topic"@, e.topic);
    let f2 = opt_wire_field("query"@, e.query);
    let f3 = opt_wire_field("location"@, e.location);
    let f4 = opt_wire_field("date"@, e.date);
    let f5 = opt_wire_field("date_end"@, e.date_end);
    let f6 = opt_wire_field("recipient"@, e.recipient);
    let f7 = opt_wire_field("priority"@, e.priority);
    let f8 = opt_wire_field("weather_query"@, wq);
    let r9: Seq<(Seq<char>, JsonView)> = Seq::empty();
    let r8 = f8 + r9;
    let r7 = f7 + r8;
    let r6 = f6 + r7;
    let r5 = f5 + r6;
    let r4 = f4 + r5;
    let r3 = f3 + r4;
    let r2 = f2 + r3;
    let r1 = f1 + r2;
    assert(f8 + r9 =~= f8);
    assert(entities_wire(e).arrow_Obj_0() =~= r1);
    lemma_skip_opt("topic"@, e.topic, r2, "query"@);
    lemma_lookup_opt_head("query"@, e.query, r3);
    lemma_skip_opt("location"@, e.location, r4, "query"@);
    lemma_skip_opt("date"@, e.date, r5, "query"@);
    lemma_skip_opt("date_end"@, e.date_end, r6, "query"@);
    lemma_skip_opt("recipient"@, e.recipient, r7, "query"@);
    lemma_skip_opt("priority"@, e.priority, r8, "query"@);
    lemma_skip_opt("weather_query"@, wq, r9, "query"@);
}

proof fn lemma_wire_lookup_location(e: EntitiesView)
    ensures
        read_opt_str(entities_wire(e), "location"@) == Ok::<_, ()>(e.location),
{
    lemma_wire_keys_distinct();
    let wq: Option<Seq<char>> = match e.weather_query {
        Some(w) => Some(weather_query_atom(w)),
        None => None,
    };
    let f1 = opt_wire_field("topic"@, e.topic);
    let f2 = opt_wire_field("query"@, e.query);
    let f3 = opt_wire_field("location"@, e.location);
    let f4 = opt_wire_field("date"@, e.date);
    let f5 = opt_wire_field("date_end"@, e.date_end);
    let f6 = opt_wire_field("recipient"@, e.recipient);
    let f7 = opt_wire_field("priority"@, e.priority);
    let f8 = opt_wire_field("weather_query"@, wq);
    let r9: Seq<(Seq<char>, JsonView)> = Seq::empty();
    let r8 = f8 + r9;
    let r7 = f7 + r8;
    let r6 = f6 + r7;
    let r5 = f5 + r6;
    let r4 = f4 + r5;
    let r3 = f3 + r4;
    let r2 = f2 + r3;
    let r1 = f1 + r2;
    assert(f8 + r9 =~= f8);
    assert(entities_wire(e).arrow_Obj_0() =~= r1);
    lemma_skip_opt("topic"@, e.topic, r2, "location"@);
    lemma_skip_opt("query"@, e.query, r3, "location"@);
    lemma_lookup_opt_head("location"@, e.location, r4);
    lemma_skip_opt("date"@, e.date, r5, "location"@);
    lemma_skip_opt("date_end"@, e.date_end, r6, "location"@);
    lemma_skip_opt("recipient"@, e.recipient, r7, "location"@);
    lemma_skip_opt("priority"@, e.priority, r8, "location"@);
    lemma_skip_opt("weather_query"@, wq, r9, "location"@);
}

proof fn lemma_wire_lookup_date(e: EntitiesView)
    ensures
        read_opt_str(entities_wire(e), "date"@) == Ok::<_, ()>(e.date),
{
    lemma_wire_keys_distinct();
    let wq: Option<Seq<char>> = match e.weather_query {
        Some(w) => Some(weather_query_atom(w)),
        None => None,
    };
    let f1 = opt_wire_field("topic"@, e.topic);
    let f2 = opt_wire_field("query"@, e.query);
    let f3 = opt_wire_field("location"@, e.location);
    let f4 = opt_wire_field("date"@, e.date);
    let f5 = opt_wire_field("date_end"@, e.date_end);
    let f6 = opt_wire_field("recipient"@, e.recipient);
    let f7 = opt_wire_field("priority"@, e.priority);
    let f8 = opt_wire_field("weather_query"@, wq);
    let r9: Seq<(Seq<char>, JsonView)> = Seq::empty();
    let r8 = f8 + r9;
    let r7 = f7 + r8;
    let r6 = f6 + r7;
    let r5 = f5 + r6;
    let r4 = f4 + r5;
    let r3 = f3 + r4;
    let r2 = f2 + r3;
    let r1 = f1 + r2;
    assert(f8 + r9 =~= f8);
    assert(entities_wire(e).arrow_Obj_0() =~= r1);
    lemma_skip_opt("topic"@, e.topic, r2, "date"@);
    lemma_skip_opt("query"@, e.query, r3, "date"@);
    lemma_skip_opt("location"@, e.location, r4, "date"@);
    lemma_lookup_opt_head("date"@, e.date, r5);
    lemma_skip_opt("date_end"@, e.date_end, r6, "date"@);
    lemma_skip_opt("recipient"@, e.recipient, r7, "date"@);
    lemma_skip_opt("priority"@, e.priority, r8, "date"@);
    lemma_skip_opt("weather_query"@, wq, r9, "date"@);
}

proof fn lemma_wire_lookup_date_end(e: EntitiesView)
    ensures
        read_opt_str(entities_wire(e), "date_end"@) == Ok::<_, ()>(e.date_end),
{
    lemma_wire_keys_distinct();
    let wq: Option<Seq<char>> = match e.weather_query {
        Some(w) => Some(weather_query_atom(w)),
        None => None,
    };
    let f1 = opt_wire_field("topic"@, e.topic);
    let f2 = opt_wire_field("query"@, e.query);
    let f3 = opt_wire_field("location"@, e.location);
    let f4 = opt_wire_field("date"@, e.date);
    let f5 = opt_wire_field("date_end"@, e.date_end);
    let f6 = opt_wire_field("recipient"@, e.recipient);
    let f7 = opt_wire_field("priority"@, e.priority);
    let f8 = opt_wire_field("weather_query"@, wq);
    let r9: Seq<(Seq<char>, JsonView)> = Seq::empty();
    let r8 = f8 + r9;
    let r7 = f7 + r8;
    let r6 = f6 + r7;
    let r5 = f5 + r6;
    let r4 = f4 + r5;
    let r3 = f3 + r4;
    let r2 = f2 + r3;
    let r1 = f1 + r2;
    assert(f8 + r9 =~= f8);
    assert(entities_wire(e).arrow_Obj_0() =~= r1);
    lemma_skip_opt("topic"@, e.topic, r2, "date_end"@);
    lemma_skip_opt("query"@, e.query, r3, "date_end"@);
    lemma_skip_opt("location"@, e.location, r4, "date_end"@);
    lemma_skip_opt("date"@, e.date, r5, "date_end"@);
    lemma_lookup_opt_head("date_end"@, e.date_end, r6);
    lemma_skip_opt("recipient"@, e.recipient, r7, "date_end"@);
    lemma_skip_opt("priority"@, e.priority, r8, "date_end"@);
    lemma_skip_opt("weather_query"@, wq, r9, "date_end"@);
}

proof fn lemma_wire_lookup_recipient(e: EntitiesView)
    ensures
        read_opt_str(entities_wire(e), "recipient"@) == Ok::<_, ()>(e.recipient),
{
    lemma_wire_keys_distinct();
    let wq: Option<Seq<char>> = match e.weather_query {
        Some(w) => Some(weather_query_atom(w)),
        None => None,
    };
    let f1 = opt_wire_field("topic"@, e.topic);
    let f2 = opt_wire_field("query"@, e.query);
    let f3 = opt_wire_field("location"@, e.location);
    let f4 = opt_wire_field("date"@, e.date);
    let f5 = opt_wire_field("date_end"@, e.date_end);
    let f6 = opt_wire_field("recipient"@, e.recipient);
    let f7 = opt_wire_field("priority"@, e.priority);
    let f8 = opt_wire_field("weather_query"@, wq);
    let r9: Seq<(Seq<char>, JsonView)> = Seq::empty();
    let r8 = f8 + r9;
    let r7 = f7 + r8;
    let r6 = f6 + r7;
    let r5 = f5 + r6;
    let r4 = f4 + r5;
    let r3 = f3 + r4;
    let r2 = f2 + r3;
    let r1 = f1 + r2;
    assert(f8 + r9 =~= f8);
    assert(entities_wire(e).arrow_Obj_0() =~= r1);
    lemma_skip_opt("topic"@, e.topic, r2, "recipient"@);
    lemma_skip_opt("query"@, e.query, r3, "recipient"@);
    lemma_skip_opt("location"@, e.location, r4, "recipient"@);
    lemma_skip_opt("date"@, e.date, r5, "recipient"@);
    lemma_skip_opt("date_end"@, e.date_end, r6, "recipient"@);
    lemma_lookup_opt_head("recipient"@, e.recipient, r7);
    lemma_skip_opt("priority"@, e.priority, r8, "recipient"@);
    lemma_skip_opt("weather_query"@, wq, r9, "recipient"@);
}

proof fn lemma_wire_lookup_priority(e: EntitiesView)
    ensures
        read_opt_str(entities_wire(e), "priority"@) == Ok::<_, ()>(e.priority),
{
    lemma_wire_keys_distinct();
    let wq: Option<Seq<char>> = match e.weather_query {
        Some(w) => Some(weather_query_atom(w)),
        None => None,
    };
    let f1 = opt_wire_field("topic"@, e.topic);
    let f2 = opt_wire_field("query"@, e.query);
    let f3 = opt_wire_field("location"@, e.location);
    let f4 = opt_wire_field("date"@, e.date);
    let f5 = opt_wire_field("date_end"@, e.date_end);
    let f6 = opt_wire_field("recipient"@, e.recipient);
    let f7 = opt_wire_field("priority"@, e.priority);
    let f8 = opt_wire_field("weather_query"@, wq);
    let r9: Seq<(Seq<char>, JsonView)> = Seq::empty();
    let r8 = f8 + r9;
    let r7 = f7 + r8;
    let r6 = f6 + r7;
    let r5 = f5 + r6;
    let r4 = f4 + r5;
    let r3 = f3 + r4;
    let r2 = f2 + r3;
    let r1 = f1 + r2;
    assert(f8 + r9 =~= f8);
    assert(entities_wire(e).arrow_Obj_0() =~= r1);
    lemma_skip_opt("topic"@, e.topic, r2, "priority"@);
    lemma_skip_opt("query"@, e.query, r3, "priority"@);
    lemma_skip_opt("location"@, e.location, r4, "priority"@);
    lemma_skip_opt("date"@, e.date, r5, "priority"@);
    lemma_skip_opt("date_end"@, e.date_end, r6, "priority"@);
    lemma_skip_opt("recipient"@, e.recipient, r7, "priority"@);
    lemma_lookup_opt_head("priority"@, e.priority, r8);
    lemma_skip_opt("weather_query"@, wq, r9, "priority"@);
}

proof fn lemma_wire_lookup_weather_query(e: EntitiesView)
    ensures
        read_opt_str(entities_wire(e), "weather_query"@) == Ok::<_, ()>(
            match e.weather_query {
                Some(w) => Some(weather_query_atom(w)),
                None => None,
            },
        ),
{
    lemma_wire_keys_distinct();
    let wq: Option<Seq<char>> = match e.weather_query {
        Some(w) => Some(weather_query_atom(w)),
        None => None,
    };
    let f1 = opt_wire_field("topic"@, e.topic);
    let f2 = opt_wire_field("query"@, e.query);
    let f3 = opt_wire_field("location"@, e.location);
    let f4 = opt_wire_field("date"@, e.date);
    let f5 = opt_wire_field("date_end"@, e.date_end);
    let f6 = opt_wire_field("recipient"@, e.recipient);
    let f7 = opt_wire_field("priority"@, e.priority);
    let f8 = opt_wire_field("weather_query"@, wq);
    let r9: Seq<(Seq<char>, JsonView)> = Seq::empty();
    let r8 = f8 + r9;
    let r7 = f7 + r8;
    let r6 = f6 + r7;
    let r5 = f5 + r6;
    let r4 = f4 + r5;
    let r3 = f3 + r4;
    let r2 = f2 + r3;
    let r1 = f1 + r2;
    assert(f8 + r9 =~= f8);
    assert(entities_wire(e).arrow_Obj_0() =~= r1);
    lemma_skip_opt("topic"@, e.topic, r2, "weather_query"@);
    lemma_skip_opt("query"@, e.query, r3, "weather_query"@);
    lemma_skip_opt("location"@, e.location, r4, "weather_query"@);
    lemma_skip_opt("date"@, e.date, r5, "weather_query"@);
    lemma_skip_opt("date_end"@, e.date_end, r6, "weather_query"@);
    lemma_skip_opt("recipient"@, e.recipient, r7, "weather_query"@);
    lemma_skip_opt("priority"@, e.priority, r8, "weather_query"@);
    lemma_lookup_opt_head("weather_query"@, wq, r9);
}

/// All the entity lookups at once.
proof fn lemma_entities_wire_lookups(e: EntitiesView)
    ensures
        read_opt_str(entities_wire(e), "topic"@) == Ok::<_, ()>(e.topic),
        read_opt_str(entities_wire(e), "query"@) == Ok::<_, ()>(e.query),
        read_opt_str(entities_wire(e), "location"@) == Ok::<_, ()>(e.location),
        read_opt_str(entities_wire(e), "date"@) == Ok::<_, ()>(e.date),
        read_opt_str(entities_wire(e), "date_end"@) == Ok::<_, ()>(e.date_end),
        read_opt_str(entities_wire(e), "recipient"@) == Ok::<_, ()>(e.recipient),
        read_opt_str(entities_wire(e), "priority"@) == Ok::<_, ()>(e.priority),
        read_opt_str(entities_wire(e), "weather_query"@) == Ok::<_, ()>(
            match e.weather_query {
                Some(w) => Some(weather_query_atom(w)),
                None => None,
            },
        ),
{
    lemma_wire_lookup_topic(e);
    lemma_wire_lookup_query(e);
    lemma_wire_lookup_location(e);
    lemma_wire_lookup_date(e);
    lemma_wire_lookup_date_end(e);
    lemma_wire_lookup_recipient(e);
    lemma_wire_lookup_priority(e);
    lemma_wire_lookup_weather_query(e);
}

/// The closed tokens are pairwise distinct too.
proof fn lemma_wire_tokens_distinct()
    ensures
        intent_of_token("summarize"@) == Some(IntentType::Summarize),
        intent_of_token("find"@) == Some(IntentType::Find),
        intent_of_token("draft"@) == Some(IntentType::Draft),
        intent_of_token("remind"@) == Some(IntentType::Remind),
        intent_of_token("weather"@) == Some(IntentType::Weather),
        intent_of_token("unknown"@) == Some(IntentType::Unknown),
        weather_of_token("current"@) == Some(WeatherQueryType::Current),
        weather_of_token("forecast"@) == Some(WeatherQueryType::Forecast),
        weather_of_token("assessment"@) == Some(WeatherQueryType::Assessment),
        source_of_token("notes"@) == Some(SourcePreference::Notes),
        source_of_token("files"@) == Some(SourcePreference::Files),
        source_of_token("either"@) == Some(SourcePreference::Either),
{
    reveal_strlit("summarize");
    reveal_strlit("find");
    reveal_strlit("draft");
    reveal_strlit("remind");
    reveal_strlit("weather");
    reveal_strlit("unknown");
    reveal_strlit("current");
    reveal_strlit("forecast");
    reveal_strlit("assessment");
    reveal_strlit("notes");
    reveal_strlit("files");
    reveal_strlit("either");
    assert("summarize"@.len() == 9);
    assert("find"@.len() == 4);
    assert("draft"@.len() == 5);
    assert("remind"@.len() == 6);
    assert("weather"@.len() == 7);
    assert("unknown"@.len() == 7);
    assert("weather"@[0] == 'w');
    assert("unknown"@[0] == 'u');
    assert("current"@.len() == 7);
    assert("forecast"@.len() == 8);
    assert("assessment"@.len() == 10);
    assert("notes"@.len() == 5);
    assert("files"@.len() == 5);
    assert("either"@.len() == 6);
    assert("notes"@[0] == 'n');
    assert("files"@[0] == 'f');
}

/// Round trip of the wire shape: reading back what the writer produced
/// restores the payload exactly — the intent, every entity field, and the
/// constraints.
pub proof fn law_wire_round_trip(p: IntentPayloadView)
    ensures
        payload_of_wire(payload_wire(p)) == Ok::<_, ()>(p),
{
    lemma_wire_keys_distinct();
    lemma_wire_tokens_distinct();
    reveal_strlit("summarize");
    reveal_strlit("find");
    reveal_strlit("draft");
    reveal_strlit("remind");
    reveal_strlit("weather");
    reveal_strlit("unknown");
    reveal_strlit("current");
    reveal_strlit("forecast");
    reveal_strlit("assessment");
    reveal_strlit("notes");
    reveal_strlit("files");
    reveal_strlit("either");
    let top = payload_wire(p).arrow_Obj_0();
    let cj0: JsonView = JsonView::Obj(
        seq![
            (
                "source_preference"@,
                JsonView::Str(source_pref_atom(p.constraints.source_preference)),
            ),
            ("safety"@, JsonView::Str(p.constraints.safety)),
        ],
    );
    reveal_with_fuel(obj_lookup_fields, 4);
    assert(top[0] == ("intent"@, JsonView::Str(intent_atom(p.intent))));
    assert(top[0].0 != "entities"@);
    assert(top[0].0 != "constraints"@);
    assert(top.drop_first()[0].0 != "constraints"@);
    assert(obj_lookup(payload_wire(p), "intent"@)
        == Some(JsonView::Str(intent_atom(p.intent))));
    assert(top.drop_first() =~= seq![
        ("entities"@, entities_wire(p.entities)),
        ("constraints"@, cj0),
    ]);
    assert(top.drop_first().drop_first() =~= seq![("constraints"@, cj0)]);
    assert(obj_lookup_fields(top, "entities"@)
        == obj_lookup_fields(top.drop_first(), "entities"@));
    assert(obj_lookup(payload_wire(p), "entities"@) == Some(entities_wire(p.entities)));
    assert(obj_lookup_fields(top.drop_first(), "constraints"@)
        == obj_lookup_fields(top.drop_first().drop_first(), "constraints"@));
    assert(obj_lookup(payload_wire(p), "constraints"@) == Some(cj0));
    assert(intent_of_token(intent_atom(p.intent)) == Some(p.intent)) by {
        lemma_wire_tokens_distinct();
    };
    lemma_entities_wire_lookups(p.entities);
    match p.entities.weather_query {
        Some(w) => {
            assert(weather_of_token(weather_query_atom(w)) == Some(w)) by {
                lemma_wire_tokens_distinct();
            };
        }
        None => {}
    }
    assert(entities_of_wire(entities_wire(p.entities)) == Ok::<_, ()>(p.entities));
    let cj = cj0;
    assert(obj_lookup(cj, "source_preference"@)
        == Some(JsonView::Str(source_pref_atom(p.constraints.source_preference))));
    assert(obj_lookup(cj, "safety"@) == Some(JsonView::Str(p.constraints.safety))) by {
        let cf = cj.arrow_Obj_0();
        assert(cf.drop_first() =~= seq![("safety"@, JsonView::Str(p.constraints.safety))]);
    };
    assert(source_of_token(source_pref_atom(p.constraints.source_preference))
        == Some(p.constraints.source_preference)) by {
        lemma_wire_tokens_distinct();
    };
    assert(constraints_of_wire(cj) == Ok::<_, ()>(p.constraints));
}

/// Reads a payload back from a wire object.
pub fn payload_from_json_model(j: &JsonModel) -> (r: Option<IntentPayload>)
    ensures
        match r {
            Some(p) => payload_of_wire(j@) == Ok::<_, ()>(p@),
            None => payload_of_wire(j@) is Err,
        },
{
    let intent: IntentType = match j.get("intent") {
        Some(t) => match t.as_str() {
            Some(s) => {
                if crate::model::str_eq(s.as_str(), "summarize") { IntentType::Summarize }
                else if crate::model::str_eq(s.as_str(), "find") { IntentType::Find }
                else if crate::model::str_eq(s.as_str(), "draft") { IntentType::Draft }
                else if crate::model::str_eq(s.as_str(), "remind") { IntentType::Remind }
                else if crate::model::str_eq(s.as_str(), "weather") { IntentType::Weather }
                else if crate::model::str_eq(s.as_str(), "unknown") { IntentType::Unknown }
                else {
                    return None;
                }
            }
            None => {
                return None;
            }
        },
        None => {
            return None;
        }
    };
    let entities: Entities = match j.get("entities") {
        Some(ej) => {
            let is_obj = match ej {
                JsonModel::Obj(_) => true,
                _ => false,
            };
            if !is_obj {
                return None;
            }
            let topic = match read_field(ej, "topic") {
                Ok(v) => v,
                Err(_) => {
                    return None;
                }
            };
            let query = match read_field(ej, "query") {
                Ok(v) => v,
                Err(_) => {
                    return None;
                }
            };
            let location = match read_field(ej, "location") {
                Ok(v) => v,
                Err(_) => {
                    return None;
                }
            };
            let date = match read_field(ej, "date") {
                Ok(v) => v,
                Err(_) => {
                    return None;
                }
            };
            let date_end = match read_field(ej, "date_end") {
                Ok(v) => v,
                Err(_) => {
                    return None;
                }
            };
            let recipient = match read_field(ej, "recipient") {
                Ok(v) => v,
                Err(_) => {
                    return None;
                }
            };
            let priority = match read_field(ej, "priority") {
                Ok(v) => v,
                Err(_) => {
                    return None;
                }
            };
            let weather_query: Option<WeatherQueryType> = match read_field(ej, "weather_query") {
                Ok(None) => None,
                Ok(Some(tok)) => {
                    if crate::model::str_eq(tok.as_str(), "current") {
                        Some(WeatherQueryType::Current)
                    } else if crate::model::str_eq(tok.as_str(), "forecast") {
                        Some(WeatherQueryType::Forecast)
                    } else if crate::model::str_eq(tok.as_str(), "assessment") {
                        Some(WeatherQueryType::Assessment)
                    } else {
                        return None;
                    }
                }
                Err(_) => {
                    return None;
                }
            };
            Entities {
                topic,
                query,
                location,
                date,
                date_end,
                recipient,
                priority,
                weather_query,
            }
        }
        None => {
            return None;
        }
    };
    let constraints: Constraints = match j.get("constraints") {
        Some(cj) => {
            let sp = match read_field(cj, "source_preference") {
                Ok(Some(v)) => v,
                _ => {
                    return None;
                }
            };
            let safety = match read_field(cj, "safety") {
                Ok(Some(v)) => v,
                _ => {
                    return None;
                }
            };
            let source_preference = if crate::model::str_eq(sp.as_str(), "notes") {
                SourcePreference::Notes
            } else if crate::model::str_eq(sp.as_str(), "files") {
                SourcePreference::Files
            } else if crate::model::str_eq(sp.as_str(), "either") {
                SourcePreference::Either
            } else {
                return None;
            };
            Constraints { source_preference, safety }
        }
        None => {
            return None;
        }
    };
    Some(IntentPayload { intent, entities, constraints })
}

fn read_field(j: &JsonModel, key: &str) -> (r: Result<Option<String>, ()>)
    ensures
        match r {
            Ok(o) => read_opt_str(j@, key@) == Ok::<_, ()>(opt_view(o)),
            Err(_) => read_opt_str(j@, key@) is Err,
        },
{
    match j.get(key) {
        None => Ok(None),
        Some(v) => match v {
            JsonModel::Str(s) => Ok(Some(s.clone())),
            _ => Err(()),
        },
    }
}

} // verus!
