//! The intent model: what the extractor produces and the decision engine
//! consumes, together with the routing decision itself.

use vstd::prelude::*;

verus! {

/// The user's high-level goal category.
#[derive(Debug, Clone, PartialEq, Eq, Structural)]
pub enum IntentType {
    Summarize,
    Find,
    Draft,
    Remind,
    Weather,
    Unknown,
}

/// The lowercase token form of an intent.
pub open spec fn intent_atom(i: IntentType) -> Seq<char> {
    match i {
        IntentType::Summarize => "summarize"@,
        IntentType::Find => "find"@,
        IntentType::Draft => "draft"@,
        IntentType::Remind => "remind"@,
        IntentType::Weather => "weather"@,
        IntentType::Unknown => "unknown"@,
    }
}

impl IntentType {
    /// The lowercase token form of this intent.
    pub fn as_atom(&self) -> (r: &'static str)
        ensures
            r@ == intent_atom(*self),
    {
        match self {
            IntentType::Summarize => "summarize",
            IntentType::Find => "find",
            IntentType::Draft => "draft",
            IntentType::Remind => "remind",
            IntentType::Weather => "weather",
            IntentType::Unknown => "unknown",
        }
    }
}

/// Where a search should look.
#[derive(Debug, Clone, PartialEq, Eq, Structural)]
pub enum SourcePreference {
    Notes,
    Files,
    Either,
}

impl Default for SourcePreference {
    fn default() -> (r: Self)
        ensures
            r == SourcePreference::Either,
    {
        SourcePreference::Either
    }
}

pub open spec fn source_pref_atom(s: SourcePreference) -> Seq<char> {
    match s {
        SourcePreference::Notes => "notes"@,
        SourcePreference::Files => "files"@,
        SourcePreference::Either => "either"@,
    }
}

/// The kind of weather question being asked.
#[derive(Debug, Clone, Copy, PartialEq, Eq, Structural)]
pub enum WeatherQueryType {
    Current,
    Forecast,
    Assessment,
}

pub open spec fn weather_query_atom(w: WeatherQueryType) -> Seq<char> {
    match w {
        WeatherQueryType::Current => "current"@,
        WeatherQueryType::Forecast => "forecast"@,
        WeatherQueryType::Assessment => "assessment"@,
    }
}

pub fn weather_query_token(w: &WeatherQueryType) -> (r: &'static str)
    ensures
        r@ == weather_query_atom(*w),
{
    match w {
        WeatherQueryType::Current => "current",
        WeatherQueryType::Forecast => "forecast",
        WeatherQueryType::Assessment => "assessment",
    }
}

/// Slot values extracted from user text. Absence means "not extracted",
/// never an empty string.
#[derive(Debug, Clone)]
pub struct Entities {
    pub topic: Option<String>,
    pub query: Option<String>,
    pub location: Option<String>,
    pub date: Option<String>,
    pub date_end: Option<String>,
    pub recipient: Option<String>,
    pub priority: Option<String>,
    pub weather_query: Option<WeatherQueryType>,
}

/// The mathematical shadow of `Entities`.
pub struct EntitiesView {
    pub topic: Option<Seq<char>>,
    pub query: Option<Seq<char>>,
    pub location: Option<Seq<char>>,
    pub date: Option<Seq<char>>,
    pub date_end: Option<Seq<char>>,
    pub recipient: Option<Seq<char>>,
    pub priority: Option<Seq<char>>,
    pub weather_query: Option<WeatherQueryType>,
}

pub open spec fn opt_view(o: Option<String>) -> Option<Seq<char>> {
    match o {
        Some(s) => Some(s@),
        None => None,
    }
}

impl View for Entities {
    type V = EntitiesView;

    open spec fn view(&self) -> EntitiesView {
        EntitiesView {
            topic: opt_view(self.topic),
            query: opt_view(self.query),
            location: opt_view(self.location),
            date: opt_view(self.date),
            date_end: opt_view(self.date_end),
            recipient: opt_view(self.recipient),
            priority: opt_view(self.priority),
            weather_query: self.weather_query,
        }
    }
}

pub open spec fn no_entities() -> EntitiesView {
    EntitiesView {
        topic: None,
        query: None,
        location: None,
        date: None,
        date_end: None,
        recipient: None,
        priority: None,
        weather_query: None,
    }
}

impl Entities {
    /// An `Entities` with every slot empty.
    pub fn empty() -> (r: Self)
        ensures
            r@ == no_entities(),
    {
        Entities {
            topic: None,
            query: None,
            location: None,
            date: None,
            date_end: None,
            recipient: None,
            priority: None,
            weather_query: None,
        }
    }
}

impl Default for Entities {
    fn default() -> (r: Self)
        ensures
            r@ == no_entities(),
    {
        Entities::empty()
    }
}

/// Routing constraints: source preference plus a free-form safety tag.
#[derive(Debug, Clone)]
pub struct Constraints {
    pub source_preference: SourcePreference,
    pub safety: String,
}

pub struct ConstraintsView {
    pub source_preference: SourcePreference,
    pub safety: Seq<char>,
}

impl View for Constraints {
    type V = ConstraintsView;

    open spec fn view(&self) -> ConstraintsView {
        ConstraintsView { source_preference: self.source_preference, safety: self.safety@ }
    }
}

pub open spec fn default_constraints() -> ConstraintsView {
    ConstraintsView { source_preference: SourcePreference::Either, safety: "normal"@ }
}

impl Default for Constraints {
    fn default() -> (r: Self)
        ensures
            r@ == default_constraints(),
    {
        Constraints { source_preference: SourcePreference::Either, safety: "normal".to_owned() }
    }
}

/// One user turn's structured request.
#[derive(Debug, Clone)]
pub struct IntentPayload {
    pub intent: IntentType,
    pub entities: Entities,
    pub constraints: Constraints,
}

pub struct IntentPayloadView {
    pub intent: IntentType,
    pub entities: EntitiesView,
    pub constraints: ConstraintsView,
}

impl View for IntentPayload {
    type V = IntentPayloadView;

    open spec fn view(&self) -> IntentPayloadView {
        IntentPayloadView {
            intent: self.intent,
            entities: self.entities@,
            constraints: self.constraints@,
        }
    }
}

/// The routing engine's answer: a concrete tool call, a clarifying
/// question, or a rejection.
#[derive(Debug, Clone)]
pub enum Decision {
    Route { tool: String, args: Vec<(String, String)> },
    NeedInfo { question: String },
    Reject { reason: String },
}

pub enum DecisionView {
    Route { tool: Seq<char>, args: Seq<(Seq<char>, Seq<char>)> },
    NeedInfo { question: Seq<char> },
    Reject { reason: Seq<char> },
}

pub open spec fn args_view(args: Seq<(String, String)>) -> Seq<(Seq<char>, Seq<char>)> {
    args.map_values(|p: (String, String)| (p.0@, p.1@))
}

impl View for Decision {
    type V = DecisionView;

    open spec fn view(&self) -> DecisionView {
        match self {
            Decision::Route { tool, args } => DecisionView::Route {
                tool: tool@,
                args: args_view(args@),
            },
            Decision::NeedInfo { question } => DecisionView::NeedInfo { question: question@ },
            Decision::Reject { reason } => DecisionView::Reject { reason: reason@ },
        }
    }
}

impl Decision {
    /// The value bound to `key` in a route's argument list: the first
    /// binding with that key, nothing when the key is unbound or the
    /// decision routes nowhere.
    pub fn arg(&self, key: &str) -> (r: Option<&String>)
        ensures
            match r {
                Some(v) => self@ matches DecisionView::Route { .. } && exists|i: int|
                    0 <= i < self@.arrow_Route_args().len()
                        && #[trigger] self@.arrow_Route_args()[i] == (key@, v@),
                None => self@ matches DecisionView::Route { .. } ==> forall|i: int|
                    0 <= i < self@.arrow_Route_args().len()
                        ==> (#[trigger] self@.arrow_Route_args()[i]).0 != key@,
            },
    {
        match self {
            Decision::Route { args, .. } => {
                let mut i: usize = 0;
                while i < args.len()
                    invariant
                        i <= args.len(),
                        self@ matches DecisionView::Route { .. },
                        args_view(args@) == self@.arrow_Route_args(),
                        forall|k: int| 0 <= k < i
                            ==> (#[trigger] self@.arrow_Route_args()[k]).0 != key@,
                    decreases args.len() - i,
                {
                    if str_eq(args[i].0.as_str(), key) {
                        proof {
                            assert(self@.arrow_Route_args()[i as int] == (key@, args@[i as int].1@));
                        }
                        return Some(&args[i].1);
                    }
                    proof {
                        assert(self@.arrow_Route_args()[i as int].0 == args@[i as int].0@);
                    }
                    i += 1;
                }
                None
            }
            _ => None,
        }
    }
}

/// Compares two string slices character by character.
pub fn str_eq(a: &str, b: &str) -> (r: bool)
    ensures
        r == (a@ == b@),
{
    let av = crate::text::str_to_chars(a);
    let bv = crate::text::str_to_chars(b);
    crate::text::vec_eq(&av, &bv)
}

} // verus!
