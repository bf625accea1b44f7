//! The embedded logic-engine backend: probing an externally authored,
//! list-syntax rule file for agreement with the native rules.
//!
//! The interpreter runs inside the process on plain text: the caller
//! supplies the rule program, the library builds the probe query from its
//! own encoders, and everything after the interpreter's answer — reading
//! the exception shape, classifying the outcome, judging agreement — is
//! verified. A fresh interpreter is built for every probe; engine state is
//! never shared between calls.
//!
//! A dict-syntax sibling backend exists only as a foreign-function
//! binding to a natively installed interpreter; without that native
//! library it cannot be linked, so this crate carries the embedded
//! list-syntax engine alone. The agreement judgement is shared:
//! `decide_checked` takes any backend's probe outcome, and a host without
//! a backend passes none and gets the documented fallback — the native
//! decision with the probe reported unavailable.

use vstd::prelude::*;
use crate::encode::{ToPrologList, constraints_list, entities_list};
use crate::model::{IntentPayload, IntentPayloadView, intent_atom};
use crate::router::{EngineReport, ProbeOutcome, decide_checked};
use crate::text;

verus! {

/// Declares the interpreter type so that the trusted calls can pass it
/// around; nothing is read out of it directly.
#[verifier::external_type_specification]
#[verifier::external_body]
pub struct ExMachine(scryer_prolog::Machine);

/// Declares the interpreter's term type; its contents are reached only
/// through `term_model`.
#[verifier::external_type_specification]
#[verifier::external_body]
pub struct ExTerm(scryer_prolog::Term);

/// A Prolog term as plain values, as deep as the probe ever looks:
/// atoms, strings and compounds; everything else collapses to `Other`.
#[derive(Debug)]
pub enum TermModel {
    Atom(String),
    Str(String),
    Compound(String, Vec<TermModel>),
    Other,
}

pub enum TermView {
    Atom(Seq<char>),
    Str(Seq<char>),
    Compound(Seq<char>, Seq<TermView>),
    Other,
}

impl View for TermModel {
    type V = TermView;

    open spec fn view(&self) -> TermView
        decreases self,
    {
        match self {
            TermModel::Atom(s) => TermView::Atom(s@),
            TermModel::Str(s) => TermView::Str(s@),
            TermModel::Compound(f, args) => TermView::Compound(f@, term_views(args@)),
            TermModel::Other => TermView::Other,
        }
    }
}

pub open spec fn term_views(s: Seq<TermModel>) -> Seq<TermView>
    decreases s,
{
    if s.len() == 0 {
        Seq::empty()
    } else {
        seq![s[0]@] + term_views(s.drop_first())
    }
}

pub proof fn lemma_term_views_index(s: Seq<TermModel>)
    ensures
        term_views(s).len() == s.len(),
        forall|i: int| 0 <= i < s.len() ==> #[trigger] term_views(s)[i] == s[i]@,
    decreases s,
{
    if s.len() > 0 {
        lemma_term_views_index(s.drop_first());
        assert(term_views(s) == seq![s[0]@] + term_views(s.drop_first()));
        assert forall|i: int| 0 <= i < s.len() implies #[trigger] term_views(s)[i] == s[i]@ by {
            if i > 0 {
                assert(term_views(s)[i] == term_views(s.drop_first())[i - 1]);
                assert(s.drop_first()[i - 1] == s[i]);
            }
        }
    }
}

/// A character the interpreter's reader takes as-is inside a quoted
/// atom: its lexer accepts the plain space and any character that is
/// neither a control character nor another whitespace character; the
/// backslash and the single quote are covered by the escaping the
/// encoder already emits. Control characters here are the C0 range,
/// delete and the C1 range; the excluded whitespace is the fixed set of
/// Unicode space characters.
pub open spec fn quoted_ok(c: char) -> bool {
    c == ' ' || ({
        let u = c as u32;
        &&& u >= 0x21
        &&& u != 0x7F
        &&& !(0x80 <= u && u <= 0xA0)
        &&& u != 0x1680
        &&& !(0x2000 <= u && u <= 0x200A)
        &&& u != 0x2028
        &&& u != 0x2029
        &&& u != 0x202F
        &&& u != 0x205F
        &&& u != 0x3000
    })
}

/// Every character of the query is one the reader takes.
pub open spec fn query_chars_ok(s: Seq<char>) -> bool {
    forall|i: int| 0 <= i < s.len() ==> quoted_ok(#[trigger] s[i])
}

/// Whether every character of `v` is one the interpreter's reader takes.
fn all_quoted_ok(v: &Vec<char>) -> (b: bool)
    ensures
        b == query_chars_ok(v@),
{
    let mut i: usize = 0;
    while i < v.len()
        invariant
            i <= v@.len(),
            forall|k: int| 0 <= k < i ==> quoted_ok(#[trigger] v@[k]),
        decreases v@.len() - i,
    {
        let c = v[i];
        let u = c as u32;
        let ok = c == ' ' || (u >= 0x21 && u != 0x7F && !(0x80 <= u && u <= 0xA0) && u != 0x1680
            && !(0x2000 <= u && u <= 0x200A) && u != 0x2028 && u != 0x2029 && u != 0x202F
            && u != 0x205F && u != 0x3000);
        if !ok {
            proof {
                assert(!quoted_ok(v@[i as int]));
            }
            return false;
        }
        i += 1;
    }
    true
}

/// The probe query for a payload: the canonical `route/5` goal over the
/// list encodings, with the tool and argument positions left open.
pub open spec fn probe_query_text(p: IntentPayloadView) -> Seq<char> {
    "route("@ + intent_atom(p.intent) + ", "@ + entities_list(p.entities) + ", "@
        + constraints_list(p.constraints) + ", Tool, Args)."@
}

/// Builds the probe query for a payload.
pub fn build_probe_query(payload: &IntentPayload) -> (r: String)
    ensures
        r@ == probe_query_text(payload@),
{
    let mut v = text::str_to_chars("route(");
    let atom = text::str_to_chars(payload.intent.as_atom());
    text::push_all(&mut v, &atom);
    let sep = text::str_to_chars(", ");
    text::push_all(&mut v, &sep);
    let ents = payload.entities.to_prolog_list();
    let ev = text::str_to_chars(ents.as_str());
    text::push_all(&mut v, &ev);
    text::push_all(&mut v, &sep);
    let cons = payload.constraints.to_prolog_list();
    let cv = text::str_to_chars(cons.as_str());
    text::push_all(&mut v, &cv);
    let tail = text::str_to_chars(", Tool, Args).");
    text::push_all(&mut v, &tail);
    proof {
        assert(v@ =~= probe_query_text(payload@));
    }
    text::chars_to_string(&v)
}

/// Builds a fresh embedded interpreter with in-memory standard streams.
///
/// Relies on `scryer_prolog::MachineBuilder::default().build()`.
#[verifier::external_body]
pub fn machine_new() -> scryer_prolog::Machine {
    scryer_prolog::MachineBuilder::default().build()
}

/// Loads a rule program into the machine under the given module name.
///
/// Relies on `Machine::consult_module_string`; the loader reports bad
/// clauses on the machine's own streams and returns.
#[verifier::external_body]
pub fn machine_consult(m: &mut scryer_prolog::Machine, module: &str, program: &str) {
    m.consult_module_string(module, program);
}

/// What one query run came back with, as plain values.
#[derive(Debug)]
pub enum RawAnswer {
    /// A solution was found, with or without bindings.
    Solution,
    /// The query terminated with no solution.
    NoSolution,
    /// The query raised this exception term.
    Exception(TermModel),
    /// An answer form the probe does not interpret.
    Other,
}

/// Runs a query and reports its first answer.
///
/// Relies on `Machine::run_query` and its answer iterator; the query
/// reader panics on text that is not a well-formed goal, so only the
/// probe queries this library builds itself are allowed in, and only
/// when every quoted character is one the reader takes — a control or
/// non-space whitespace character inside an atom would be rejected and
/// panic the reader. The answer depends on the loaded program, so
/// nothing is promised of which variant comes back; exception terms are
/// carried over by `term_model`.
#[verifier::external_body]
pub fn machine_first_answer(m: &mut scryer_prolog::Machine, query: &str) -> (r: RawAnswer)
    requires
        exists|p: IntentPayloadView| query@ == probe_query_text(p),
        query_chars_ok(query@),
{
    match m.run_query(query).next() {
        None => RawAnswer::NoSolution,
        Some(Ok(scryer_prolog::LeafAnswer::True)) => RawAnswer::Solution,
        Some(Ok(scryer_prolog::LeafAnswer::False)) => RawAnswer::NoSolution,
        Some(Ok(scryer_prolog::LeafAnswer::LeafAnswer { .. })) => RawAnswer::Solution,
        Some(Ok(scryer_prolog::LeafAnswer::Exception(t))) => RawAnswer::Exception(term_model(&t)),
        Some(Ok(_)) => RawAnswer::Other,
        Some(Err(t)) => RawAnswer::Exception(term_model(&t)),
    }
}

/// Carries a Prolog term into the library's model, variant by variant;
/// terms the probe never inspects collapse to `Other`.
///
/// Relies on `scryer_prolog::Term`'s variants.
#[verifier::external_body]
fn term_model(t: &scryer_prolog::Term) -> TermModel {
    match t {
        scryer_prolog::Term::Atom(s) => TermModel::Atom(s.clone()),
        scryer_prolog::Term::String(s) => TermModel::Str(s.clone()),
        scryer_prolog::Term::Compound(f, args) => TermModel::Compound(
            f.clone(),
            args.iter().map(term_model).collect(),
        ),
        _ => TermModel::Other,
    }
}

/// The missing required field named by an exception term, if the term has
/// the `error(missing_required(Field), _)` shape.
pub open spec fn missing_field_of(t: TermView) -> Option<Seq<char>> {
    match t {
        TermView::Compound(f, args) => {
            if f == "error"@ && args.len() >= 1 {
                match args[0] {
                    TermView::Compound(g, inner) => {
                        if g == "missing_required"@ && inner.len() == 1 {
                            match inner[0] {
                                TermView::Atom(s) => Some(s),
                                TermView::Str(s) => Some(s),
                                _ => None,
                            }
                        } else {
                            None
                        }
                    }
                    _ => None,
                }
            } else {
                None
            }
        }
        _ => None,
    }
}

/// Reads the missing required field out of an exception term.
pub fn classify_exception(t: &TermModel) -> (r: Option<String>)
    ensures
        match r {
            Some(f) => missing_field_of(t@) == Some(f@),
            None => missing_field_of(t@) is None,
        },
{
    match t {
        TermModel::Compound(f, args) => {
            proof {
                lemma_term_views_index(args@);
            }
            if !crate::model::str_eq(f.as_str(), "error") || args.len() == 0 {
                return None;
            }
            match &args[0] {
                TermModel::Compound(g, inner) => {
                    proof {
                        lemma_term_views_index(inner@);
                    }
                    if !crate::model::str_eq(g.as_str(), "missing_required") || inner.len() != 1 {
                        return None;
                    }
                    match &inner[0] {
                        TermModel::Atom(s) => Some(s.clone()),
                        TermModel::Str(s) => Some(s.clone()),
                        _ => None,
                    }
                }
                _ => None,
            }
        }
        _ => None,
    }
}

/// The probe outcome an answer denotes: a solution is success, no
/// solution or an uninterpretable answer is failure, and an exception
/// succeeds only at naming a missing required field.
pub open spec fn outcome_of_answer_spec(a: &RawAnswer) -> crate::router::ProbeOutcomeView {
    match a {
        RawAnswer::Solution => crate::router::ProbeOutcomeView::Success,
        RawAnswer::NoSolution => crate::router::ProbeOutcomeView::Failure,
        RawAnswer::Other => crate::router::ProbeOutcomeView::Failure,
        RawAnswer::Exception(t) => match missing_field_of(t@) {
            Some(f) => crate::router::ProbeOutcomeView::MissingField(f),
            None => crate::router::ProbeOutcomeView::Failure,
        },
    }
}

/// Classifies one answer into a probe outcome, whatever came back.
pub fn outcome_of_answer(a: &RawAnswer) -> (r: ProbeOutcome)
    ensures
        r@ == outcome_of_answer_spec(a),
{
    match a {
        RawAnswer::Solution => ProbeOutcome::Success,
        RawAnswer::NoSolution => ProbeOutcome::Failure,
        RawAnswer::Other => ProbeOutcome::Failure,
        RawAnswer::Exception(t) => match classify_exception(t) {
            Some(f) => ProbeOutcome::MissingField(f),
            None => ProbeOutcome::Failure,
        },
    }
}

/// Probes a rule program with a payload: a fresh interpreter, the rules
/// consulted under `user`, one run of the canonical probe query, and the
/// answer classified. A payload value holding a character the query
/// reader would reject — a control character, a non-space whitespace —
/// makes the probe inconclusive instead of reaching the reader: the
/// probe fails and the native decision stands, so no input panics the
/// caller. Otherwise the program decides the outcome, so nothing more
/// can be promised of it.
pub fn scryer_probe(rules: &str, payload: &IntentPayload) -> (r: ProbeOutcome)
    ensures
        !query_chars_ok(probe_query_text(payload@)) ==> r@ is Failure,
{
    let q = build_probe_query(payload);
    let qv = crate::text::str_to_chars(q.as_str());
    if !all_quoted_ok(&qv) {
        return ProbeOutcome::Failure;
    }
    let mut m = machine_new();
    machine_consult(&mut m, "user", rules);
    proof {
        assert(exists|p: IntentPayloadView| q@ == probe_query_text(p)) by {
            assert(q@ == probe_query_text(payload@));
        };
    }
    let a = machine_first_answer(&mut m, q.as_str());
    outcome_of_answer(&a)
}

/// Routes a payload while probing the rule program for agreement: the
/// decision is always the native one, and the report records whether the
/// backend's probe agreed, contested the outcome, or was not consulted.
/// Backend trouble of any kind — unloadable rules, a failing probe, a
/// payload the query reader cannot carry — shows up in the report and
/// never costs the caller the decision.
pub fn scryer_decide(payload: &IntentPayload, rules: &str, premium_weather: bool)
    -> (r: EngineReport)
    ensures
        r.decision@ == crate::router::decide_spec(payload@, premium_weather),
{
    let outcome = scryer_probe(rules, payload);
    decide_checked(payload, premium_weather, Some(&outcome))
}

} // verus!
