//! The action parser: extracting one structured agent action from noisy
//! model output.
//!
//! The text may hold prose around a JSON object, and more than one JSON
//! object when the model thinks aloud. Candidates are found by scanning
//! for `{`, balancing braces while tracking string-literal state, and the
//! last candidate that parses as an action wins: models sometimes emit a
//! draft object before the real decision.

use vstd::prelude::*;
use crate::json::{JsonModel, JsonView, json_of, obj_lookup, parse_json};
use crate::text;

verus! {

/// One step the agent can take: call a tool, give the final answer, or
/// ask the user a question.
#[derive(Debug)]
pub enum AgentAction {
    CallTool { tool: String, args: JsonModel },
    FinalAnswer { answer: String },
    AskUser { question: String },
}

pub enum ActionView {
    CallTool { tool: Seq<char>, args: JsonView },
    FinalAnswer { answer: Seq<char> },
    AskUser { question: Seq<char> },
}

impl View for AgentAction {
    type V = ActionView;

    open spec fn view(&self) -> ActionView {
        match self {
            AgentAction::CallTool { tool, args } => ActionView::CallTool {
                tool: tool@,
                args: args@,
            },
            AgentAction::FinalAnswer { answer } => ActionView::FinalAnswer { answer: answer@ },
            AgentAction::AskUser { question } => ActionView::AskUser { question: question@ },
        }
    }
}

/// The action schema over a parsed JSON document: an object whose
/// `action` field names the variant, with the variant's payload fields
/// beside it. Anything else is no action.
pub open spec fn action_from_json(j: JsonView) -> Option<ActionView> {
    match obj_lookup(j, "action"@) {
        Some(JsonView::Str(tag)) => {
            if tag == "call_tool"@ {
                match (obj_lookup(j, "tool"@), obj_lookup(j, "args"@)) {
                    (Some(JsonView::Str(tool)), Some(args)) => Some(
                        ActionView::CallTool { tool, args },
                    ),
                    _ => None,
                }
            } else if tag == "final_answer"@ {
                match obj_lookup(j, "answer"@) {
                    Some(JsonView::Str(answer)) => Some(ActionView::FinalAnswer { answer }),
                    _ => None,
                }
            } else if tag == "ask_user"@ {
                match obj_lookup(j, "question"@) {
                    Some(JsonView::Str(question)) => Some(ActionView::AskUser { question }),
                    _ => None,
                }
            } else {
                None
            }
        }
        _ => None,
    }
}

/// Reads the action schema off a parsed JSON document.
pub fn action_from_model(j: &JsonModel) -> (r: Option<AgentAction>)
    ensures
        match r {
            Some(a) => action_from_json(j@) == Some(a@),
            None => action_from_json(j@) is None,
        },
{
    let tag: &String = match j.get("action") {
        Some(t) => match t.as_str() {
            Some(s) => s,
            None => {
                return None;
            }
        },
        None => {
            return None;
        }
    };
    if crate::model::str_eq(tag.as_str(), "call_tool") {
        let tool: String = match j.get("tool") {
            Some(t) => match t.as_str() {
                Some(s) => s.clone(),
                None => {
                    return None;
                }
            },
            None => {
                return None;
            }
        };
        let args: JsonModel = match j.get("args") {
            Some(a) => a.duplicate(),
            None => {
                return None;
            }
        };
        Some(AgentAction::CallTool { tool, args })
    } else if crate::model::str_eq(tag.as_str(), "final_answer") {
        match j.get("answer") {
            Some(t) => match t.as_str() {
                Some(s) => Some(AgentAction::FinalAnswer { answer: s.clone() }),
                None => None,
            },
            None => None,
        }
    } else if crate::model::str_eq(tag.as_str(), "ask_user") {
        match j.get("question") {
            Some(t) => match t.as_str() {
                Some(s) => Some(AgentAction::AskUser { question: s.clone() }),
                None => None,
            },
            None => None,
        }
    } else {
        None
    }
}

/// What one candidate text yields: a JSON parse followed by the schema.
pub open spec fn action_of_text(s: Seq<char>) -> Option<ActionView> {
    match json_of(s) {
        Some(j) => action_from_json(j),
        None => None,
    }
}

/// Parses one candidate text as an action.
pub fn parse_action_candidate(s: &str) -> (r: Option<AgentAction>)
    ensures
        match r {
            Some(a) => action_of_text(s@) == Some(a@),
            None => action_of_text(s@) is None,
        },
{
    match parse_json(s) {
        Some(j) => action_from_model(&j),
        None => None,
    }
}

/// Where the brace opened at `i` closes, balancing nested braces and
/// skipping braces inside string literals, escapes included. The result
/// is one past the closing brace.
pub open spec fn brace_end(s: Seq<char>, i: int, depth: int, in_str: bool, esc: bool)
    -> Option<int>
    decreases s.len() - i,
{
    if i < 0 || i >= s.len() {
        None
    } else {
        let c = s[i];
        if in_str {
            if esc {
                brace_end(s, i + 1, depth, true, false)
            } else if c == '\\' {
                brace_end(s, i + 1, depth, true, true)
            } else if c == '"' {
                brace_end(s, i + 1, depth, false, false)
            } else {
                brace_end(s, i + 1, depth, true, false)
            }
        } else {
            if c == '"' {
                brace_end(s, i + 1, depth, true, false)
            } else if c == '{' {
                brace_end(s, i + 1, depth + 1, false, false)
            } else if c == '}' {
                if depth == 1 {
                    Some(i + 1)
                } else {
                    brace_end(s, i + 1, depth - 1, false, false)
                }
            } else {
                brace_end(s, i + 1, depth, false, false)
            }
        }
    }
}

pub proof fn lemma_brace_end_bounds(s: Seq<char>, i: int, depth: int, in_str: bool, esc: bool)
    ensures
        brace_end(s, i, depth, in_str, esc) matches Some(e) ==> i < e <= s.len(),
    decreases s.len() - i,
{
    if !(i < 0 || i >= s.len()) {
        lemma_brace_end_bounds(s, i + 1, depth, true, false);
        lemma_brace_end_bounds(s, i + 1, depth, true, true);
        lemma_brace_end_bounds(s, i + 1, depth, false, false);
        lemma_brace_end_bounds(s, i + 1, depth + 1, false, false);
        lemma_brace_end_bounds(s, i + 1, depth - 1, false, false);
    }
}

/// Finds where the brace opened at `start` closes.
pub fn brace_match_end(v: &Vec<char>, start: usize) -> (r: Option<usize>)
    requires
        start < v@.len(),
        v@[start as int] == '{',
    ensures
        match r {
            Some(e) => brace_end(v@, start as int, 0, false, false) == Some(e as int),
            None => brace_end(v@, start as int, 0, false, false) is None,
        },
{
    let mut i: usize = start;
    let mut depth: usize = 0;
    let mut in_str: bool = false;
    let mut esc: bool = false;
    while i < v.len()
        invariant
            start <= i <= v@.len(),
            depth <= i,
            i == start ==> depth == 0 && !in_str && !esc,
            i > start ==> depth >= 1,
            esc ==> in_str,
            brace_end(v@, start as int, 0, false, false)
                == brace_end(v@, i as int, depth as int, in_str, esc),
            start < v@.len() && v@[start as int] == '{',
        decreases v@.len() - i,
    {
        let c = v[i];
        if in_str {
            if esc {
                esc = false;
            } else if c == '\\' {
                esc = true;
            } else if c == '"' {
                in_str = false;
            }
        } else {
            if c == '"' {
                in_str = true;
            } else if c == '{' {
                depth += 1;
            } else if c == '}' {
                if depth == 1 {
                    return Some(i + 1);
                } else {
                    depth -= 1;
                }
            }
        }
        i += 1;
    }
    None
}

/// The last candidate at or after `i` that parses as an action: scanning
/// never rewinds into text it has already passed, and a later valid
/// candidate beats an earlier one.
pub open spec fn last_action_from(s: Seq<char>, i: int) -> Option<ActionView>
    decreases s.len() - i + 1,
        via last_action_from_dec
{
    if i < 0 || i > s.len() {
        None
    } else {
        match text::find_from(s, seq!['{'], i) {
            None => None,
            Some(start) => match brace_end(s, start, 0, false, false) {
                None => last_action_from(s, start + 1),
                Some(endp) => {
                    let here = action_of_text(s.subrange(start, endp));
                    let rest = last_action_from(s, endp);
                    if rest is Some {
                        rest
                    } else {
                        here
                    }
                }
            },
        }
    }
}

#[via_fn]
proof fn last_action_from_dec(s: Seq<char>, i: int) {
    if !(i < 0 || i > s.len()) {
        text::lemma_find_from_bounds(s, seq!['{'], i);
        match text::find_from(s, seq!['{'], i) {
            None => {}
            Some(start) => {
                lemma_brace_end_bounds(s, start, 0, false, false);
            }
        }
    }
}

/// What the whole parse yields: the trimmed text taken whole if it is one
/// brace-delimited block that parses, else the last valid candidate of the
/// scan.
pub open spec fn parse_action_spec(s0: Seq<char>) -> Option<ActionView> {
    let s = text::trim_spec(s0);
    if s.len() >= 1 && s[0] == '{' && s.last() == '}' && action_of_text(s) is Some {
        action_of_text(s)
    } else {
        last_action_from(s, 0)
    }
}

pub open spec fn opt_action_view(o: Option<AgentAction>) -> Option<ActionView> {
    match o {
        Some(a) => Some(a@),
        None => None,
    }
}

/// The error of a model turn that contained no parseable action.
#[derive(Debug, Clone, PartialEq, Eq)]
pub struct ActionParseError;

impl ActionParseError {
    /// A human-readable account of the failure.
    pub fn message(&self) -> (r: String)
        ensures
            r@ == "No valid agent action JSON found in LLM output"@,
    {
        "No valid agent action JSON found in LLM output".to_owned()
    }
}

/// Extracts the agent action from raw model output: prose around the JSON
/// is ignored, and when several candidate objects parse, the last one
/// wins. Fails only when no candidate parses as an action.
pub fn parse_agent_action(model_text: &str) -> (r: Result<AgentAction, ActionParseError>)
    ensures
        match r {
            Ok(a) => parse_action_spec(model_text@) == Some(a@),
            Err(_) => parse_action_spec(model_text@) is None,
        },
{
    let raw = text::str_to_chars(model_text);
    let s = text::trim_vec(&raw);
    if s.len() >= 1 && s[0] == '{' && s[s.len() - 1] == '}' {
        let whole = text::chars_to_string(&s);
        if let Some(a) = parse_action_candidate(whole.as_str()) {
            return Ok(a);
        }
    }
    let mut brace: Vec<char> = Vec::new();
    brace.push('{');
    proof {
        assert(brace@ =~= seq!['{']);
    }
    let mut best: Option<AgentAction> = None;
    let mut i: usize = 0;
    loop
        invariant
            i <= s@.len(),
            brace@ == seq!['{'],
            (match last_action_from(s@, i as int) {
                Some(x) => Some(x),
                None => opt_action_view(best),
            }) == last_action_from(s@, 0),
            parse_action_spec(model_text@) == last_action_from(s@, 0),
        decreases s@.len() - i,
    {
        match text::find_vec(&s, &brace, i) {
            None => {
                match best {
                    Some(a) => {
                        return Ok(a);
                    }
                    None => {
                        return Err(ActionParseError);
                    }
                }
            }
            Some(start) => {
                proof {
                    text::lemma_find_from_bounds(s@, brace@, i as int);
                    assert(s@.subrange(start as int, start + 1 as int)[0] == s@[start as int]);
                }
                match brace_match_end(&s, start) {
                    None => {
                        i = start + 1;
                    }
                    Some(endp) => {
                        proof {
                            lemma_brace_end_bounds(s@, start as int, 0, false, false);
                        }
                        let cand = text::subvec(&s, start, endp);
                        let cs = text::chars_to_string(&cand);
                        match parse_action_candidate(cs.as_str()) {
                            Some(a) => {
                                best = Some(a);
                            }
                            None => {}
                        }
                        i = endp;
                    }
                }
            }
        }
    }
}

} // verus!
