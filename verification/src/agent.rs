//! The agent orchestrator: conversation state, prompt assembly and the
//! bounded, turn-based loop in which a language model chooses actions.
//!
//! The model and the tools are outside collaborators, reached through the
//! `LlmClient` and `ToolExecutor` contracts; the loop itself, its turn
//! accounting and its termination are verified.

use vstd::prelude::*;
use crate::actions::{ActionParseError, AgentAction, parse_agent_action};
use crate::json::JsonModel;
use crate::text;

verus! {

/// Who said a message in the conversation.
#[derive(Debug, Clone, PartialEq, Eq, Structural)]
pub enum MessageRole {
    User,
    Assistant,
    Tool,
}

/// What one tool call produced. A failure is encoded here, never thrown.
#[derive(Debug, Clone)]
pub struct ToolResult {
    pub tool: String,
    pub success: bool,
    pub output: String,
}

pub struct ToolResultView {
    pub tool: Seq<char>,
    pub success: bool,
    pub output: Seq<char>,
}

impl View for ToolResult {
    type V = ToolResultView;

    open spec fn view(&self) -> ToolResultView {
        ToolResultView { tool: self.tool@, success: self.success, output: self.output@ }
    }
}

/// One entry of the conversation transcript.
#[derive(Debug, Clone)]
pub struct Message {
    pub role: MessageRole,
    pub content: String,
    pub tool_result: Option<ToolResult>,
}

pub struct MessageView {
    pub role: MessageRole,
    pub content: Seq<char>,
    pub tool_result: Option<ToolResultView>,
}

impl DeepView for Message {
    type V = MessageView;

    open spec fn deep_view(&self) -> MessageView {
        self.view()
    }
}

impl View for Message {
    type V = MessageView;

    open spec fn view(&self) -> MessageView {
        MessageView {
            role: self.role,
            content: self.content@,
            tool_result: match &self.tool_result {
                Some(t) => Some(t@),
                None => None,
            },
        }
    }
}

/// The content a tool message carries: the tool's name and its output in
/// one line.
pub open spec fn tool_message_content(tool: Seq<char>, output: Seq<char>) -> Seq<char> {
    "Tool "@ + tool + " returned: "@ + output
}

impl Message {
    /// A user message.
    pub fn user(content: &str) -> (r: Self)
        ensures
            r@.role == MessageRole::User,
            r@.content == content@,
            r@.tool_result is None,
    {
        Message { role: MessageRole::User, content: content.to_owned(), tool_result: None }
    }

    /// An assistant message.
    pub fn assistant(content: &str) -> (r: Self)
        ensures
            r@.role == MessageRole::Assistant,
            r@.content == content@,
            r@.tool_result is None,
    {
        Message { role: MessageRole::Assistant, content: content.to_owned(), tool_result: None }
    }

    /// A tool-result message, with the structured result attached.
    pub fn tool(tool_name: &str, success: bool, output: &str) -> (r: Self)
        ensures
            r@.role == MessageRole::Tool,
            r@.content == tool_message_content(tool_name@, output@),
            r@.tool_result == Some(
                ToolResultView { tool: tool_name@, success, output: output@ },
            ),
    {
        let mut content = text::str_to_chars("Tool ");
        let t = text::str_to_chars(tool_name);
        text::push_all(&mut content, &t);
        let mid = text::str_to_chars(" returned: ");
        text::push_all(&mut content, &mid);
        let o = text::str_to_chars(output);
        text::push_all(&mut content, &o);
        proof {
            assert(content@ =~= tool_message_content(tool_name@, output@));
        }
        Message {
            role: MessageRole::Tool,
            content: text::chars_to_string(&content),
            tool_result: Some(
                ToolResult { tool: tool_name.to_owned(), success, output: output.to_owned() },
            ),
        }
    }
}

/// The transcript tag of a role.
pub open spec fn role_tag(r: MessageRole) -> Seq<char> {
    match r {
        MessageRole::User => "USER"@,
        MessageRole::Assistant => "ASSISTANT"@,
        MessageRole::Tool => "TOOL_RESULT"@,
    }
}

/// One transcript block: the role tag, a colon and newline, the content.
pub open spec fn message_block(m: MessageView) -> Seq<char> {
    role_tag(m.role) + ":\n"@ + m.content
}

pub open spec fn message_blocks(msgs: Seq<MessageView>) -> Seq<Seq<char>> {
    msgs.map_values(|m: MessageView| message_block(m))
}

/// The whole transcript: blocks joined by blank lines.
pub open spec fn transcript(msgs: Seq<MessageView>) -> Seq<char> {
    text::join_with(message_blocks(msgs), "\n\n"@)
}

/// The running conversation of one agent session.
#[derive(Debug)]
pub struct ConversationState {
    pub messages: Vec<Message>,
    pub response_id: Option<String>,
    pub turn_count: u32,
    pub max_turns: u32,
}

pub open spec fn state_messages(s: &ConversationState) -> Seq<MessageView> {
    s.messages.deep_view()
}

impl ConversationState {
    /// A fresh session with the given turn ceiling.
    pub fn new(max_turns: u32) -> (r: Self)
        ensures
            state_messages(&r).len() == 0,
            r.response_id is None,
            r.turn_count == 0,
            r.max_turns == max_turns,
    {
        let r = ConversationState {
            messages: Vec::new(),
            response_id: None,
            turn_count: 0,
            max_turns,
        };
        proof {
            assert(state_messages(&r) =~= Seq::<MessageView>::empty());
        }
        r
    }

    /// Appends a user message.
    pub fn add_user_message(&mut self, content: &str)
        ensures
            state_messages(final(self)) == state_messages(old(self)).push(
                MessageView { role: MessageRole::User, content: content@, tool_result: None },
            ),
            final(self).turn_count == old(self).turn_count,
            final(self).max_turns == old(self).max_turns,
            final(self).response_id == old(self).response_id,
    {
        let m = Message::user(content);
        let ghost before = state_messages(self);
        let ghost mv = m@;
        self.messages.push(m);
        proof {
            assert(state_messages(self) =~= before.push(mv));
        }
    }

    /// Appends an assistant message.
    pub fn add_assistant_message(&mut self, content: &str)
        ensures
            state_messages(final(self)) == state_messages(old(self)).push(
                MessageView { role: MessageRole::Assistant, content: content@, tool_result: None },
            ),
            final(self).turn_count == old(self).turn_count,
            final(self).max_turns == old(self).max_turns,
            final(self).response_id == old(self).response_id,
    {
        let m = Message::assistant(content);
        let ghost before = state_messages(self);
        let ghost mv = m@;
        self.messages.push(m);
        proof {
            assert(state_messages(self) =~= before.push(mv));
        }
    }

    /// Appends a tool-result message.
    pub fn add_tool_result(&mut self, tool: &str, success: bool, output: &str)
        ensures
            state_messages(final(self)) == state_messages(old(self)).push(
                MessageView {
                    role: MessageRole::Tool,
                    content: tool_message_content(tool@, output@),
                    tool_result: Some(ToolResultView { tool: tool@, success, output: output@ }),
                },
            ),
            final(self).turn_count == old(self).turn_count,
            final(self).max_turns == old(self).max_turns,
            final(self).response_id == old(self).response_id,
    {
        let m = Message::tool(tool, success, output);
        let ghost before = state_messages(self);
        let ghost mv = m@;
        self.messages.push(m);
        proof {
            assert(state_messages(self) =~= before.push(mv));
        }
    }

    /// Renders the transcript for the model: each entry under its role
    /// tag, entries separated by blank lines.
    pub fn format_for_llm(&self) -> (r: String)
        ensures
            r@ == transcript(state_messages(self)),
    {
        let mut parts: Vec<Vec<char>> = Vec::new();
        let mut i: usize = 0;
        proof {
            assert(parts.deep_view() =~~= message_blocks(state_messages(self).take(0)));
        }
        while i < self.messages.len()
            invariant
                i <= self.messages@.len(),
                parts.deep_view() == message_blocks(state_messages(self).take(i as int)),
            decreases self.messages@.len() - i,
        {
            let m = &self.messages[i];
            let tag: &str = match m.role {
                MessageRole::User => "USER",
                MessageRole::Assistant => "ASSISTANT",
                MessageRole::Tool => "TOOL_RESULT",
            };
            let mut block = text::str_to_chars(tag);
            block.push(':');
            block.push('\n');
            let c = text::str_to_chars(m.content.as_str());
            text::push_all(&mut block, &c);
            proof {
                reveal_strlit(":\n");
                assert(block@ =~= message_block(state_messages(self)[i as int]));
            }
            let ghost pd = parts.deep_view();
            parts.push(block);
            proof {
                assert(parts.deep_view() =~~= pd.push(message_block(
                    state_messages(self)[i as int],
                )));
                assert(state_messages(self).take(i + 1 as int)
                    =~= state_messages(self).take(i as int).push(
                    state_messages(self)[i as int],
                ));
                assert(message_blocks(state_messages(self).take(i + 1 as int))
                    =~= message_blocks(state_messages(self).take(i as int)).push(
                    message_block(state_messages(self)[i as int]),
                ));
            }
            i += 1;
        }
        proof {
            assert(state_messages(self).take(self.messages@.len() as int)
                =~= state_messages(self));
        }
        let sep = text::str_to_chars("\n\n");
        let joined = text::join_vecs(&parts, &sep);
        text::chars_to_string(&joined)
    }
}

/// The agent system prompt, rendered: every `{{TODAY}}` placeholder
/// replaced by the given date text, and, when tool lines are supplied and
/// the template has an `## Available Tools` section, that section —
/// through the next `## ` heading or the end — replaced by the lines.
pub open spec fn rendered_prompt(
    template: Seq<char>,
    today: Seq<char>,
    lines: Seq<Seq<char>>,
) -> Seq<char> {
    let p = text::replace_all(template, "{{TODAY}}"@, today);
    if lines.len() > 0 && text::find_from(p, "## Available Tools"@, 0) is Some {
        let start = text::find_from(p, "## Available Tools"@, 0)->Some_0;
        let after = p.skip(start + 18);
        let cut = start + 18 + (match text::find_from(after, "\n## "@, 0) {
            Some(k) => k,
            None => after.len() as int,
        });
        p.subrange(0, start) + "\n## Available Tools\n"@ + text::join_with(lines, "\n"@)
            + "\n"@ + p.subrange(cut, p.len() as int)
    } else {
        p
    }
}

/// Renders the agent system prompt from its template: the date fills the
/// `{{TODAY}}` placeholders, and a nonempty tool list replaces the
/// template's `## Available Tools` section.
pub fn render_agent_prompt(template: &str, today: &str, tool_lines: &Vec<String>) -> (r: String)
    ensures
        r@ == rendered_prompt(template@, today@, tool_lines.deep_view()),
{
    proof {
        reveal_strlit("{{TODAY}}");
        reveal_strlit("## Available Tools");
        reveal_strlit("\n## ");
    }
    let tv = text::str_to_chars(template);
    let pat = text::str_to_chars("{{TODAY}}");
    let today_v = text::str_to_chars(today);
    let p = text::replace_all_vec(&tv, &pat, &today_v);
    let header = text::str_to_chars("## Available Tools");
    if tool_lines.len() > 0 {
        match text::find_vec(&p, &header, 0) {
            Some(start) => {
                let pl = p.len();
                proof {
                    text::lemma_find_from_bounds(p@, header@, 0);
                    assert(start + 18 <= pl);
                }
                let after = text::subvec(&p, start + 18, pl);
                proof {
                    assert(p@.skip(start + 18) =~= p@.subrange(start + 18, p@.len() as int));
                }
                let marker = text::str_to_chars("\n## ");
                let cut: usize = match text::find_vec(&after, &marker, 0) {
                    Some(k) => {
                        proof {
                            text::lemma_find_from_bounds(after@, marker@, 0);
                        }
                        start + 18 + k
                    }
                    None => start + 18 + after.len(),
                };
                let mut out = text::subvec(&p, 0, start);
                let head2 = text::str_to_chars("\n## Available Tools\n");
                text::push_all(&mut out, &head2);
                let mut lines: Vec<Vec<char>> = Vec::new();
                let mut i: usize = 0;
                proof {
                    assert(lines.deep_view() =~~= tool_lines.deep_view().take(0));
                }
                while i < tool_lines.len()
                    invariant
                        i <= tool_lines@.len(),
                        lines.deep_view() == tool_lines.deep_view().take(i as int),
                    decreases tool_lines@.len() - i,
                {
                    let ghost ld = lines.deep_view();
                    lines.push(text::str_to_chars(tool_lines[i].as_str()));
                    proof {
                        assert(lines.deep_view() =~~= ld.push(tool_lines@[i as int]@));
                        assert(tool_lines.deep_view().take(i + 1 as int)
                            =~= tool_lines.deep_view().take(i as int).push(
                            tool_lines.deep_view()[i as int],
                        ));
                    }
                    i += 1;
                }
                proof {
                    assert(tool_lines.deep_view().take(tool_lines@.len() as int)
                        =~= tool_lines.deep_view());
                }
                let sep = text::str_to_chars("\n");
                let joined = text::join_vecs(&lines, &sep);
                text::push_all(&mut out, &joined);
                out.push('\n');
                let tail = text::subvec(&p, cut, pl);
                text::push_all(&mut out, &tail);
                proof {
                    reveal_strlit("\n");
                    reveal_strlit("## Available Tools");
                    reveal_strlit("\n## ");
                    assert(out@ =~= rendered_prompt(template@, today@, tool_lines.deep_view()));
                }
                text::chars_to_string(&out)
            }
            None => text::chars_to_string(&p),
        }
    } else {
        text::chars_to_string(&p)
    }
}

/// Settings for one agent session.
#[derive(Debug, Clone)]
pub struct AgentConfig {
    /// How many turns the loop may take before stopping.
    pub max_turns: u32,
    /// Whether the host should print diagnostic output.
    pub verbose: bool,
    /// Whether the host should consult conversation memory.
    pub use_memory: bool,
}

impl Default for AgentConfig {
    fn default() -> (r: Self)
        ensures
            r.max_turns == 10,
            r.verbose == false,
            r.use_memory == true,
    {
        AgentConfig { max_turns: 10, verbose: false, use_memory: true }
    }
}

/// The language-model collaborator: given the full prompt text, it
/// returns the model's response text or a description of the failure.
/// Implementations live outside the library.
pub trait LlmClient {
    fn complete(&mut self, prompt: &str) -> Result<String, String>;
}

/// The tool-execution collaborator: given a tool name and its argument
/// object, it returns whether the call succeeded and its rendered output.
/// It must never panic past this boundary; failures come back as
/// `(false, message)`. Implementations live outside the library.
pub trait ToolExecutor {
    fn execute(&mut self, tool: &str, args: &JsonModel) -> (bool, String);
}

/// How an agent session ended.
#[derive(Debug, Clone, PartialEq, Eq, Structural)]
pub enum AgentOutcome {
    /// The model gave a final answer.
    Answered,
    /// The model asked the user a question; the session ends with it.
    AskedUser,
    /// The turn ceiling was reached before a final answer.
    MaxTurnsReached,
}

/// What an agent session returned, with its turn accounting.
#[derive(Debug)]
pub struct AgentRunResult {
    pub answer: String,
    pub turns_used: u32,
    pub tool_calls: u32,
    pub outcome: AgentOutcome,
}

/// Why an agent session failed: the model call failed, or its output
/// held no parseable action.
#[derive(Debug)]
pub enum AgentError {
    LlmFailure(String),
    ActionParse(ActionParseError),
}

/// The fixed text around an answer that is really a question to the user.
pub open spec fn need_info_text(question: Seq<char>) -> Seq<char> {
    "Need more information: "@ + question
}

/// The fixed text returned when the turn ceiling is reached.
pub open spec fn max_turns_text(max_turns: int, last: Seq<char>) -> Seq<char> {
    "Max turns ("@ + text::dec_digits(max_turns) + ") reached. Last context: "@ + last
}

/// Runs the agent loop: each turn sends the system prompt and the full
/// transcript to the model, parses one action from the reply, and either
/// finishes (a final answer, or a question back to the user) or executes
/// the chosen tool, folds its result into the transcript, and continues.
///
/// The loop stops after exactly `config.max_turns` turns when the model
/// never finishes; every completed turn before that was a tool call, so a
/// run that hits the ceiling made exactly `max_turns` tool calls and
/// never one more. A final answer comes back as given; a question to the
/// user ends the session with the fixed need-more-information form; the
/// ceiling ends it with the fixed max-turns form.
pub fn run_agent_loop<L: LlmClient, T: ToolExecutor>(
    query: &str,
    config: &AgentConfig,
    system_prompt: &str,
    llm: &mut L,
    tools: &mut T,
) -> (r: Result<AgentRunResult, AgentError>)
    ensures
        match r {
            Ok(res) => {
                &&& res.turns_used <= config.max_turns
                &&& (res.outcome is MaxTurnsReached ==> res.turns_used == config.max_turns
                    && res.tool_calls == config.max_turns)
                &&& (!(res.outcome is MaxTurnsReached) ==> res.turns_used >= 1
                    && res.tool_calls + 1 == res.turns_used)
                &&& (res.outcome is AskedUser ==> exists|q: Seq<char>|
                    res.answer@ == need_info_text(q))
                &&& (res.outcome is MaxTurnsReached ==> exists|last: Seq<char>|
                    res.answer@ == max_turns_text(config.max_turns as int, last))
            },
            Err(_) => true,
        },
{
    let mut state = ConversationState::new(config.max_turns);
    state.add_user_message(query);
    let mut tool_calls: u32 = 0;
    loop
        invariant
            state.turn_count <= config.max_turns,
            state.max_turns == config.max_turns,
            tool_calls == state.turn_count,
            state_messages(&state).len() >= 1,
        decreases config.max_turns - state.turn_count,
    {
        if state.turn_count >= config.max_turns {
            let last: &str = if state.messages.len() > 0 {
                state.messages[state.messages.len() - 1].content.as_str()
            } else {
                ""
            };
            let mut msg = text::str_to_chars("Max turns (");
            let n = text::u64_to_dec(config.max_turns as u64);
            text::push_all(&mut msg, &n);
            let tail = text::str_to_chars(") reached. Last context: ");
            text::push_all(&mut msg, &tail);
            let lastv = text::str_to_chars(last);
            text::push_all(&mut msg, &lastv);
            let answer = text::chars_to_string(&msg);
            proof {
                assert(msg@ =~= max_turns_text(config.max_turns as int, last@));
                assert(exists|l: Seq<char>| answer@ == max_turns_text(
                    config.max_turns as int,
                    l,
                )) by {
                    assert(answer@ == max_turns_text(config.max_turns as int, last@));
                };
            }
            return Ok(AgentRunResult {
                answer,
                turns_used: state.turn_count,
                tool_calls,
                outcome: AgentOutcome::MaxTurnsReached,
            });
        }
        let conversation = state.format_for_llm();
        let mut prompt = text::str_to_chars(system_prompt);
        prompt.push('\n');
        prompt.push('\n');
        let convv = text::str_to_chars(conversation.as_str());
        text::push_all(&mut prompt, &convv);
        let prompt_text = text::chars_to_string(&prompt);
        let reply = match llm.complete(prompt_text.as_str()) {
            Ok(t) => t,
            Err(e) => {
                return Err(AgentError::LlmFailure(e));
            }
        };
        let action = match parse_agent_action(reply.as_str()) {
            Ok(a) => a,
            Err(pe) => {
                return Err(AgentError::ActionParse(pe));
            }
        };
        state.turn_count = state.turn_count + 1;
        match action {
            AgentAction::FinalAnswer { answer } => {
                return Ok(AgentRunResult {
                    answer,
                    turns_used: state.turn_count,
                    tool_calls,
                    outcome: AgentOutcome::Answered,
                });
            }
            AgentAction::AskUser { question } => {
                let mut msg = text::str_to_chars("Need more information: ");
                let q = text::str_to_chars(question.as_str());
                text::push_all(&mut msg, &q);
                let answer = text::chars_to_string(&msg);
                proof {
                    assert(msg@ =~= need_info_text(question@));
                    assert(exists|qq: Seq<char>| answer@ == need_info_text(qq)) by {
                        assert(answer@ == need_info_text(question@));
                    };
                }
                return Ok(AgentRunResult {
                    answer,
                    turns_used: state.turn_count,
                    tool_calls,
                    outcome: AgentOutcome::AskedUser,
                });
            }
            AgentAction::CallTool { tool, args } => {
                let (success, output) = tools.execute(tool.as_str(), &args);
                state.add_tool_result(tool.as_str(), success, output.as_str());
                let mut note = text::str_to_chars("Called tool ");
                let tv = text::str_to_chars(tool.as_str());
                text::push_all(&mut note, &tv);
                let mid = text::str_to_chars(" with args: ");
                text::push_all(&mut note, &mid);
                let at = args.write_chars();
                text::push_all(&mut note, &at);
                let note_text = text::chars_to_string(&note);
                state.add_assistant_message(note_text.as_str());
                tool_calls = tool_calls + 1;
            }
        }
    }
}

} // verus!
