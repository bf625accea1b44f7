use intent_router::actions::{AgentAction, parse_agent_action};
use intent_router::agent::{
    AgentConfig, AgentOutcome, ConversationState, LlmClient, Message, MessageRole, ToolExecutor,
    render_agent_prompt, run_agent_loop,
};
use intent_router::json::JsonModel;

#[test]
fn test_parse_agent_action_call_tool() {
    let json = r#"{"action": "call_tool", "tool": "get_weather", "args": {"location": "NYC"}}"#;
    let action = parse_agent_action(json).unwrap();
    match action {
        AgentAction::CallTool { tool, args } => {
            assert_eq!(tool, "get_weather");
            let loc = args.get("location").and_then(|v| v.as_str().cloned());
            assert_eq!(loc, Some("NYC".to_string()));
        }
        _ => panic!("Expected CallTool action"),
    }
}

#[test]
fn test_parse_agent_action_final_answer() {
    let json = r#"{"action": "final_answer", "answer": "The weather is sunny."}"#;
    let action = parse_agent_action(json).unwrap();
    match action {
        AgentAction::FinalAnswer { answer } => {
            assert_eq!(answer, "The weather is sunny.");
        }
        _ => panic!("Expected FinalAnswer action"),
    }
}

#[test]
fn test_parse_agent_action_ask_user() {
    let json = r#"{"action": "ask_user", "question": "Which city?"}"#;
    let action = parse_agent_action(json).unwrap();
    match action {
        AgentAction::AskUser { question } => {
            assert_eq!(question, "Which city?");
        }
        _ => panic!("Expected AskUser action"),
    }
}

#[test]
fn test_parse_agent_action_with_surrounding_text() {
    let text = r#"Let me check the weather.
        {"action": "call_tool", "tool": "get_weather", "args": {"location": "Seattle"}}
        "#;
    let action = parse_agent_action(text).unwrap();
    match action {
        AgentAction::CallTool { tool, .. } => {
            assert_eq!(tool, "get_weather");
        }
        _ => panic!("Expected CallTool action"),
    }
}

#[test]
fn test_parse_agent_action_scenario() {
    let text = "Let me check.\n{\"action\":\"call_tool\",\"tool\":\"get_weather\",\"args\":{\"location\":\"Seattle\"}}\n";
    let action = parse_agent_action(text).unwrap();
    match action {
        AgentAction::CallTool { tool, args } => {
            assert_eq!(tool, "get_weather");
            let loc = args.get("location").and_then(|v| v.as_str().cloned());
            assert_eq!(loc, Some("Seattle".to_string()));
        }
        _ => panic!("Expected CallTool action"),
    }
}

#[test]
fn test_parse_agent_action_last_wins() {
    let text = r#"Draft: {"action": "ask_user", "question": "draft?"}
        Final: {"action": "final_answer", "answer": "done"}"#;
    let action = parse_agent_action(text).unwrap();
    match action {
        AgentAction::FinalAnswer { answer } => assert_eq!(answer, "done"),
        _ => panic!("Expected the last valid action"),
    }
}

#[test]
fn test_parse_agent_action_no_action_fails() {
    let err = parse_agent_action("no json here at all").unwrap_err();
    assert_eq!(err.message(), "No valid agent action JSON found in LLM output");
    assert!(parse_agent_action("{\"not\": \"an action\"}").is_err());
}

#[test]
fn test_parse_agent_action_braces_inside_strings() {
    let text = r#"{"action": "final_answer", "answer": "curly {brace} and \" quote"}"#;
    let action = parse_agent_action(text).unwrap();
    match action {
        AgentAction::FinalAnswer { answer } => {
            assert_eq!(answer, "curly {brace} and \" quote");
        }
        _ => panic!("Expected FinalAnswer action"),
    }
}

#[test]
fn test_conversation_state_format() {
    let mut state = ConversationState::new(10);
    state.add_user_message("What's the weather in NYC?");
    state.add_tool_result("get_weather", true, "Sunny, 72F");
    state.add_assistant_message("The weather in NYC is sunny with 72F.");

    let formatted = state.format_for_llm();
    assert!(formatted.contains("USER:"));
    assert!(formatted.contains("TOOL_RESULT:"));
    assert!(formatted.contains("ASSISTANT:"));
    assert!(formatted.contains("What's the weather in NYC?"));
    assert!(formatted.contains("Sunny, 72F"));
}

#[test]
fn test_message_constructors() {
    let user = Message::user("Hello");
    assert_eq!(user.role, MessageRole::User);
    assert_eq!(user.content, "Hello");
    assert!(user.tool_result.is_none());

    let tool = Message::tool("weather", true, "Sunny");
    assert_eq!(tool.role, MessageRole::Tool);
    assert!(tool.tool_result.is_some());
    let tr = tool.tool_result.unwrap();
    assert_eq!(tr.tool, "weather");
    assert!(tr.success);
    assert_eq!(tr.output, "Sunny");
}

#[test]
fn test_transcript_format_exact() {
    let mut state = ConversationState::new(5);
    state.add_user_message("hi");
    state.add_assistant_message("hello");
    assert_eq!(state.format_for_llm(), "USER:\nhi\n\nASSISTANT:\nhello");
}

struct AlwaysCallTool {
    calls: u32,
}

impl LlmClient for AlwaysCallTool {
    fn complete(&mut self, _prompt: &str) -> Result<String, String> {
        self.calls += 1;
        Ok(r#"{"action": "call_tool", "tool": "get_weather", "args": {"location": "NYC"}}"#
            .to_string())
    }
}

struct CountingExecutor {
    calls: u32,
}

impl ToolExecutor for CountingExecutor {
    fn execute(&mut self, tool: &str, _args: &JsonModel) -> (bool, String) {
        self.calls += 1;
        (true, format!("[stub] ran {}", tool))
    }
}

#[test]
fn test_agent_loop_bound_three_turns() {
    let config = AgentConfig {
        max_turns: 3,
        verbose: false,
        use_memory: false,
    };
    let mut llm = AlwaysCallTool { calls: 0 };
    let mut tools = CountingExecutor { calls: 0 };
    let result = run_agent_loop("check the weather", &config, "You call tools.", &mut llm, &mut tools)
        .unwrap();
    assert_eq!(tools.calls, 3);
    assert_eq!(result.tool_calls, 3);
    assert_eq!(result.turns_used, 3);
    assert_eq!(result.outcome, AgentOutcome::MaxTurnsReached);
    assert!(result.answer.starts_with("Max turns (3) reached. Last context: "));
}

struct AnswerImmediately;

impl LlmClient for AnswerImmediately {
    fn complete(&mut self, _prompt: &str) -> Result<String, String> {
        Ok(r#"{"action": "final_answer", "answer": "All done."}"#.to_string())
    }
}

#[test]
fn test_agent_loop_final_answer() {
    let config = AgentConfig::default();
    let mut llm = AnswerImmediately;
    let mut tools = CountingExecutor { calls: 0 };
    let result = run_agent_loop("hello", &config, "sys", &mut llm, &mut tools).unwrap();
    assert_eq!(result.answer, "All done.");
    assert_eq!(result.outcome, AgentOutcome::Answered);
    assert_eq!(result.turns_used, 1);
    assert_eq!(tools.calls, 0);
}

struct AsksUser;

impl LlmClient for AsksUser {
    fn complete(&mut self, _prompt: &str) -> Result<String, String> {
        Ok(r#"{"action": "ask_user", "question": "Which city?"}"#.to_string())
    }
}

#[test]
fn test_agent_loop_ask_user_terminal() {
    let config = AgentConfig::default();
    let mut llm = AsksUser;
    let mut tools = CountingExecutor { calls: 0 };
    let result = run_agent_loop("weather please", &config, "sys", &mut llm, &mut tools).unwrap();
    assert_eq!(result.answer, "Need more information: Which city?");
    assert_eq!(result.outcome, AgentOutcome::AskedUser);
}

struct Gibberish;

impl LlmClient for Gibberish {
    fn complete(&mut self, _prompt: &str) -> Result<String, String> {
        Ok("I have no idea what to do".to_string())
    }
}

#[test]
fn test_agent_loop_parse_failure_is_error() {
    let config = AgentConfig::default();
    let mut llm = Gibberish;
    let mut tools = CountingExecutor { calls: 0 };
    assert!(run_agent_loop("hm", &config, "sys", &mut llm, &mut tools).is_err());
}

struct FailingLlm;

impl LlmClient for FailingLlm {
    fn complete(&mut self, _prompt: &str) -> Result<String, String> {
        Err("connection refused".to_string())
    }
}

#[test]
fn test_agent_loop_llm_failure_is_error() {
    let config = AgentConfig::default();
    let mut llm = FailingLlm;
    let mut tools = CountingExecutor { calls: 0 };
    assert!(run_agent_loop("hm", &config, "sys", &mut llm, &mut tools).is_err());
    assert_eq!(tools.calls, 0);
}

#[test]
fn test_render_agent_prompt_today_and_tools() {
    let template = "Hello.\nToday's date is {{TODAY}}.\n\n## Available Tools\n- old: stale\n\n## Rules\nBe brief.\n";
    let lines = vec![
        "- get_weather: Weather for a location".to_string(),
        "- search_notes: Search notes".to_string(),
    ];
    let rendered = render_agent_prompt(template, "2026-02-01", &lines);
    assert!(rendered.contains("Today's date is 2026-02-01."));
    assert!(rendered.contains("- get_weather: Weather for a location\n- search_notes: Search notes"));
    assert!(!rendered.contains("- old: stale"));
    assert!(rendered.contains("## Rules\nBe brief."));
}

#[test]
fn test_render_agent_prompt_without_tools_keeps_section() {
    let template = "Date: {{TODAY}}\n## Available Tools\n- old: stale\n";
    let rendered = render_agent_prompt(template, "2026-02-01", &Vec::new());
    assert_eq!(rendered, "Date: 2026-02-01\n## Available Tools\n- old: stale\n");
}
