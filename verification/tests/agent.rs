//! Whole runs: the loop's decisions, played against a scripted model and
//! scripted tools.

use synonz::bus::MemoryFlowFailedMoment;
use synonz::conversation::{ConversationIds, ConversationStoreError};
use synonz::event::MemoryFlowStage;
use synonz::tool_round::{panicked, ToolRound};
use serde_json::Value;
use synonz::agent::{
    execution_event, find_tool, Agent, AgentBuilder, AgentRunner, REFLECTION_SYSTEM_PROMPT,
    RESEARCH_MAX_ROUNDS, RESEARCH_SYSTEM_PROMPT,
};
use synonz::agent_loop::{AgentLoop, LoopAction, LoopInput};
use synonz::bus::{
    BusItem, DispatchAction, DispatchInput, Dispatcher, EventBus, EventSink, ExecutionIds,
    MemoryEvent, SynonzEvent,
};
use synonz::cancel::{CancelCore, CancelOutcome};
use synonz::inprocess::{archive_window, assemble_window, InProcessTurnStore};
use synonz::mock::{MockModel, Script};
use synonz::tool::{soften, unknown_tool};
use tokio::sync::mpsc;
use synonz::{
    validate_conversation, AgentError, AgentOutput, CallId, CancelReason, ContentBlock,
    Conversation, ExecutionEvent, LifecycleEvent, Message, ModelDelta, ModelError, ModelEvent,
    ModelRequest, ModelStreamItem, Role, Subject, SubjectType, SynonzRuntime, TokenUsage, Tool,
    ToolCall, ToolContent, ToolError, ToolEvent, ToolResult, ToolSpec, TurnEvent, TurnOutcome,
};

const NOW: u64 = 1_700_000_000;

fn object(fields: &[(&str, &str)]) -> Value {
    let mut map = serde_json::Map::new();
    for (name, value) in fields {
        map.insert(name.to_string(), Value::String(value.to_string()));
    }
    Value::Object(map)
}

/// A tool with a scripted outcome; `rank` orders completions.
struct StubTool {
    name: &'static str,
    schema: Value,
    outcome: fn() -> Result<ToolResult, ToolError>,
    rank: usize,
}

impl StubTool {
    fn new(name: &'static str, rank: usize, outcome: fn() -> Result<ToolResult, ToolError>) -> Self {
        StubTool {
            name,
            schema: object(&[("type", "object")]),
            outcome,
            rank,
        }
    }
}

impl Tool for StubTool {
    fn name(&self) -> &str {
        self.name
    }
    fn description(&self) -> &str {
        "stub tool for tests"
    }
    fn parameters_schema(&self) -> &Value {
        &self.schema
    }
}

fn ok_text(text: &str) -> Result<ToolResult, ToolError> {
    Ok(ToolResult::Success {
        content: ToolContent::Text { text: text.into() },
    })
}

fn sunny() -> Result<ToolResult, ToolError> {
    ok_text("sunny, 28C")
}

fn broken() -> Result<ToolResult, ToolError> {
    Err(ToolError::Execution {
        message: "machinery broke".into(),
    })
}

/// What a run does with its model.
enum Backend<'a> {
    Scripted(&'a mut MockModel),
    /// Yields the items and then stays pending.
    Stalling(Vec<ModelStreamItem>),
    Failing(&'a str),
}

/// The environment of the runs of one test.
struct World {
    runtime: SynonzRuntime,
    ids: ConversationIds,
    turns: InProcessTurnStore,
    subject: Subject,
}

impl World {
    fn new() -> World {
        World {
            runtime: SynonzRuntime::builder().build(0),
            ids: ConversationIds::new(),
            turns: InProcessTurnStore::new(),
            subject: Subject::of(SubjectType::User, "u-test"),
        }
    }

    fn conversation(&mut self) -> Conversation {
        let subject = Subject::of(SubjectType::User, "u-test");
        Conversation::new(&mut self.runtime, &subject, &mut self.ids, 1, NOW).0
    }
}

/// What one run left.
struct Ran {
    events: Vec<TurnEvent>,
    stream: mpsc::UnboundedReceiver<TurnEvent>,
    narrative: Vec<ExecutionEvent>,
    rounds: usize,
    result: Result<AgentOutput, AgentError>,
    reports: Vec<MemoryEvent>,
    maintained: usize,
}

type TestAgent = Agent<u8, (), StubTool>;

fn builder() -> AgentBuilder<u8, (), StubTool> {
    Agent::builder().runtime(&7).model(())
}

/// Drives a run to its end. A hanging model is cut off by `interruption`;
/// the consumer leaves after so many events, which fires the signal.
fn drive(
    world: &mut World,
    conv: &mut Conversation,
    agent: &TestAgent,
    mut backend: Backend,
    text: &str,
    interruption: CancelOutcome,
    patience: usize,
) -> Ran {
    let specs: Vec<ToolSpec> = agent.tools.iter().map(ToolSpec::for_tool).collect();
    let names: Vec<String> = agent.tools.iter().map(|tool| tool.name().to_string()).collect();
    let (input, _) = conv.turn_input(text).into_parts();
    let (mut run, mut action) = AgentLoop::start(
        input,
        agent.system_prompt.clone(),
        specs,
        agent.max_rounds,
    );
    let (sender, stream) = mpsc::unbounded_channel();
    let mut ran = Ran {
        events: Vec::new(),
        stream,
        narrative: Vec::new(),
        rounds: 0,
        result: Err(AgentError::MaxRoundsExceeded),
        reports: Vec::new(),
        maintained: 0,
    };
    let mut runner = AgentRunner::new();
    let mut script: Option<std::collections::VecDeque<ModelStreamItem>> = None;
    let mut stalls = false;
    let mut running: Vec<ToolCall> = Vec::new();
    loop {
        let input = match action {
            LoopAction::Emit(event) => {
                let delivered = ran.events.len() < patience;
                if delivered {
                    sender.send(event.clone()).unwrap();
                    runner.note(&event);
                    if let Some(shown) = execution_event(event.clone()) {
                        ran.narrative.push(shown);
                    }
                }
                ran.events.push(event);
                LoopInput::Sent(delivered)
            }
            LoopAction::Assemble => LoopInput::Assembled(
                assemble_window(&world.turns, &world.subject, conv.id(), text, None).messages,
            ),
            LoopAction::CheckCancelled => {
                let left = ran.events.len() >= patience;
                LoopInput::CancelChecked(left.then_some(interruption))
            }
            LoopAction::OpenModel(request) => match &mut backend {
                Backend::Stalling(items) => {
                    script = Some(std::mem::take(items).into());
                    stalls = true;
                    LoopInput::Opened
                }
                Backend::Failing(message) => LoopInput::OpenFailed(ModelError::Transport {
                    message: message.to_string(),
                }),
                Backend::Scripted(model) => {
                    script = match model.stream(request) {
                        Script::Items(items) => Some(items.into()),
                        Script::Hang => None,
                    };
                    LoopInput::Opened
                }
            },
            LoopAction::PollModel => match &mut script {
                Some(items) if !stalls || !items.is_empty() => {
                    LoopInput::Item(items.pop_front())
                }
                Some(_) => LoopInput::Cancelled(interruption),
                None => LoopInput::Cancelled(interruption),
            },
            LoopAction::RunTools(calls) => {
                running = calls;
                finish_next(agent, &names, &mut running)
            }
            LoopAction::AwaitTool => finish_next(agent, &names, &mut running),
            LoopAction::Record(turn) => {
                conv.push_turn(turn);
                conv.save(&mut world.runtime, NOW).unwrap();
                LoopInput::Recorded(None)
            }
            LoopAction::Report(fact) => {
                ran.reports.push(fact);
                LoopInput::Reported
            }
            LoopAction::Maintain { frame, responses } => {
                assert!(!frame.is_empty());
                archive_window(&mut world.turns, &world.subject, conv.id(), text, &responses);
                ran.maintained += 1;
                LoopInput::Maintained
            }
            LoopAction::Stop => break,
        };
        action = run.step(input);
    }
    drop(sender);
    ran.rounds = runner.rounds();
    if let Some(result) = runner.poll_result() {
        ran.result = result;
    }
    ran
}

/// The running call with the lowest rank finishes next.
fn finish_next(agent: &TestAgent, names: &Vec<String>, running: &mut Vec<ToolCall>) -> LoopInput {
    let rank = |call: &ToolCall| find_tool(names, &call.name).map_or(0, |i| agent.tools[i].rank);
    let Some(place) = (0..running.len()).min_by_key(|&i| rank(&running[i])) else {
        return LoopInput::ToolsDrained;
    };
    let call = running.remove(place);
    let result = match find_tool(names, &call.name) {
        Some(i) => soften((agent.tools[i].outcome)()),
        None => unknown_tool(&call.name),
    };
    LoopInput::ToolFinished {
        call_id: call.call_id,
        result,
    }
}

fn run_scripted(
    world: &mut World,
    conv: &mut Conversation,
    agent: &TestAgent,
    model: &mut MockModel,
    text: &str,
) -> Ran {
    drive(
        world,
        conv,
        agent,
        Backend::Scripted(model),
        text,
        CancelOutcome::Signal,
        usize::MAX,
    )
}

fn finish_text(text: &str) -> ModelStreamItem {
    ModelStreamItem::Finish {
        message: Message::assistant_text(text),
        usage: TokenUsage::new(10, 5),
    }
}

fn finish_with_call(call_id: &str, tool: &str, city: &str) -> ModelStreamItem {
    ModelStreamItem::Finish {
        message: Message::new(
            Role::Assistant,
            vec![ContentBlock::ToolCall(ToolCall::new(
                call_id,
                tool,
                object(&[("city", city)]),
            ))],
        ),
        usage: TokenUsage::new(10, 5),
    }
}

fn is_terminal(event: &ExecutionEvent) -> bool {
    matches!(
        event,
        ExecutionEvent::Completed(_) | ExecutionEvent::Failed(_) | ExecutionEvent::Cancelled(_)
    )
}

fn assert_terminal_invariant(events: &[ExecutionEvent]) {
    assert_eq!(
        events.iter().filter(|event| is_terminal(event)).count(),
        1,
        "exactly one terminal event expected: {events:?}"
    );
    assert!(
        events.last().is_some_and(is_terminal),
        "last event must be terminal: {events:?}"
    );
}

fn says(message: &Message, wanted: &str) -> bool {
    message
        .blocks
        .iter()
        .any(|block| matches!(block, ContentBlock::Text { text } if text == wanted))
}

fn text_of(message: &Message) -> Option<String> {
    let text: String = message
        .blocks
        .iter()
        .filter_map(|block| match block {
            ContentBlock::Text { text } => Some(text.clone()),
            _ => None,
        })
        .collect();
    (!text.is_empty()).then_some(text)
}

#[test]
fn single_round_completes() {
    let mut world = World::new();
    let mut conv = world.conversation();
    let agent = builder().system_prompt("weather assistant").build().unwrap();
    let mut model = MockModel::finishing_with_text("beijing is sunny, 28C.");

    let ran = run_scripted(&mut world, &mut conv, &agent, &mut model, "weather?");

    assert_terminal_invariant(&ran.narrative);
    // Input-side payloads stay on the observation side; the single-round
    // narrative is just the terminal.
    assert_eq!(ran.narrative.len(), 1);
    assert!(matches!(&ran.narrative[0], ExecutionEvent::Completed(_)));
    // Truth archive: the completed turn is in the history with its output.
    assert_eq!(conv.len(), 1);
    assert!(conv.turns()[0].output().is_some());
    // The request starts with the system prompt.
    assert_eq!(
        model.requests()[0].messages[0],
        Message::system("weather assistant")
    );
}

#[test]
fn run_returns_final_output() {
    let mut world = World::new();
    let mut conv = world.conversation();
    let agent = builder().build().unwrap();
    let mut model = MockModel::finishing_with_text("sunny, 28C.");

    let output = run_scripted(&mut world, &mut conv, &agent, &mut model, "weather?")
        .result
        .unwrap();
    assert_eq!(output.text(), Some("sunny, 28C."));
    assert_eq!(output.usage.input_tokens, 1);
}

#[test]
fn completed_turns_archive_the_final_answer() {
    let mut world = World::new();
    let mut conv = world.conversation();
    let mut model = MockModel::new(vec![
        vec![finish_text("periodic answer")],
        vec![finish_text("new year answer")],
    ]);
    let agent = builder().build().unwrap();

    let first = run_scripted(&mut world, &mut conv, &agent, &mut model, "periodic table?");
    assert_eq!(first.result.unwrap().text(), Some("periodic answer"));

    // The archived turn carries the user message AND the assistant answer.
    assert!(conv.turns()[0]
        .messages
        .iter()
        .any(|message| message.role == Role::Assistant && says(message, "periodic answer")));

    let second = run_scripted(&mut world, &mut conv, &agent, &mut model, "new year?");
    assert_eq!(second.result.unwrap().text(), Some("new year answer"));

    // The second request replays the first answer into the model context.
    let requests = model.requests();
    assert_eq!(requests.len(), 2);
    assert!(
        requests[1]
            .messages
            .iter()
            .any(|message| message.role == Role::Assistant && says(message, "periodic answer")),
        "the previous answer must be part of the next request"
    );
}

#[test]
fn tool_loop_feeds_results_back() {
    let mut world = World::new();
    let mut conv = world.conversation();
    let mut model = MockModel::new(vec![
        vec![finish_with_call("x1", "weather", "beijing")],
        vec![finish_text("beijing is sunny, 28C.")],
    ]);
    let agent = builder().tool(StubTool::new("weather", 0, sunny)).build().unwrap();

    let ran = run_scripted(&mut world, &mut conv, &agent, &mut model, "weather?");

    assert_terminal_invariant(&ran.narrative);
    // Two reasoning rounds happened.
    assert_eq!(ran.rounds, 2);
    // Tool activity is visible.
    assert!(ran.narrative.iter().any(|e| matches!(
        e,
        ExecutionEvent::ToolRequested(call) if call.call_id == CallId::new("x1")
    )));
    assert!(ran.narrative.iter().any(|e| matches!(
        e,
        ExecutionEvent::ToolCompleted { result, .. }
            if matches!(result, ToolResult::Success { .. })
    )));
    // The second request contained the tool result message.
    let requests = model.requests();
    assert_eq!(requests.len(), 2);
    assert!(
        requests[1].messages.iter().any(|m| m.role == Role::Tool),
        "tool result message must be fed back to the model"
    );
    // And the run completed.
    assert!(matches!(
        ran.narrative.last(),
        Some(ExecutionEvent::Completed(_))
    ));
}

#[test]
fn parallel_tools_pair_by_call_id_and_keep_conversation_order() {
    let mut world = World::new();
    let mut conv = world.conversation();
    let mut model = MockModel::new(vec![
        vec![ModelStreamItem::Finish {
            message: Message::new(
                Role::Assistant,
                vec![
                    ContentBlock::ToolCall(ToolCall::new("a", "t1", object(&[]))),
                    ContentBlock::ToolCall(ToolCall::new("b", "t2", object(&[]))),
                ],
            ),
            usage: TokenUsage::new(10, 5),
        }],
        vec![finish_text("both done")],
    ]);
    fn slow() -> Result<ToolResult, ToolError> {
        ok_text("slow result")
    }
    let agent = builder()
        .tool(StubTool::new("t1", 80, slow))
        .tool(StubTool::new("t2", 5, slow))
        .build()
        .unwrap();

    let ran = run_scripted(&mut world, &mut conv, &agent, &mut model, "go");

    assert_terminal_invariant(&ran.narrative);

    // Completion-order events: the fast tool (b) completes first.
    let completions: Vec<String> = ran
        .narrative
        .iter()
        .filter_map(|e| match e {
            ExecutionEvent::ToolCompleted { call_id, .. } => Some(call_id.as_str().to_string()),
            _ => None,
        })
        .collect();
    assert_eq!(completions, vec!["b", "a"]);

    // Deterministic conversation order: call order (a then b).
    let tool_messages: Vec<&Message> = model.requests()[1]
        .messages
        .iter()
        .filter(|m| m.role == Role::Tool)
        .collect();
    assert_eq!(tool_messages.len(), 2);
    assert!(
        matches!(&tool_messages[0].blocks[0], ContentBlock::ToolResult { call_id, .. } if call_id.as_str() == "a")
    );
    assert!(
        matches!(&tool_messages[1].blocks[0], ContentBlock::ToolResult { call_id, .. } if call_id.as_str() == "b")
    );
}

#[test]
fn soft_failure_is_fed_back_not_fatal() {
    let mut world = World::new();
    let mut conv = world.conversation();
    let mut model = MockModel::new(vec![
        vec![finish_with_call("x1", "broken", "{}")],
        vec![finish_text("recovered")],
    ]);
    let agent = builder().tool(StubTool::new("broken", 0, broken)).build().unwrap();

    let ran = run_scripted(&mut world, &mut conv, &agent, &mut model, "go");

    assert_terminal_invariant(&ran.narrative);
    // The run did NOT fail: two rounds happened and the run completed.
    assert!(matches!(
        ran.narrative.last(),
        Some(ExecutionEvent::Completed(_))
    ));
    // The machinery error was converted to a soft failure for the model.
    assert!(ran.narrative.iter().any(|e| matches!(
        e,
        ExecutionEvent::ToolCompleted { result, .. }
            if matches!(result, ToolResult::Failure { message } if message.contains("machinery broke"))
    )));
    // The model saw the failure text.
    assert!(model.requests()[1].messages.iter().any(|m| {
        m.role == Role::Tool
            && m.blocks.iter().any(|b| {
                matches!(
                    b,
                    ContentBlock::ToolResult {
                        result: ToolResult::Failure { .. },
                        ..
                    }
                )
            })
    }));
}

#[test]
fn unknown_tool_is_soft_failure() {
    let mut world = World::new();
    let mut conv = world.conversation();
    let mut model = MockModel::new(vec![
        vec![finish_with_call("x1", "nonexistent", "{}")],
        vec![finish_text("ok, skipping that")],
    ]);
    let agent = builder().build().unwrap();

    let ran = run_scripted(&mut world, &mut conv, &agent, &mut model, "go");
    assert_terminal_invariant(&ran.narrative);
    assert!(ran.narrative.iter().any(|e| matches!(
        e,
        ExecutionEvent::ToolCompleted { result, .. }
            if matches!(result, ToolResult::Failure { message } if message.contains("unknown tool"))
    )));
    assert!(matches!(
        ran.narrative.last(),
        Some(ExecutionEvent::Completed(_))
    ));
}

#[test]
fn max_rounds_exceeded_fails_explicitly() {
    let mut world = World::new();
    let mut conv = world.conversation();
    // The model always wants another tool call; the budget must stop it.
    let mut model = MockModel::new(vec![
        vec![finish_with_call("x1", "weather", "beijing")],
        vec![finish_with_call("x2", "weather", "shanghai")],
    ]);
    fn plain_sunny() -> Result<ToolResult, ToolError> {
        ok_text("sunny")
    }
    let agent = builder()
        .tool(StubTool::new("weather", 0, plain_sunny))
        .max_rounds(1)
        .build()
        .unwrap();

    let ran = run_scripted(&mut world, &mut conv, &agent, &mut model, "weather everywhere");

    assert_terminal_invariant(&ran.narrative);
    assert!(matches!(
        ran.narrative.last(),
        Some(ExecutionEvent::Failed(AgentError::MaxRoundsExceeded))
    ));
    assert_eq!(ran.rounds, 1);
    // Truth archive: the failed turn is in the history, marked.
    assert_eq!(conv.turns().len(), 1);
    assert!(matches!(
        conv.turns()[0].outcome,
        TurnOutcome::Failed(AgentError::MaxRoundsExceeded)
    ));
    // The memory was NOT fed from the failed turn.
    assert_eq!(ran.maintained, 0);
    assert!(world.turns.recent(&world.subject, conv.id()).is_empty());
    let retried = run_scripted(&mut world, &mut conv, &agent, &mut model, "weather everywhere");
    assert!(matches!(retried.result, Err(AgentError::MaxRoundsExceeded)));
}

#[test]
fn cancel_by_external_signal() {
    let mut world = World::new();
    let mut conv = world.conversation();
    let agent = builder().build().unwrap();
    let mut model = MockModel::hanging();

    let mut ran = run_scripted(&mut world, &mut conv, &agent, &mut model, "go");
    // On the narrative face the first surfaced event is already the
    // cancellation terminal.
    assert_eq!(
        ran.narrative,
        vec![ExecutionEvent::Cancelled(CancelReason::UserRequested)]
    );
    let mut cancelled = None;
    while let Ok(event) = ran.stream.try_recv() {
        if let TurnEvent::Lifecycle(LifecycleEvent::Cancelled { reason }) = event {
            cancelled = Some(reason);
            break;
        }
    }
    assert_eq!(cancelled, Some(CancelReason::UserRequested));
    assert_eq!(
        ran.stream.try_recv(),
        Err(mpsc::error::TryRecvError::Disconnected),
        "stream closes after terminal"
    );
    // Truth archive: the cancelled turn is in the history, marked.
    assert_eq!(conv.turns().len(), 1);
    assert!(matches!(
        conv.turns()[0].outcome,
        TurnOutcome::Cancelled(CancelReason::UserRequested)
    ));
}

#[test]
fn cancel_by_timeout() {
    let mut world = World::new();
    let mut conv = world.conversation();
    let agent = builder().build().unwrap();
    let mut model = MockModel::hanging();

    let ran = drive(
        &mut world,
        &mut conv,
        &agent,
        Backend::Scripted(&mut model),
        "go",
        CancelOutcome::Timeout,
        usize::MAX,
    );

    assert_terminal_invariant(&ran.narrative);
    assert!(matches!(
        ran.narrative.last(),
        Some(ExecutionEvent::Cancelled(CancelReason::Timeout))
    ));
    // Truth archive: the timed-out turn is in the history, marked.
    assert_eq!(conv.turns().len(), 1);
    assert!(matches!(
        conv.turns()[0].outcome,
        TurnOutcome::Cancelled(CancelReason::Timeout)
    ));
}

#[test]
fn model_failure_fails_the_run() {
    let mut world = World::new();
    let mut conv = world.conversation();
    let agent = builder().build().unwrap();

    let ran = drive(
        &mut world,
        &mut conv,
        &agent,
        Backend::Failing("connection reset"),
        "go",
        CancelOutcome::Signal,
        usize::MAX,
    );

    assert_terminal_invariant(&ran.narrative);
    assert!(matches!(
        ran.narrative.last(),
        Some(ExecutionEvent::Failed(AgentError::Model(
            ModelError::Transport { .. }
        )))
    ));
}

#[test]
fn build_without_model_is_invalid_configuration() {
    let unset: AgentBuilder<u8, (), StubTool> = Agent::builder();
    let error = match unset.build() {
        Err(error) => error,
        Ok(_) => panic!("build without a model must fail"),
    };
    assert!(matches!(error, AgentError::InvalidConfiguration { .. }));
}

#[test]
fn build_without_runtime_is_invalid_configuration() {
    let unset: AgentBuilder<u8, MockModel, StubTool> = Agent::builder();
    let error = match unset.model(MockModel::finishing_with_text("hi")).build() {
        Err(error) => error,
        Ok(_) => panic!("build without a runtime must fail"),
    };
    assert!(matches!(error, AgentError::InvalidConfiguration { .. }));
}

#[test]
fn react_is_the_bare_default() {
    let builder = Agent::react(&7u8, (), vec![1, 2]);
    assert_eq!(builder.system_prompt, None);
    assert_eq!(builder.max_rounds, None);
    assert_eq!(builder.tools.len(), 2);
}

#[test]
fn research_sets_prompt_and_round_budget() {
    let builder = Agent::research(&7u8, (), vec![1, 2]);
    assert_eq!(
        builder.system_prompt.as_deref(),
        Some(RESEARCH_SYSTEM_PROMPT)
    );
    assert_eq!(builder.max_rounds, Some(RESEARCH_MAX_ROUNDS));
    assert_eq!(builder.tools.len(), 2);
}

#[test]
fn reflection_sets_prompt_without_tools() {
    let builder: AgentBuilder<u8, (), u8> = Agent::reflection(&7u8, ());
    assert_eq!(
        builder.system_prompt.as_deref(),
        Some(REFLECTION_SYSTEM_PROMPT)
    );
    assert_eq!(builder.max_rounds, None);
    assert!(builder.tools.is_empty());
}

#[test]
fn extend_system_prompt_composes_and_creates() {
    let builder: AgentBuilder<u8, (), u8> = AgentBuilder::new().extend_system_prompt("first");
    assert_eq!(builder.system_prompt.as_deref(), Some("first"));
    let builder = builder.extend_system_prompt("second");
    assert_eq!(builder.system_prompt.as_deref(), Some("first\n\nsecond"));
}

#[test]
fn extend_works_on_top_of_presets() {
    let builder = Agent::research(&7u8, (), vec![1, 2]).extend_system_prompt("prefer chinese sources");
    assert_eq!(
        builder.system_prompt.as_deref(),
        Some(&format!("{RESEARCH_SYSTEM_PROMPT}\n\nprefer chinese sources")[..])
    );
}

#[test]
fn system_prompt_overrides_presets() {
    let builder = Agent::research(&7u8, (), vec![1, 2]).system_prompt("custom");
    assert_eq!(builder.system_prompt.as_deref(), Some("custom"));
}

#[test]
fn research_preset_drives_a_full_run() {
    let mut world = World::new();
    let mut conv = world.conversation();
    let mut model = MockModel::new(vec![vec![ModelStreamItem::Finish {
        message: Message::assistant_text("found the answer"),
        usage: TokenUsage::new(1, 1),
    }]]);
    let agent = Agent::research(
        &7u8,
        (),
        vec![StubTool::new("stub", 0, sunny), StubTool::new("stub", 0, sunny)],
    )
    .build()
    .unwrap();
    let ran = run_scripted(&mut world, &mut conv, &agent, &mut model, "research x");
    assert_eq!(ran.result.unwrap().text(), Some("found the answer"));
}

#[test]
fn spec_collects_from_dyn_tool() {
    let tool = StubTool::new("echo", 0, sunny);
    let spec = ToolSpec::for_tool(&tool);
    assert_eq!(spec.name, "echo");
    assert_eq!(spec.parameters_schema, object(&[("type", "object")]));
}

fn weather_model(rounds: usize) -> MockModel {
    let mut scripts = Vec::new();
    for _ in 0..rounds {
        scripts.push(vec![ModelStreamItem::Finish {
            message: Message::new(
                Role::Assistant,
                vec![ContentBlock::ToolCall(ToolCall::new(
                    "x1",
                    "weather",
                    object(&[("city", "beijing")]),
                ))],
            ),
            usage: TokenUsage::new(1, 1),
        }]);
        scripts.push(vec![ModelStreamItem::Finish {
            message: Message::assistant_text("sunny"),
            usage: TokenUsage::new(1, 1),
        }]);
    }
    MockModel::new(scripts)
}

fn weather_agent() -> TestAgent {
    builder().tool(StubTool::new("weather", 0, sunny)).build().unwrap()
}

#[test]
fn multi_turn_conversation_remembers_history() {
    let mut world = World::new();
    let agent = weather_agent();
    let mut model = weather_model(2);
    let mut conv = world.conversation();

    // Turn 1 (two model rounds inside one run): tool call + answer.
    let ran = run_scripted(&mut world, &mut conv, &agent, &mut model, "weather?");
    assert_eq!(ran.result.expect("turn 1").text(), Some("sunny"));
    assert_eq!(conv.len(), 1, "completed turn is recorded");

    // Turn 2: the conversation history (turn 1's messages) is replayed.
    let ran = run_scripted(&mut world, &mut conv, &agent, &mut model, "again?");
    assert_eq!(ran.result.expect("turn 2").text(), Some("sunny"));
    assert_eq!(conv.len(), 2);

    // Turn 1's record holds the full round-trip, not just the answer.
    let first = &conv.turns()[0];
    assert_eq!(first.input.text, "weather?");
    assert!(first.messages.iter().any(|m| {
        m.role == Role::Tool
            && m.blocks.iter().any(|b| {
                matches!(
                    b,
                    ContentBlock::ToolResult {
                        result: ToolResult::Success { .. },
                        ..
                    }
                )
            })
    }));
    assert_eq!(first.output().map(|o| o.text()), Some(Some("sunny")));
}

#[test]
fn conversation_flat_history_replays_into_the_model() {
    let mut world = World::new();
    let agent = weather_agent();
    let mut model = weather_model(2);
    let mut conv = world.conversation();

    let _ = run_scripted(&mut world, &mut conv, &agent, &mut model, "one");
    let _ = run_scripted(&mut world, &mut conv, &agent, &mut model, "two");

    // The flattened view is the full canonical conversation: every turn's
    // messages in order, including tool round-trips.
    let flat = conv.messages();
    assert_eq!(flat[0].role, Role::User);
    assert_eq!(flat[0].blocks[0], ContentBlock::Text { text: "one".into() });
    assert!(flat.iter().any(|m| m.role == Role::Assistant));
    assert!(flat.iter().any(|m| m.role == Role::Tool));
}

#[test]
fn cancelled_turns_enter_the_history_marked() {
    let mut world = World::new();
    let agent = builder().build().unwrap();
    let delta = || {
        ModelStreamItem::Delta(ModelDelta::Text {
            text: "beijing ".into(),
        })
    };
    // The consumer drops the handle: before the first event, at the first
    // check, while the model hangs, and behind the delta it has read.
    for (patience, items) in [
        (0, Vec::new()),
        (1, Vec::new()),
        (2, Vec::new()),
        (3, vec![delta()]),
    ] {
        let mut conv = world.conversation();
        let ran = drive(
            &mut world,
            &mut conv,
            &agent,
            Backend::Stalling(items),
            "starts then cancels",
            CancelOutcome::Signal,
            patience,
        );

        // The cancelled turn is recorded, marked with its outcome.
        assert_eq!(conv.turns().len(), 1, "the cancelled turn enters the history");
        assert!(matches!(
            conv.turns()[0].outcome,
            TurnOutcome::Cancelled(CancelReason::UserRequested)
        ));
        assert_eq!(ran.maintained, 0);
        let deltas = ran.events.iter().filter(|event| kind(event) == "delta").count();
        assert_eq!(deltas, usize::from(patience == 3));
    }
}

#[test]
fn a_completed_turn_is_recorded_once_when_its_consumer_leaves() {
    let mut world = World::new();
    let mut conv = world.conversation();
    let agent = builder().build().unwrap();
    let mut model = MockModel::finishing_with_text("done");
    // Three events go out before the terminal one, which nobody takes.
    let ran = drive(
        &mut world,
        &mut conv,
        &agent,
        Backend::Scripted(&mut model),
        "q",
        CancelOutcome::Signal,
        3,
    );
    assert_eq!(ran.events.last().map(kind), Some("completed"));
    assert_eq!(ran.narrative, Vec::new());
    assert_eq!(conv.turns().len(), 1);
    assert!(matches!(conv.turns()[0].outcome, TurnOutcome::Completed(_)));
}

#[test]
fn failed_turns_enter_the_history_marked() {
    let mut world = World::new();
    let agent = builder().build().unwrap();
    let mut conv = world.conversation();

    let ran = drive(
        &mut world,
        &mut conv,
        &agent,
        Backend::Failing("down"),
        "fails",
        CancelOutcome::Signal,
        usize::MAX,
    );
    assert!(matches!(
        ran.result,
        Err(AgentError::Model(ModelError::Transport { .. }))
    ));
    assert_eq!(conv.turns().len(), 1, "the failed turn enters the history");
    assert!(matches!(
        conv.turns()[0].outcome,
        TurnOutcome::Failed(AgentError::Model(_))
    ));
    // The memory is not fed from failed turns.
    assert_eq!(ran.maintained, 0);
    assert!(world.turns.recent(&world.subject, conv.id()).is_empty());
}

#[test]
fn multiple_agents_continue_one_conversation() {
    // A research-flavored agent starts; a writer-flavored agent continues
    // the same conversation.
    let mut world = World::new();
    let researcher = weather_agent();
    let writer = builder().build().unwrap();
    let mut conv = world.conversation();
    let first = run_scripted(
        &mut world,
        &mut conv,
        &researcher,
        &mut weather_model(1),
        "research the weather",
    );
    assert_eq!(first.result.unwrap().text(), Some("sunny"));

    let second = run_scripted(
        &mut world,
        &mut conv,
        &writer,
        &mut weather_model(1),
        "now summarize",
    );
    assert_eq!(second.result.unwrap().text(), Some("sunny"));
    assert_eq!(conv.len(), 2, "both agents' turns live in one conversation");
}

#[test]
fn the_bundled_provider_carries_the_conversation_across_turns() {
    let mut world = World::new();
    let mut model = MockModel::new(vec![
        vec![ModelStreamItem::Finish {
            message: Message::assistant_text("first answer"),
            usage: TokenUsage::new(1, 1),
        }],
        vec![ModelStreamItem::Finish {
            message: Message::assistant_text("second answer"),
            usage: TokenUsage::new(1, 1),
        }],
    ]);
    let agent = builder().build().unwrap();
    let mut conversation = world.conversation();

    run_scripted(&mut world, &mut conversation, &agent, &mut model, "first question");
    let ran = run_scripted(&mut world, &mut conversation, &agent, &mut model, "second question");
    assert_eq!(ran.result.unwrap().text(), Some("second answer"));

    // The second run's frame replayed the first turn: the previous user
    // message and the previous answer precede the current input.
    let turns = conversation.turns();
    assert_eq!(turns.len(), 2);
    let frame = &turns[1].messages;
    assert_eq!(text_of(&frame[0]).as_deref(), Some("first question"));
    assert_eq!(frame[0].role, Role::User);
    assert_eq!(text_of(&frame[1]).as_deref(), Some("first answer"));
    assert_eq!(frame[1].role, Role::Assistant);
    assert_eq!(text_of(&frame[2]).as_deref(), Some("second question"));
    assert_eq!(text_of(&frame[3]).as_deref(), Some("second answer"));
    assert_eq!(turns[1].input.text, "second question");
}

fn streaming_model() -> MockModel {
    MockModel::new(vec![vec![
        ModelStreamItem::Delta(ModelDelta::Text {
            text: "beijing ".into(),
        }),
        ModelStreamItem::Delta(ModelDelta::Text {
            text: "is sunny".into(),
        }),
        ModelStreamItem::Finish {
            message: Message::assistant_text("beijing is sunny"),
            usage: TokenUsage::new(3, 2),
        },
    ]])
}

#[test]
fn execution_streams_narrative_then_resolves_on_await() {
    let mut world = World::new();
    let mut conv = world.conversation();
    let agent = builder().build().unwrap();
    let ran = run_scripted(&mut world, &mut conv, &agent, &mut streaming_model(), "weather?");

    let mut text = String::new();
    for event in &ran.narrative {
        if let ExecutionEvent::Delta(ModelDelta::Text { text: fragment }) = event {
            text.push_str(fragment);
        }
    }
    assert_eq!(text, "beijing is sunny");

    // After full iteration the outcome is still there.
    assert_eq!(ran.result.expect("execution resolves").text(), Some("beijing is sunny"));
}

#[test]
fn execution_awaits_directly_as_one_shot() {
    let mut world = World::new();
    let mut conv = world.conversation();
    let agent = builder().build().unwrap();
    let output = run_scripted(&mut world, &mut conv, &agent, &mut streaming_model(), "weather?")
        .result
        .unwrap();
    assert_eq!(output.text(), Some("beijing is sunny"));
    assert_eq!(output.usage.input_tokens, 3);
}

fn kind(event: &TurnEvent) -> &'static str {
    match event {
        TurnEvent::Lifecycle(LifecycleEvent::Started { .. }) => "started",
        TurnEvent::Lifecycle(LifecycleEvent::Completed { .. }) => "completed",
        TurnEvent::Lifecycle(LifecycleEvent::Failed { .. }) => "failed",
        TurnEvent::Lifecycle(LifecycleEvent::Cancelled { .. }) => "cancelled",
        TurnEvent::Model(ModelEvent::StreamDelta { .. }) => "delta",
        TurnEvent::Model(_) => "model",
        TurnEvent::Tool(_) => "tool",
    }
}

#[test]
fn observer_receives_the_full_stream_in_emission_order() {
    let mut world = World::new();
    let mut conv = world.conversation();
    let agent = builder().build().unwrap();
    let mut model = MockModel::new(vec![
        vec![
            ModelStreamItem::Delta(ModelDelta::Text {
                text: "beijing ".into(),
            }),
            ModelStreamItem::Finish {
                message: Message::assistant_text("beijing is sunny"),
                usage: TokenUsage::new(1, 1),
            },
        ],
        vec![ModelStreamItem::Finish {
            message: Message::assistant_text("done"),
            usage: TokenUsage::new(1, 1),
        }],
    ]);
    let ran = run_scripted(&mut world, &mut conv, &agent, &mut model, "weather?");
    let kinds: Vec<&str> = ran.events.iter().map(kind).collect();
    // Full stream, single round: started, requested, delta, responded,
    // completed. Terminal last; input side visible.
    assert_eq!(
        kinds,
        vec!["started", "model", "delta", "model", "completed"],
        "full stream in emission order"
    );
    // An observer gets the same stream.
    let mut bus = EventBus::new();
    let sink = EventSink::new(ExecutionIds::new().next_execution_id());
    for event in ran.events {
        assert!(sink.emit_turn(&mut bus, event).0);
    }
    let mut receiver = bus.claim_dispatcher().unwrap();
    let mut dispatcher = Dispatcher::new(1);
    let (mut observed, mut lags) = (Vec::new(), Vec::new());
    while let Ok(BusItem::Event { event, .. }) = receiver.try_recv() {
        let mut action = dispatcher.step(DispatchInput::Event);
        loop {
            action = match action {
                DispatchAction::Deliver(_) => {
                    if let SynonzEvent::Turn(event) = &event {
                        observed.push(kind(event));
                    }
                    dispatcher.step(DispatchInput::Called(false))
                }
                DispatchAction::ReadDropped => dispatcher.step(DispatchInput::Dropped(bus.dropped())),
                DispatchAction::Report(_, total) => {
                    lags.push(total);
                    dispatcher.step(DispatchInput::Called(false))
                }
                DispatchAction::Next => break,
            };
        }
    }
    assert_eq!(observed, kinds);
    // No overflow on this small stream.
    assert!(lags.is_empty());
}

#[test]
fn the_turn_archives_the_frame_and_the_responses() {
    let input = synonz::AgentInput::new("original input");
    let (mut run, action) = AgentLoop::start(input, None, Vec::new(), 4);
    assert!(matches!(action, LoopAction::Emit(_)));
    assert!(matches!(run.step(LoopInput::Sent(true)), LoopAction::Assemble));
    let action = run.step(LoopInput::Assembled(vec![Message::user("framed input")]));
    assert!(matches!(action, LoopAction::CheckCancelled));
    assert!(matches!(run.step(LoopInput::CancelChecked(None)), LoopAction::Emit(_)));
    assert!(matches!(run.step(LoopInput::Sent(true)), LoopAction::OpenModel(_)));
    assert!(matches!(run.step(LoopInput::Opened), LoopAction::PollModel));
    let action = run.step(LoopInput::Item(Some(finish_text("the answer"))));
    assert!(matches!(action, LoopAction::Emit(_)));
    let LoopAction::Record(turn) = run.step(LoopInput::Sent(true)) else {
        panic!("the completed turn is recorded");
    };
    assert_eq!(turn.input.text, "original input");
    assert_eq!(turn.messages.len(), 2);
    assert_eq!(text_of(&turn.messages[0]).as_deref(), Some("framed input"));
    assert_eq!(turn.messages[1].role, Role::Assistant);
    assert_eq!(text_of(&turn.messages[1]).as_deref(), Some("the answer"));
}

#[test]
fn usage_adds_up_over_all_calls_of_a_run() {
    let mut world = World::new();
    let mut conv = world.conversation();
    let mut model = MockModel::new(vec![
        vec![finish_with_call("x1", "weather", "beijing")],
        vec![finish_text("done")],
    ]);
    let ran = run_scripted(&mut world, &mut conv, &weather_agent(), &mut model, "go");
    assert_eq!(ran.result.unwrap().usage, TokenUsage::new(20, 10));
}

#[test]
fn recorded_conversations_are_canonical() {
    let mut world = World::new();
    let mut conv = world.conversation();
    let mut model = weather_model(1);
    run_scripted(&mut world, &mut conv, &weather_agent(), &mut model, "weather?");
    assert_eq!(validate_conversation(&conv.messages()), Ok(()));
}

#[test]
fn a_consumer_that_leaves_cancels_the_run() {
    let mut world = World::new();
    let mut conv = world.conversation();
    let agent = builder().build().unwrap();
    // The consumer takes the first three events and leaves at the delta.
    let ran = drive(
        &mut world,
        &mut conv,
        &agent,
        Backend::Scripted(&mut streaming_model()),
        "weather?",
        CancelOutcome::Signal,
        2,
    );
    assert_eq!(conv.turns().len(), 1);
    assert!(matches!(
        conv.turns()[0].outcome,
        TurnOutcome::Cancelled(CancelReason::UserRequested)
    ));
    assert_eq!(ran.maintained, 0);
    assert!(ran.reports.is_empty());
}

#[test]
fn a_failed_save_is_reported_and_the_run_goes_on() {
    let (mut run, _) = AgentLoop::start(synonz::AgentInput::new("q"), None, Vec::new(), 4);
    run.step(LoopInput::Sent(true));
    run.step(LoopInput::Assembled(vec![Message::user("q")]));
    run.step(LoopInput::CancelChecked(None));
    run.step(LoopInput::Sent(true));
    run.step(LoopInput::Opened);
    run.step(LoopInput::Item(Some(finish_text("a"))));
    assert!(matches!(run.step(LoopInput::Sent(true)), LoopAction::Record(_)));
    let failure = ConversationStoreError::Storage("disk".to_string());
    let LoopAction::Report(fact) = run.step(LoopInput::Recorded(Some(failure))) else {
        panic!("the failed save is reported");
    };
    assert_eq!(
        fact,
        MemoryEvent::FlowFailed {
            stage: MemoryFlowStage::Archive,
            detail: "conversation auto-save failed: conversation storage failure: disk".into(),
            moment: MemoryFlowFailedMoment::AfterTurn,
        }
    );
    assert!(matches!(run.step(LoopInput::Reported), LoopAction::Maintain { .. }));
    assert!(matches!(run.step(LoopInput::Maintained), LoopAction::Emit(_)));
    assert!(matches!(run.step(LoopInput::Sent(true)), LoopAction::Stop));
}

#[test]
fn a_premature_end_of_the_stream_fails_the_run() {
    let mut world = World::new();
    let mut conv = world.conversation();
    let agent = builder().build().unwrap();
    let mut model = MockModel::new(Vec::new());
    let ran = run_scripted(&mut world, &mut conv, &agent, &mut model, "go");
    assert!(matches!(ran.result, Err(AgentError::Model(ModelError::Api { .. }))));
    assert_eq!(model.calls(), 1);
}

#[test]
fn a_panicking_tool_fails_its_own_call_and_the_run_goes_on() {
    let call = |id: &str, name: &str| ContentBlock::ToolCall(ToolCall::new(id, name, object(&[])));
    let (mut run, _) = AgentLoop::start(synonz::AgentInput::new("q"), None, Vec::new(), 4);
    run.step(LoopInput::Sent(true));
    run.step(LoopInput::Assembled(vec![Message::user("q")]));
    run.step(LoopInput::CancelChecked(None));
    run.step(LoopInput::Sent(true));
    run.step(LoopInput::Opened);
    let mut action = run.step(LoopInput::Item(Some(ModelStreamItem::Finish {
        message: Message::new(Role::Assistant, vec![call("a", "slow"), call("b", "broken")]),
        usage: TokenUsage::new(1, 1),
    })));
    // b panics while a still runs.
    let mut settled = vec![
        LoopInput::ToolsDrained,
        LoopInput::ToolFinished {
            call_id: CallId::new("a"),
            result: soften(sunny()),
        },
        LoopInput::ToolPanicked {
            call_id: CallId::new("b"),
            detail: "task 7 panicked".into(),
        },
    ];
    let mut completed = Vec::new();
    let request = loop {
        let input = match action {
            LoopAction::Emit(event) => {
                if let TurnEvent::Tool(ToolEvent::CallCompleted { call_id, result, .. }) = event {
                    completed.push((call_id.to_string(), result));
                }
                LoopInput::Sent(true)
            }
            LoopAction::RunTools(calls) => {
                assert_eq!(calls.len(), 2);
                settled.pop().unwrap()
            }
            LoopAction::AwaitTool => settled.pop().unwrap(),
            LoopAction::CheckCancelled => LoopInput::CancelChecked(None),
            LoopAction::OpenModel(request) => break request,
            other => panic!("a round of calls does not ask for {other:?}"),
        };
        action = run.step(input);
    };
    // Each call completed once, with its own result.
    let failed = panicked("task 7 panicked");
    assert!(matches!(&failed, ToolResult::Failure { message } if message == "tool task failed: task 7 panicked"));
    assert_eq!(
        completed,
        vec![
            ("b".to_string(), failed.clone()),
            ("a".to_string(), soften(sunny()))
        ]
    );
    // The next request goes on from the first: the answer, and the results
    // in call order.
    let mut expected = vec![
        Message::user("q"),
        Message::new(Role::Assistant, vec![call("a", "slow"), call("b", "broken")]),
    ];
    expected.push(Message::tool_result("a", soften(sunny())));
    expected.push(Message::tool_result("b", failed));
    assert_eq!(request.messages, expected);
}

#[test]
fn a_round_is_complete_when_every_call_has_its_result() {
    let mut round = ToolRound::new(vec![
        ToolCall::new("a", "t1", object(&[])),
        ToolCall::new("b", "t2", object(&[])),
    ]);
    round.insert(CallId::new("b"), panicked("boom"));
    assert!(!round.is_complete());
    round.insert(CallId::new("a"), unknown_tool("t1"));
    assert!(round.is_complete());
}

#[test]
fn complete_folds_stream_until_finish() {
    let items = vec![
        ModelStreamItem::Delta(ModelDelta::Text { text: "be".into() }),
        ModelStreamItem::Delta(ModelDelta::Text {
            text: "ijing".into(),
        }),
        ModelStreamItem::Finish {
            message: Message::new(
                Role::Assistant,
                vec![ContentBlock::ToolCall(ToolCall::new(
                    CallId::new("x1"),
                    "weather",
                    object(&[]),
                ))],
            ),
            usage: TokenUsage::new(10, 4),
        },
    ];
    let (message, usage) = synonz::complete(items).expect("complete ok");
    assert_eq!(usage, TokenUsage::new(10, 4));
    assert_eq!(message.blocks.len(), 1);
}

#[test]
fn complete_fails_on_premature_stream_end() {
    let items = vec![ModelStreamItem::Delta(ModelDelta::Text {
        text: "partial".into(),
    })];
    let err = synonz::complete(items).expect_err("must fail");
    assert!(matches!(err, ModelError::Api { .. }));
}

#[test]
fn the_mock_plays_its_scripts_in_order() {
    let mut model = MockModel::new(vec![vec![finish_text("one")], vec![finish_text("two")]]);
    let request = || ModelRequest::new(vec![Message::user("q")], Vec::new(), Default::default());
    for wanted in ["one", "two"] {
        let Script::Items(items) = model.stream(request()) else {
            panic!("items are played");
        };
        assert_eq!(items, vec![finish_text(wanted)]);
    }
    assert!(matches!(model.stream(request()), Script::Items(items) if items.is_empty()));
    assert_eq!(model.calls(), 3);
    assert!(matches!(MockModel::hanging().stream(request()), Script::Hang));
}

#[test]
fn concurrent_runs_of_one_agent_are_independent() {
    let mut world = World::new();
    let mut conv_a = world.conversation();
    let mut conv_b = world.conversation();
    let mut model = MockModel::new(vec![
        vec![finish_text("answer-1")],
        vec![finish_text("answer-2")],
    ]);
    let agent = builder().build().unwrap();

    let a = run_scripted(&mut world, &mut conv_a, &agent, &mut model, "q1");
    let b = run_scripted(&mut world, &mut conv_b, &agent, &mut model, "q2");

    let text_a = a.result.unwrap().text().unwrap().to_string();
    let text_b = b.result.unwrap().text().unwrap().to_string();
    let mut answers = vec![text_a, text_b];
    answers.sort();
    assert_eq!(answers, vec!["answer-1", "answer-2"]);
    assert_eq!(model.calls(), 2);
}

#[test]
fn cancel_is_explicit_and_observable() {
    let mut signal = CancelCore::new();
    signal.cancel();
    assert!(signal.is_cancelled());

    let mut runner = AgentRunner::new();
    let mut narrative = Vec::new();
    let (mut run, mut action) = AgentLoop::start(synonz::AgentInput::new("go"), None, Vec::new(), 4);
    loop {
        let input = match action {
            LoopAction::Emit(event) => {
                runner.note(&event);
                narrative.extend(execution_event(event));
                LoopInput::Sent(true)
            }
            LoopAction::Assemble => LoopInput::Assembled(vec![Message::user("go")]),
            LoopAction::CheckCancelled => LoopInput::CancelChecked(Some(signal.outcome())),
            LoopAction::Record(_) => LoopInput::Recorded(None),
            LoopAction::Stop => break,
            other => panic!("a cancelled run does not ask for {other:?}"),
        };
        action = run.step(input);
    }
    assert_eq!(
        narrative,
        vec![ExecutionEvent::Cancelled(CancelReason::UserRequested)]
    );
    assert!(matches!(
        runner.poll_result(),
        Some(Err(AgentError::Cancelled(CancelReason::UserRequested)))
    ));
}

#[test]
fn agent_default_timeout_applies_to_all_runs() {
    let mut world = World::new();
    let mut conv = world.conversation();
    let agent = builder().build().unwrap().with_timeout(50_000_000);
    assert_eq!(agent.default_timeout, Some(50_000_000));
    for _ in 0..2 {
        let mut signal = CancelCore::new();
        let budget = signal.arm_timeout();
        assert!(signal.fire_timeout(budget));
        let ran = drive(
            &mut world,
            &mut conv,
            &agent,
            Backend::Scripted(&mut MockModel::hanging()),
            "go",
            signal.outcome(),
            usize::MAX,
        );
        assert!(matches!(
            ran.result,
            Err(AgentError::Cancelled(CancelReason::Timeout))
        ));
    }
}

#[test]
fn with_timeout_is_chainable() {
    let mut world = World::new();
    let mut conv = world.conversation();
    let agent = builder().build().unwrap();
    let mut signal = CancelCore::new();
    let budget = signal.arm_timeout();
    assert!(signal.fire_timeout(budget));
    let ran = drive(
        &mut world,
        &mut conv,
        &agent,
        Backend::Scripted(&mut MockModel::hanging()),
        "go",
        signal.outcome(),
        usize::MAX,
    );
    assert!(matches!(
        ran.result,
        Err(AgentError::Cancelled(CancelReason::Timeout))
    ));
}

#[test]
fn a_budget_of_the_run_overrides_the_default() {
    let agent = builder().build().unwrap().with_timeout(3_600_000_000_000);
    assert_eq!(agent.default_timeout, Some(3_600_000_000_000));
    let mut signal = CancelCore::new();
    let default = signal.arm_timeout();
    let own = signal.arm_timeout();
    assert!(!signal.fire_timeout(default), "the replaced budget fires nothing");
    assert!(!signal.is_cancelled());
    assert!(signal.fire_timeout(own));
    assert!(signal.is_cancelled());
    assert_eq!(signal.outcome(), CancelOutcome::Timeout);
}

#[test]
fn a_replaced_provider_drives_the_model_visible_frame() {
    let (mut run, _) =
        AgentLoop::start(synonz::AgentInput::new("original input"), None, Vec::new(), 4);
    run.step(LoopInput::Sent(true));
    run.step(LoopInput::Assembled(vec![Message::user("from the provider")]));
    run.step(LoopInput::CancelChecked(None));
    let LoopAction::OpenModel(request) = run.step(LoopInput::Sent(true)) else {
        panic!("a model call");
    };
    assert_eq!(request.messages.len(), 1);
    assert_eq!(request.messages[0].role, Role::User);
    assert_eq!(
        text_of(&request.messages[0]).as_deref(),
        Some("from the provider")
    );
}

#[test]
fn events_carry_the_round_they_belong_to() {
    let mut world = World::new();
    let mut conv = world.conversation();
    let ran = run_scripted(
        &mut world,
        &mut conv,
        &weather_agent(),
        &mut weather_model(1),
        "weather?",
    );
    let rounds: Vec<Option<usize>> = ran
        .events
        .iter()
        .filter_map(|event| match event {
            TurnEvent::Lifecycle(_) => None,
            TurnEvent::Model(ModelEvent::Requested { round, .. })
            | TurnEvent::Model(ModelEvent::StreamDelta { round, .. })
            | TurnEvent::Model(ModelEvent::Responded { round, .. })
            | TurnEvent::Tool(ToolEvent::CallRequested { round, .. })
            | TurnEvent::Tool(ToolEvent::CallCompleted { round, .. }) => Some(*round),
        })
        .collect();
    assert_eq!(
        rounds,
        vec![Some(1), Some(1), Some(1), Some(1), Some(2), Some(2)]
    );
}

#[test]
fn later_requests_extend_earlier_ones() {
    let mut world = World::new();
    let mut conv = world.conversation();
    let mut model = weather_model(1);
    run_scripted(&mut world, &mut conv, &weather_agent(), &mut model, "weather?");
    let requests = model.requests();
    assert_eq!(requests.len(), 2);
    let (first, second) = (&requests[0].messages, &requests[1].messages);
    assert_eq!(first.len(), 1);
    assert_eq!(second.len(), 3);
    assert_eq!(first[..], second[..first.len()]);
}

#[test]
fn completed_calls_follow_their_announcement() {
    let mut world = World::new();
    let mut conv = world.conversation();
    let ran = run_scripted(
        &mut world,
        &mut conv,
        &weather_agent(),
        &mut weather_model(1),
        "weather?",
    );
    let announced = ran.events.iter().position(|event| {
        matches!(event, TurnEvent::Tool(ToolEvent::CallRequested { call, .. })
            if call.call_id == CallId::new("x1"))
    });
    let completed = ran.events.iter().position(|event| {
        matches!(event, TurnEvent::Tool(ToolEvent::CallCompleted { call_id, .. })
            if *call_id == CallId::new("x1"))
    });
    assert_eq!(announced, Some(3));
    assert_eq!(completed, Some(4));
}
