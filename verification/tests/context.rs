//! The context engine: the read phase, the write phase, and their
//! degradations.

use synonz::bus::{ConversationEvent, MemoryEvent, SynonzEvent};
use synonz::context::{
    background_fact, narrate_item, narrate_request, resolve_model, MemoryContextAssembleOutput,
    MemoryFailure, PipelineTurnContext, ReadPhase, RewriteInput, WriteHook, WritePhase,
    HISTORY_TURNS,
};
use synonz::conversation::ConversationIds;
use synonz::event::{CallPurpose, ModelDelta, ModelEvent, TokenUsage, TurnEvent};
use synonz::inprocess::InProcessMemory;
use synonz::memory::MemoryReader;
use synonz::message::{ContentBlock, Message, Role};
use synonz::model::{complete, ModelParams, ModelRequest, ModelStreamItem};
use synonz::{AgentInput, AgentOutput, Conversation, Subject, SubjectType, SynonzRuntime, Turn};

fn subject() -> Subject {
    Subject::of(SubjectType::User, "u-engine")
}

fn fact_line(event: &SynonzEvent) -> Option<String> {
    match event {
        SynonzEvent::Memory(MemoryEvent::TurnArchived { topic, .. }) => {
            Some(format!("archived:{topic}"))
        }
        SynonzEvent::Memory(MemoryEvent::Failed { stage, .. }) => Some(format!("failed:{stage}")),
        SynonzEvent::Conversation(ConversationEvent::TopicShifted { from, to, .. }) => {
            Some(format!("shifted:{from}->{to}"))
        }
        _ => None,
    }
}

/// What a write phase did: the hooks called with what they saw, and the
/// facts reported.
struct Written {
    calls: Vec<String>,
    facts: Vec<String>,
}

/// Runs a write phase on a conversation with the given verdicts.
fn write(
    conversation: &mut Conversation,
    input: &str,
    responses: &[Message],
    detected: Option<Result<Option<String>, MemoryFailure>>,
    archived: Result<(), MemoryFailure>,
) -> Written {
    let mut written = Written {
        calls: Vec::new(),
        facts: Vec::new(),
    };
    let topic = conversation.topic().map(str::to_string);
    let (mut phase, mut step) = WritePhase::begin(
        conversation.id(),
        conversation.subject(),
        topic.as_deref(),
        detected.is_some(),
    );
    let mut detected = detected;
    let mut archived = Some(archived);
    loop {
        if let Some(topic) = &step.set_topic {
            conversation.set_topic(topic);
        }
        written.facts.extend(step.facts.iter().filter_map(fact_line));
        step = match step.next {
            WriteHook::Detect => phase.detected(detected.take().expect("a verdict")),
            WriteHook::Archive { topic, topic_change } => {
                let memory = InProcessMemory;
                let frame = [Message::user(input)];
                let context = PipelineTurnContext::new(
                    conversation.subject(),
                    conversation.id(),
                    &topic,
                    topic_change.as_ref().map(|(from, to)| (from.as_str(), to.as_str())),
                    input,
                    &frame,
                    responses,
                    MemoryReader::new(&memory),
                    (),
                );
                written.calls.push("archive".to_string());
                written.calls.push(format!(
                    "archive:input={}:topic={}:change={:?}:responses={}",
                    context.input(),
                    context.topic(),
                    context.topic_change(),
                    context.responses().len()
                ));
                phase.archived(archived.take().expect("one archive"))
            }
            WriteHook::SpawnTask { topic, topic_change } => {
                written.calls.push("spawn".to_string());
                written.calls.push(format!("spawn:topic={topic}:change={topic_change:?}"));
                phase.spawned(Ok(()))
            }
            WriteHook::Finished => break,
        };
    }
    written
}

fn hook_names(written: &Written) -> Vec<&str> {
    written
        .calls
        .iter()
        .map(String::as_str)
        .filter(|call| !call.contains(':'))
        .collect()
}

#[test]
fn empty_frame_falls_back_to_the_original_input_and_reports() {
    let (phase, rewritten) = ReadPhase::rewritten(None);
    assert!(rewritten.is_none());
    let (output, facts) =
        phase.assembled("hello", MemoryContextAssembleOutput::new(Vec::new(), Vec::new()));
    assert_eq!(output.messages.len(), 1);
    assert_eq!(output.messages[0].role, Role::User);
    assert_eq!(output.failures.len(), 1);
    assert!(output.failures[0].detail.contains("empty frame"));
    assert!(
        facts
            .iter()
            .any(|f| matches!(f, MemoryEvent::Failed { stage, .. } if stage.starts_with("assemble"))),
        "the fallback must be visible"
    );
}

#[test]
fn a_non_empty_frame_is_passed_through_unchanged() {
    let (phase, _) = ReadPhase::rewritten(None);
    let (output, _) = phase.assembled(
        "hello",
        MemoryContextAssembleOutput::new(vec![Message::user("rewritten")], Vec::new()),
    );
    assert_eq!(output.messages, vec![Message::user("rewritten")]);
    assert!(output.failures.is_empty());
}

#[test]
fn the_write_template_archives_and_derives_background_work() {
    let mut conversation = Conversation::fresh(&subject(), "c-engine");
    conversation.set_topic("billing");
    let written = write(&mut conversation, "invoice?", &[], None, Ok(()));
    assert_eq!(hook_names(&written), ["archive", "spawn"]);
    assert!(written.facts.iter().any(|f| f == "archived:billing"));
}

#[test]
fn context_a_failing_archive_is_reported_and_the_background_segment_still_runs() {
    let mut conversation = Conversation::fresh(&subject(), "c-fail");
    let written = write(
        &mut conversation,
        "hi",
        &[],
        None,
        Err(MemoryFailure::new("archive", "boom")),
    );
    assert_eq!(hook_names(&written), ["archive", "spawn"]);
    assert!(written.facts.iter().any(|f| f == "failed:archive"));
    assert!(!written.facts.iter().any(|f| f.starts_with("archived")));
}

#[test]
fn a_topic_shift_is_written_back_and_visible_to_the_hooks() {
    let mut conversation = Conversation::fresh(&subject(), "c-shift");
    conversation.set_topic("billing");
    let written = write(
        &mut conversation,
        "where is my parcel?",
        &[],
        Some(Ok(Some("shipping".into()))),
        Ok(()),
    );
    assert_eq!(conversation.topic(), Some("shipping"));
    assert!(written.facts.iter().any(|f| f == "shifted:billing->shipping"));
    let change = "topic=shipping:change=Some((\"billing\", \"shipping\"))";
    let seen: Vec<&String> = written
        .calls
        .iter()
        .filter(|call| call.contains(change))
        .collect();
    assert_eq!(seen.len(), 2, "the archive and the background hook see it");
    assert_eq!(seen[1], &format!("spawn:{change}"));
}

#[test]
fn the_first_topic_is_an_establishment_not_a_shift() {
    let mut conversation = Conversation::fresh(&subject(), "c-first");
    let written = write(
        &mut conversation,
        "invoice?",
        &[],
        Some(Ok(Some("billing".into()))),
        Ok(()),
    );
    assert_eq!(conversation.topic(), Some("billing"));
    assert!(
        !written.facts.iter().any(|f| f.starts_with("shifted:")),
        "an establishment is not a shift"
    );
    assert!(written.calls.iter().any(|c| c == "spawn:topic=billing:change=None"));
}

#[test]
fn a_failing_detector_keeps_the_previous_topic_and_reports() {
    let mut conversation = Conversation::fresh(&subject(), "c-detect-fail");
    conversation.set_topic("billing");
    let written = write(
        &mut conversation,
        "hi",
        &[],
        Some(Err(MemoryFailure::new("topic", "model down"))),
        Ok(()),
    );
    assert_eq!(conversation.topic(), Some("billing"));
    assert!(written.facts.iter().any(|f| f == "failed:topic"));
    assert!(
        written.facts.iter().any(|f| f == "archived:billing"),
        "the archive still runs"
    );
    assert!(written.calls.iter().any(|c| c == "spawn:topic=billing:change=None"));
}

fn text_of(message: &Message) -> Option<&str> {
    message.blocks.iter().find_map(|block| match block {
        ContentBlock::Text { text } => Some(text.as_str()),
        _ => None,
    })
}

#[test]
fn an_empty_frame_falls_back_to_the_original_input_and_reports() {
    let (phase, _) = ReadPhase::rewritten(None);
    let (output, facts) =
        phase.assembled("kept input", MemoryContextAssembleOutput::new(Vec::new(), Vec::new()));
    assert_eq!(text_of(&output.messages[0]), Some("kept input"));
    assert!(facts
        .into_iter()
        .any(|f| fact_line(&SynonzEvent::Memory(f)).is_some_and(|l| l.starts_with("failed:assemble"))));
}

#[test]
fn the_write_phase_receives_the_turn_data() {
    let mut conversation = Conversation::fresh(&subject(), "c-data");
    let written = write(
        &mut conversation,
        "hello there",
        &[Message::assistant_text("the answer")],
        None,
        Ok(()),
    );
    assert!(
        written
            .calls
            .iter()
            .any(|call| call == "archive:input=hello there:topic=:change=None:responses=1"),
        "the archive hook receives the turn's input and responses"
    );
    assert!(written.calls.iter().any(|call| call == "spawn"));
}

/// An assembler that echoes the model-view input into the frame.
fn echo(input: &str, rewritten: Option<&str>) -> MemoryContextAssembleOutput {
    MemoryContextAssembleOutput::new(vec![Message::user(rewritten.unwrap_or(input))], Vec::new())
}

#[test]
fn the_rewriter_output_flows_into_the_frame() {
    let (phase, rewritten) = ReadPhase::rewritten(Some(Ok(Some("rewritten(hello)".to_string()))));
    let (output, _) = phase.assembled("hello", echo("hello", rewritten.as_deref()));
    assert_eq!(
        text_of(&output.messages[0]),
        Some("rewritten(hello)"),
        "the model sees the rewritten input"
    );
}

#[test]
fn a_rewriter_failure_degrades_visibly_and_keeps_the_original() {
    let (phase, rewritten) =
        ReadPhase::rewritten(Some(Err(MemoryFailure::new("rewrite", "rewriter down"))));
    let (output, facts) = phase.assembled("kept", echo("kept", rewritten.as_deref()));
    assert_eq!(text_of(&output.messages[0]), Some("kept"));
    assert!(facts
        .into_iter()
        .any(|f| fact_line(&SynonzEvent::Memory(f)).is_some_and(|l| l.starts_with("failed:rewrite"))));
}

/// A rewriter that records the history it is given and rewrites nothing.
#[derive(Default)]
struct HistoryRewriter {
    histories: Vec<Vec<Message>>,
}

impl HistoryRewriter {
    fn rewrite(&mut self, input: RewriteInput<()>) -> Result<Option<String>, MemoryFailure> {
        self.histories.push(input.history.to_vec());
        Ok(None)
    }
}

#[test]
fn the_rewriter_history_comes_from_the_truth_domain() {
    let mut rewriter = HistoryRewriter::default();
    let mut runtime = SynonzRuntime::builder().build(0);
    let mut ids = ConversationIds::new();
    let (mut conversation, _) = Conversation::new(&mut runtime, &subject(), &mut ids, 1, 1);
    for text in ["first", "second"] {
        let history = conversation.history(HISTORY_TURNS);
        let verdict = rewriter.rewrite(RewriteInput::new(text, &history, ()));
        let (phase, rewritten) = ReadPhase::rewritten(Some(verdict));
        let (mut output, _) = phase.assembled(text, echo(text, rewritten.as_deref()));
        output.messages.push(Message::assistant_text("ok"));
        conversation.push_turn(Turn::completed(
            AgentInput::new(text),
            output.messages,
            AgentOutput::new(Message::assistant_text("ok"), TokenUsage::new(1, 1)),
        ));
    }
    let histories = &rewriter.histories;
    assert_eq!(histories.len(), 2);
    assert!(histories[0].is_empty(), "the first turn has no history");
    let second = &histories[1];
    assert_eq!(second.len(), 2, "one successful turn: user + assistant");
    assert_eq!(text_of(&second[0]), Some("first"));
    assert_eq!(second[1].role, Role::Assistant);
}

#[test]
fn topic_detection_writes_back_and_reaches_the_hooks() {
    let mut conversation = Conversation::fresh(&subject(), "c-topics");
    let first = write(
        &mut conversation,
        "invoice?",
        &[Message::assistant_text("a")],
        Some(Ok(Some("billing".into()))),
        Ok(()),
    );
    assert_eq!(conversation.topic(), Some("billing"));
    assert!(
        !first.facts.iter().any(|f| f.starts_with("shifted:")),
        "the first topic is an establishment, not a shift"
    );

    let second = write(
        &mut conversation,
        "where is my parcel?",
        &[Message::assistant_text("b")],
        Some(Ok(Some("shipping".into()))),
        Ok(()),
    );
    assert_eq!(conversation.topic(), Some("shipping"));
    assert!(second.facts.iter().any(|f| f == "shifted:billing->shipping"));

    // The hooks saw the turn's topic change, and the change drove the
    // background work.
    assert!(second.calls.iter().any(|call| call.contains("topic=shipping")
        && call.contains("Some((\"billing\", \"shipping\"))")));
    let spawned = background_fact(Err(MemoryFailure::new("summary", "background boom")));
    assert!(matches!(
        spawned,
        Some(MemoryEvent::Failed { stage, .. }) if stage == "summary"
    ));
}

#[test]
fn a_failing_detector_keeps_the_topic_and_reports() {
    let mut conversation = Conversation::fresh(&subject(), "c-kept");
    conversation.set_topic("kept");
    let written = write(
        &mut conversation,
        "hello",
        &[Message::assistant_text("a")],
        Some(Err(MemoryFailure::new("topic", "detector down"))),
        Ok(()),
    );
    assert_eq!(conversation.topic(), Some("kept"));
    assert!(written.facts.iter().any(|f| f.starts_with("failed:topic")));
    assert!(written.facts.iter().any(|f| f == "archived:kept"));
}

#[test]
fn detector_model_calls_are_narrated_by_the_framework() {
    let request = ModelRequest::new(
        vec![Message::user("classify the topic")],
        Vec::new(),
        ModelParams::default(),
    );
    assert_eq!(
        narrate_request(&request),
        TurnEvent::Model(ModelEvent::Requested {
            purpose: CallPurpose::ContextManagement,
            messages: vec![Message::user("classify the topic")],
            round: None,
        })
    );
    let finish = ModelStreamItem::Finish {
        message: Message::assistant_text("detected topic"),
        usage: TokenUsage::new(1, 1),
    };
    let (message, _) = complete(vec![finish]).unwrap();
    let mut conversation = Conversation::fresh(&subject(), "c-narrated");
    let verdict = text_of(&message).map(str::to_string);
    write(&mut conversation, "hello", &[], Some(Ok(verdict)), Ok(()));
    assert_eq!(conversation.topic(), Some("detected topic"));
}

#[test]
fn auxiliary_streams_narrate_their_finish_only() {
    let delta = narrate_item(Some(ModelStreamItem::Delta(ModelDelta::Text {
        text: "x".into(),
    })));
    assert!(delta.event.is_none());
    assert!(!delta.last);
    let finish = narrate_item(Some(ModelStreamItem::Finish {
        message: Message::assistant_text("done"),
        usage: TokenUsage::new(2, 3),
    }));
    assert_eq!(
        finish.event,
        Some(TurnEvent::Model(ModelEvent::Responded {
            message: Message::assistant_text("done"),
            usage: TokenUsage::new(2, 3),
            round: None,
        }))
    );
    assert!(finish.last);
    let end = narrate_item(None);
    assert!(end.item.is_none() && end.event.is_none() && end.last);
}

#[test]
fn the_provider_model_wins_over_the_agent_model() {
    assert_eq!(resolve_model(&Some("provider"), &"agent"), "provider");
    assert_eq!(resolve_model(&None, &"agent"), "agent");
}

#[test]
fn memory_a_failing_archive_is_reported_and_the_background_segment_still_runs() {
    let mut conversation = Conversation::fresh(&subject(), "c-memory");
    let written = write(
        &mut conversation,
        "hello",
        &[Message::assistant_text("answer")],
        None,
        Err(MemoryFailure::new("archive", "boom")),
    );
    assert!(written.facts.iter().any(|f| f.starts_with("failed:archive")));
    assert!(!written.facts.iter().any(|f| f.starts_with("archived:")));
    assert!(written.calls.iter().any(|call| call == "spawn"));
}

#[test]
fn an_unchanged_or_missing_verdict_is_no_shift() {
    let mut conversation = Conversation::fresh(&subject(), "c-same");
    conversation.set_topic("billing");
    for verdict in [None, Some("billing".to_string())] {
        let written = write(&mut conversation, "hi", &[], Some(Ok(verdict)), Ok(()));
        assert_eq!(conversation.topic(), Some("billing"));
        assert_eq!(written.facts, vec!["archived:billing".to_string()]);
    }
}
