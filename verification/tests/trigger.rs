//! The memory behavior engine, played against layers the tests hold.

use synonz::conversation::Conversation;
use synonz::error::ModelError;
use synonz::event::{CallPurpose, ModelEvent, TokenUsage, TurnEvent};
use synonz::layer_store::InProcessLayers;
use synonz::layers::{KnowledgeFragment, L1Entry, SummaryBlock};
use synonz::memory::MemoryStoreError;
use synonz::message::{ContentBlock, Message, Role};
use synonz::subject::{Subject, SubjectType};
use synonz::text::{first_words, join_words};
use synonz::trigger::{
    message_text, settle_summary, summary_request, transcript, EndFlow, EventPolicy,
    FirstSegmentDetector, FlowAction, FlowInput, MemoryPolicies, PostTurnFlow, TopicDecision,
    TopicDetector,
};

const NOW: u64 = 1_700_000_000;

/// The layers of one conversation, in memory.
#[derive(Default)]
struct Layers {
    l1: Vec<L1Entry>,
    l2: Vec<SummaryBlock>,
    l3: Vec<KnowledgeFragment>,
    failing: bool,
    events: Vec<TurnEvent>,
}

impl Layers {
    fn written(&self) -> Result<(), MemoryStoreError> {
        if self.failing {
            Err(MemoryStoreError::Storage("disk".into()))
        } else {
            Ok(())
        }
    }

    /// Performs an action; the model answers with `reply`, or fails.
    fn perform(&mut self, action: FlowAction, reply: Option<&str>) -> Option<FlowInput> {
        Some(match action {
            FlowAction::L1Append { topic, messages } => {
                self.l1.push(L1Entry { topic, messages });
                FlowInput::Written(self.written())
            }
            FlowAction::L1Len => FlowInput::Counted(Ok(self.l1.len())),
            FlowAction::L1PopOldest(count) => {
                FlowInput::Turns(Ok(self.l1.drain(..count).collect()))
            }
            FlowAction::Summarize(_) => FlowInput::Summarized(match reply {
                Some(text) => Ok((Message::assistant_text(text), TokenUsage::new(4, 2))),
                None => Err(ModelError::RateLimited {
                    message: "slow down".into(),
                }),
            }),
            FlowAction::L2Append(block) => {
                self.l2.push(block);
                FlowInput::Written(self.written())
            }
            FlowAction::L2Len => FlowInput::Counted(Ok(self.l2.len())),
            FlowAction::L2PopOldest(count) => {
                FlowInput::Blocks(Ok(self.l2.drain(..count).collect()))
            }
            FlowAction::L3Upsert(fragment) => {
                self.l3.push(fragment);
                FlowInput::Written(self.written())
            }
            FlowAction::Done => return None,
        })
    }

    /// Runs the flow of one turn.
    fn turn(
        &mut self,
        conversation: &mut Conversation,
        policies: &MemoryPolicies,
        decision: TopicDecision,
        text: &str,
        reply: Option<&str>,
    ) -> (String, Vec<String>) {
        let messages = vec![Message::user(text), Message::assistant_text("ok")];
        let (mut flow, mut step) = PostTurnFlow::begin(conversation, policies, decision, messages);
        loop {
            self.events.extend(step.event.take());
            match self.perform(step.action, reply) {
                Some(input) => step = flow.step(input, NOW),
                None => return flow.into_outcome(),
            }
        }
    }
}

fn conversation() -> Conversation {
    Conversation::fresh(&Subject::of(SubjectType::User, "u"), "c1")
}

fn keep(topic: &str) -> TopicDecision {
    TopicDecision {
        topic: topic.into(),
        shifted: false,
    }
}

#[test]
fn policies_have_floors_by_default() {
    let policies = MemoryPolicies::default();
    assert_eq!((policies.l1_window, policies.l2_cap), (20, 8));
    assert!(policies.extra.is_empty());
    let stacked = MemoryPolicies::new(3, 2).with_extra(vec![EventPolicy::TopicShift]);
    assert_eq!((stacked.l1_window, stacked.l2_cap), (3, 2));
    assert!(stacked.stacks(EventPolicy::TopicShift));
    assert!(!stacked.stacks(EventPolicy::ConversationEnd));
    assert_eq!(stacked.clone().extra, vec![EventPolicy::TopicShift]);
}

#[test]
fn the_first_segment_is_the_first_four_words() {
    let detector = FirstSegmentDetector;
    let fresh = detector.detect("  please   check\tmy\ninvoice from may ", None);
    assert_eq!(fresh.topic, "please check my invoice");
    assert!(!fresh.shifted);
    assert_eq!(detector.detect("hi", Some("")).topic, "hi");
    assert_eq!(detector.detect("something else", Some("billing")).topic, "billing");
    assert_eq!(detector.detect(" \u{a0} ", None).topic, "");
    assert_eq!(first_words("\u{3000}天气 很 好", 2), "天气 很");
    assert_eq!(first_words("a b", 0), "");
}

#[test]
fn a_started_flow_asks_the_detector() {
    let mut conv = conversation();
    let policies = MemoryPolicies::default();
    let (_, step) = PostTurnFlow::start(
        &FirstSegmentDetector,
        &mut conv,
        &policies,
        "where is my parcel now",
        Vec::new(),
    );
    assert_eq!(conv.topic(), Some("where is my parcel"));
    assert!(matches!(
        step.action,
        FlowAction::L1Append { topic, .. } if topic == "where is my parcel"
    ));
}

#[test]
fn the_floors_hold_turn_after_turn() {
    let mut conv = conversation();
    let mut layers = Layers::default();
    let policies = MemoryPolicies::new(2, 1);
    for index in 0..6 {
        let (topic, errors) = layers.turn(
            &mut conv,
            &policies,
            keep("billing"),
            &format!("q{index}"),
            Some("summary"),
        );
        assert_eq!(topic, "billing");
        assert!(errors.is_empty());
        assert!(layers.l1.len() <= 2);
        assert!(layers.l2.len() <= 1);
    }
    // Six turns: two stay verbatim, four were demoted one by one, and three
    // of the four summaries were distilled.
    assert_eq!(layers.l1.len(), 2);
    assert_eq!(layers.l2.len(), 1);
    assert_eq!(layers.l3.len(), 3);
    assert_eq!(layers.l3[0].identity.subject_id, "User:u");
    assert_eq!(layers.l3[0].identity.conversation_id, "c1");
    assert_eq!(layers.l3[0].identity.topic, "billing");
    assert_eq!(layers.l3[0].content, "summary");
    assert_eq!(layers.l3[0].created_at, NOW);
    // Every summary call is narrated: requested, then responded.
    assert_eq!(layers.events.len(), 8);
    assert!(matches!(
        &layers.events[0],
        TurnEvent::Model(ModelEvent::Requested {
            purpose: CallPurpose::ContextManagement,
            round: None,
            ..
        })
    ));
    assert!(matches!(
        &layers.events[1],
        TurnEvent::Model(ModelEvent::Responded { usage, .. }) if *usage == TokenUsage::new(4, 2)
    ));
}

#[test]
fn a_topic_shift_flushes_only_with_its_policy() {
    let shift = || TopicDecision {
        topic: "shipping".into(),
        shifted: true,
    };
    for (policies, kept) in [
        (MemoryPolicies::new(9, 9), 2),
        (MemoryPolicies::new(9, 9).with_extra(vec![EventPolicy::TopicShift]), 1),
    ] {
        let mut conv = conversation();
        let mut layers = Layers::default();
        layers.turn(&mut conv, &policies, keep("billing"), "one", Some("s"));
        layers.turn(&mut conv, &policies, shift(), "two", Some("s"));
        // The current turn, the first of the new topic, stays in L1.
        assert_eq!(layers.l1.len(), kept);
        assert_eq!(layers.l1[kept - 1].topic, "shipping");
        assert_eq!(layers.l1[kept - 1].messages[0], Message::user("two"));
        assert_eq!(layers.l2.len(), 2 - kept);
        assert_eq!(conv.topic(), Some("shipping"));
    }
}

#[test]
fn the_in_process_layers_are_a_working_store() {
    let subject = Subject::of(SubjectType::User, "u");
    let stranger = Subject::of(SubjectType::User, "v");
    let policies = MemoryPolicies::new(1, 1);
    let mut conv = conversation();
    let mut layers = InProcessLayers::new();
    for index in 0..4 {
        let messages = vec![Message::user(format!("q{index}"))];
        let (mut flow, mut step) = PostTurnFlow::begin(&mut conv, &policies, keep("t"), messages);
        loop {
            let input = match step.action {
                FlowAction::Done => break,
                FlowAction::Summarize(_) => FlowInput::Summarized(Ok((
                    Message::assistant_text(format!("s{index}")),
                    TokenUsage::new(1, 1),
                ))),
                action => layers.perform(&subject, "c1", action),
            };
            step = flow.step(input, NOW);
        }
        assert!(flow.into_outcome().1.is_empty());
    }
    // The newest turn and the newest block stay; each block that left L2 is
    // in L3, in order.
    assert_eq!(layers.l1_len(&subject, "c1"), 1);
    assert_eq!(layers.l1_pop_oldest(&subject, "c1", 9)[0].messages, vec![Message::user("q3")]);
    assert_eq!(layers.l2_len(&subject, "c1"), 1);
    assert_eq!(layers.l2_pop_oldest(&subject, "c1", 9)[0].content, "s3");
    let kept: Vec<String> = layers
        .l3_take(&subject, "c1")
        .into_iter()
        .map(|fragment| fragment.content)
        .collect();
    assert_eq!(kept, vec!["s1", "s2"]);
    assert_eq!(layers.l1_len(&stranger, "c1"), 0, "a subject's layers are its own");
}

#[test]
fn a_failing_summary_stores_the_transcript() {
    let mut conv = conversation();
    let mut layers = Layers::default();
    layers.turn(&mut conv, &MemoryPolicies::new(0, 9), keep("t"), "hello", None);
    assert_eq!(layers.l2[0].content, "User: hello\nAssistant: ok\n");
    assert_eq!(layers.events.len(), 1, "a failed call has no response to narrate");
}

#[test]
fn write_failures_are_collected() {
    let mut conv = conversation();
    let mut layers = Layers {
        l1: vec![L1Entry {
            topic: "earlier".into(),
            messages: vec![Message::user("p")],
        }],
        failing: true,
        ..Layers::default()
    };
    let policies = MemoryPolicies::new(0, 1).with_extra(vec![EventPolicy::TopicShift]);
    let shift = TopicDecision {
        topic: "t".into(),
        shifted: true,
    };
    let (_, errors) = layers.turn(&mut conv, &policies, shift, "q", Some("s"));
    assert_eq!(
        errors,
        vec![
            "l1 append: memory storage failure: disk",
            "l2 append (topic shift): memory storage failure: disk",
            "l2 append (turn count): memory storage failure: disk",
            "l3 upsert: memory storage failure: disk",
        ]
    );
    let mut again = Layers {
        failing: true,
        ..Layers::default()
    };
    let (_, errors) = again.turn(&mut conv, &MemoryPolicies::new(0, 9), keep("t"), "q", Some("s"));
    assert_eq!(errors[1], "l2 append (turn count): memory storage failure: disk");
}

#[test]
fn the_end_promotes_everything_with_its_policy() {
    let mut conv = conversation();
    conv.set_topic("billing");
    let block = |content: &str| SummaryBlock {
        conversation_id: "c1".into(),
        content: content.into(),
        index: 0,
    };
    let policies = MemoryPolicies::default().with_extra(vec![EventPolicy::ConversationEnd]);
    for failing in [false, true] {
        let mut layers = Layers {
            l2: vec![block("one"), block("two")],
            failing,
            ..Layers::default()
        };
        let (mut flow, mut action) = EndFlow::begin(&conv, &policies);
        while let Some(input) = layers.perform(action, None) {
            action = flow.step(input, NOW);
        }
        assert!(layers.l2.is_empty());
        let contents: Vec<&str> = layers.l3.iter().map(|f| f.content.as_str()).collect();
        assert_eq!(contents, vec!["one", "two"]);
        assert_eq!(layers.l3[1].identity.topic, "billing");
        let errors = flow.into_errors();
        if failing {
            assert_eq!(errors, vec!["l3 upsert (end): memory storage failure: disk"; 2]);
        } else {
            assert!(errors.is_empty());
        }
    }
    let (flow, action) = EndFlow::begin(&conv, &MemoryPolicies::default());
    assert!(matches!(action, FlowAction::Done));
    assert!(flow.into_errors().is_empty());
}

#[test]
fn transcripts_hold_what_was_said() {
    let entries = vec![L1Entry {
        topic: "t".into(),
        messages: vec![
            Message::system("rules"),
            Message::user("question"),
            Message::new(Role::Assistant, Vec::new()),
            Message::assistant_text("answer"),
        ],
    }];
    let text = transcript(&entries);
    assert_eq!(text, "User: question\nAssistant: answer\n");
    let request = summary_request(&text);
    assert_eq!(
        request.messages,
        vec![Message::user(
            "Summarize the following conversation turns into one short paragraph, preserving key facts, decisions, and preferences:\n\nUser: question\nAssistant: answer\n"
        )]
    );
    assert_eq!(request.params.max_tokens, Some(256));
    assert!(request.tools.is_empty());
}

#[test]
fn message_text_joins_text_blocks() {
    let message = Message::new(
        Role::Assistant,
        vec![
            ContentBlock::Text { text: "a".into() },
            ContentBlock::Text { text: "b".into() },
        ],
    );
    assert_eq!(message_text(&message).as_deref(), Some("ab"));
    assert!(message_text(&Message::assistant_text("")).is_none());
    let (summary, event) = settle_summary(
        Ok((Message::new(Role::Assistant, Vec::new()), TokenUsage::new(1, 1))),
        "transcript".into(),
    );
    assert_eq!(summary, "", "an empty response is an empty summary");
    assert!(event.is_some());
}

#[test]
fn words_are_joined_by_one_space() {
    let blank = vec![true, false, false, true, true, false, true, false];
    assert_eq!(join_words(" ab  c d", &blank, 2), "ab c");
    assert_eq!(join_words(" ab  c d", &blank, 9), "ab c d");
    assert_eq!(join_words(" ab  c d", &blank, 0), "");
    assert_eq!(first_words("\t one\u{3000}two \n three", 2), "one two");
}
