//! The event bus: the bounded queue, the dispatcher, and cancellation
//! signals.

use synonz::bus::{
    BusItem, ConversationEvent, DispatchAction, DispatchInput, Dispatcher, EventBus, EventSink,
    ExecutionIds, MemoryEvent, ObserverContext, SynonzEvent, OBSERVATION_QUEUE_CAP,
};
use synonz::cancel::{cancel_reason, CancelCore, CancelOutcome};
use synonz::event::{CancelReason, LifecycleEvent, TokenUsage, TurnEvent};
use synonz::tool::ToolContext;
use synonz::{AgentInput, AgentOutput, Message};

fn started() -> TurnEvent {
    TurnEvent::Lifecycle(LifecycleEvent::Started {
        input: AgentInput::new("go"),
    })
}

fn created(id: usize) -> SynonzEvent {
    SynonzEvent::Conversation(ConversationEvent::Created {
        conversation_id: format!("c{id}"),
        subject_id: "User:u".into(),
    })
}

/// Delivers one event to observers that panic as told, and reports the drop
/// count; returns who got the event and who got which report.
fn dispatch(
    dispatcher: &mut Dispatcher,
    dropped: u64,
    panics: &dyn Fn(usize) -> bool,
) -> (Vec<usize>, Vec<(usize, u64)>) {
    let (mut delivered, mut reported) = (Vec::new(), Vec::new());
    let mut action = dispatcher.step(DispatchInput::Event);
    loop {
        action = match action {
            DispatchAction::Deliver(observer) => {
                delivered.push(observer);
                dispatcher.step(DispatchInput::Called(panics(observer)))
            }
            DispatchAction::ReadDropped => dispatcher.step(DispatchInput::Dropped(dropped)),
            DispatchAction::Report(observer, total) => {
                reported.push((observer, total));
                dispatcher.step(DispatchInput::Called(false))
            }
            DispatchAction::Next => return (delivered, reported),
        };
    }
}

#[test]
fn lag_is_reported_when_the_queue_overflows() {
    let mut bus = EventBus::new();
    // A flood of 304 events: far beyond the 256-capacity queue, with nobody
    // draining it yet.
    for index in 0..304 {
        bus.emit(created(index));
    }
    let mut receiver = bus.claim_dispatcher().expect("claimed once");
    let mut dispatcher = Dispatcher::new(1);
    let (mut delivered, mut lags) = (0u64, Vec::new());
    while let Ok(item) = receiver.try_recv() {
        if let BusItem::Event { .. } = item {
            let (to, reports) = dispatch(&mut dispatcher, bus.dropped(), &|_| false);
            delivered += to.len() as u64;
            lags.extend(reports.into_iter().map(|(_, total)| total));
        }
    }
    let total_dropped = lags.last().copied().unwrap_or(0);
    assert!(!lags.is_empty(), "overflow must be reported, not silent");
    assert_eq!(lags.len(), 1, "and reported once");
    assert_eq!(delivered + total_dropped, 304, "accounting is complete");
    assert_eq!(delivered, OBSERVATION_QUEUE_CAP as u64);
}

#[test]
fn panicking_observer_is_circuit_broken_without_harming_others() {
    let mut bus = EventBus::new();
    let sink = EventSink::new(0);
    sink.emit_turn(&mut bus, started());
    for index in 0..2 {
        bus.emit(created(index));
    }
    let response = AgentOutput::new(Message::assistant_text("done"), TokenUsage::new(1, 1));
    sink.emit_turn(&mut bus, TurnEvent::Lifecycle(LifecycleEvent::Completed { response }));
    let mut receiver = bus.claim_dispatcher().unwrap();
    let mut dispatcher = Dispatcher::new(2);
    let mut panic_calls = 0;
    let mut kinds = Vec::new();
    while let Ok(BusItem::Event { event, .. }) = receiver.try_recv() {
        let (delivered, _) = dispatch(&mut dispatcher, 0, &|observer| observer == 0);
        panic_calls += delivered.iter().filter(|&&observer| observer == 0).count();
        if delivered.contains(&1) {
            kinds.push(match event {
                SynonzEvent::Turn(TurnEvent::Lifecycle(LifecycleEvent::Started { .. })) => "started",
                SynonzEvent::Turn(TurnEvent::Lifecycle(LifecycleEvent::Completed { .. })) => {
                    "completed"
                }
                _ => "other",
            });
        }
    }
    // The panicking observer was called exactly once, then disabled.
    assert_eq!(panic_calls, 1, "circuit breaker fired");
    // The other observer received the full stream, terminal included.
    assert_eq!(kinds.first(), Some(&"started"));
    assert_eq!(kinds.last(), Some(&"completed"));
    assert_eq!(kinds.len(), 4);
}

#[test]
fn a_growing_drop_count_is_reported_each_time_it_grows() {
    let mut dispatcher = Dispatcher::new(2);
    let mut told = Vec::new();
    for dropped in [0, 3, 3, 7] {
        let (delivered, reports) = dispatch(&mut dispatcher, dropped, &|_| false);
        assert_eq!(delivered, vec![0, 1]);
        told.extend(reports);
    }
    assert_eq!(told, vec![(0, 3), (1, 3), (0, 7), (1, 7)]);
}

#[test]
fn execution_ids_attribute_concurrent_runs() {
    let mut ids = ExecutionIds::new();
    let a = EventSink::new(ids.next_execution_id());
    let b = EventSink::new(ids.next_execution_id());
    let mut bus = EventBus::new();
    for sink in [&a, &b, &a] {
        let (taken, event) = sink.emit_turn(&mut bus, started());
        assert!(taken);
        assert_eq!(event, started(), "the consumer gets the event too");
    }
    let mut receiver = bus.claim_dispatcher().unwrap();
    let mut seen: Vec<u64> = Vec::new();
    while let Ok(BusItem::Event { execution_id, .. }) = receiver.try_recv() {
        seen.push(execution_id.expect("attributed"));
    }
    assert_eq!(seen, vec![0, 1, 0]);
    seen.sort_unstable();
    seen.dedup();
    assert_eq!(seen.len(), 2, "two runs, two distinct execution ids: {seen:?}");
}

#[test]
fn the_queue_keeps_emission_order_and_families() {
    let mut bus = EventBus::new();
    let sink = EventSink::new(9);
    assert!(bus.emit(created(0)));
    assert!(sink.emit_memory(
        &mut bus,
        MemoryEvent::Distilled {
            conversation_id: "c".into(),
            count: 2,
        }
    ));
    assert!(sink.emit_conversation(
        &mut bus,
        ConversationEvent::TopicShifted {
            conversation_id: "c".into(),
            from: "a".into(),
            to: "b".into(),
        }
    ));
    let mut receiver = bus.claim_dispatcher().unwrap();
    assert!(bus.claim_dispatcher().is_none(), "one dispatcher only");
    let mut kinds = Vec::new();
    while let Ok(BusItem::Event { execution_id, event }) = receiver.try_recv() {
        let family = match event {
            SynonzEvent::Turn(_) => "turn",
            SynonzEvent::Conversation(_) => "conversation",
            SynonzEvent::Memory(_) => "memory",
        };
        kinds.push((ObserverContext::new(execution_id).execution_id, family));
    }
    assert_eq!(
        kinds,
        vec![
            (None, "conversation"),
            (Some(9), "memory"),
            (Some(9), "conversation")
        ]
    );
}

#[test]
fn a_closed_queue_counts_drops() {
    let mut bus = EventBus::new();
    drop(bus.claim_dispatcher());
    assert!(!bus.emit(created(0)));
    assert_eq!(bus.dropped(), 1);
    bus.note_emission(true);
    bus.note_emission(false);
    assert_eq!(bus.dropped(), 2);
    assert!(bus.sender().is_closed());
}

#[test]
fn lag_is_not_repeated_while_it_does_not_grow() {
    let mut dispatcher = Dispatcher::new(2);
    assert_eq!(dispatch(&mut dispatcher, 3, &|_| false).1, vec![(0, 3), (1, 3)]);
    assert_eq!(dispatch(&mut dispatcher, 3, &|_| false).1, vec![]);
    assert_eq!(dispatch(&mut dispatcher, 5, &|_| false).1, vec![(0, 5), (1, 5)]);
    assert_eq!(dispatch(&mut Dispatcher::new(0), 5, &|_| false), (vec![], vec![]));
}

#[test]
fn parent_token_propagates() {
    let parent = tokio_util::sync::CancellationToken::new();
    let core = CancelCore::child_of(&parent);
    assert!(!core.is_cancelled());
    parent.cancel();
    assert!(core.is_cancelled());
    assert_eq!(core.outcome(), CancelOutcome::Signal);
    let late = CancelCore::child_of(&parent);
    assert!(late.is_cancelled(), "a child of a fired signal has fired");
}

#[test]
fn timeout_fires_with_timeout_outcome() {
    let mut core = CancelCore::new();
    let budget = core.arm_timeout();
    assert!(!core.is_cancelled());
    assert!(core.fire_timeout(budget));
    assert!(core.is_cancelled());
    assert_eq!(core.outcome(), CancelOutcome::Timeout);
    assert_eq!(cancel_reason(core.outcome()), CancelReason::Timeout);
}

#[test]
fn cancelling_fires_the_signal_everyone_holds() {
    let mut core = CancelCore::new();
    let context = ToolContext::new(core.token().clone());
    assert!(!context.cancel.is_cancelled());
    core.cancel();
    assert!(core.is_cancelled());
    assert!(context.cancel.is_cancelled());
    assert_eq!(cancel_reason(core.outcome()), CancelReason::UserRequested);
}
