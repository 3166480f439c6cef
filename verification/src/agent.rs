//! The agent: a canned composition of model, tools, system prompt, and the
//! reasoning loop.
//!
//! An agent is a stateless, immutable configuration. All run state lives
//! inside a run; one agent can drive many concurrent runs without shared
//! state. The configuration is generic in the handles it only passes on: the
//! runtime `R`, the model `M`, and the tools `T`.

use vstd::prelude::*;

use crate::error::{AgentError, AgentErrorView};
use crate::event::{
    is_terminal, CallPurpose, ExecutionEvent, ExecutionEventView, LifecycleEvent,
    LifecycleEventView, ModelEvent, ModelEventView, ToolEvent, ToolEventView, TurnEvent,
    TurnEventView,
};
use crate::io::{AgentOutput, AgentOutputView};
use crate::text::{same_text, Text};

verus! {

/// Default round budget: how many reasoning rounds a run may use before it
/// fails with [`AgentError::MaxRoundsExceeded`].
pub const DEFAULT_MAX_ROUNDS: u32 = 16;

/// Round budget recommended for the research pattern.
pub const RESEARCH_MAX_ROUNDS: u32 = 32;

/// The research pattern's system prompt.
pub const RESEARCH_SYSTEM_PROMPT: &'static str = "You are a research agent. Investigate the user's question thoroughly using the available tools: search broadly first, then read the most promising sources. Verify important claims across independent sources before relying on them. Synthesize a complete, clearly structured answer and cite sources for factual claims. State uncertainty explicitly when evidence is thin or conflicting.";

/// The reflection pattern's system prompt.
pub const REFLECTION_SYSTEM_PROMPT: &'static str = "You are a reflective agent. Work in three passes for every task: (1) draft — produce a first answer; (2) critique — examine your draft for errors, gaps, and unsupported claims; (3) revise — produce the improved final answer. Deliver only the final answer unless the user asks to see the intermediate passes.";

/// Builder for [`Agent`].
///
/// All configuration is explicit; nothing is defaulted silently except the
/// documented [`DEFAULT_MAX_ROUNDS`] budget.
pub struct AgentBuilder<R, M, T> {
    /// The environment the agent lives in.
    pub runtime: Option<R>,
    /// The model.
    pub model: Option<M>,
    /// The registered tools, in registration order.
    pub tools: Vec<T>,
    /// The system prompt.
    pub system_prompt: Option<String>,
    /// The round budget.
    pub max_rounds: Option<u32>,
}

impl<R, M, T> AgentBuilder<R, M, T> {
    /// Starts building an agent.
    pub fn new() -> (builder: Self)
        ensures
            builder.runtime is None,
            builder.model is None,
            builder.tools@.len() == 0,
            builder.system_prompt is None,
            builder.max_rounds is None,
    {
        AgentBuilder {
            runtime: None,
            model: None,
            tools: Vec::new(),
            system_prompt: None,
            max_rounds: None,
        }
    }

    /// Sets the runtime (required).
    pub fn runtime(self, runtime: &R) -> (builder: Self) where R: Clone
        ensures
            builder.runtime matches Some(kept) && cloned(*runtime, kept),
            builder == (AgentBuilder { runtime: builder.runtime, ..self }),
    {
        let mut builder = self;
        builder.runtime = Some(runtime.clone());
        builder
    }

    /// Sets the model (required).
    pub fn model(self, model: M) -> (builder: Self)
        ensures
            builder == (AgentBuilder { model: Some(model), ..self }),
    {
        let mut builder = self;
        builder.model = Some(model);
        builder
    }

    /// Sets the system prompt, replacing any prompt set earlier.
    ///
    /// When unset, no system message is sent.
    pub fn system_prompt(self, text: impl Text) -> (builder: Self)
        ensures
            builder.system_prompt.deep_view() == Some(text.text()),
            builder == (AgentBuilder { system_prompt: builder.system_prompt, ..self }),
    {
        let mut builder = self;
        builder.system_prompt = Some(text.into_text());
        builder
    }

    /// Appends instructions to the current system prompt, separated by a
    /// blank line, creating it when absent.
    pub fn extend_system_prompt(self, text: impl Text) -> (builder: Self)
        ensures
            builder.system_prompt.deep_view() == Some(
                match self.system_prompt.deep_view() {
                    Some(existing) => existing + "\n\n"@ + text.text(),
                    None => text.text(),
                },
            ),
            builder == (AgentBuilder { system_prompt: builder.system_prompt, ..self }),
    {
        let mut builder = self;
        let text = text.into_text();
        builder.system_prompt = match builder.system_prompt {
            Some(existing) => {
                let mut prompt = existing;
                prompt.append("\n\n");
                prompt.append(text.as_str());
                Some(prompt)
            },
            None => Some(text),
        };
        builder
    }

    /// Registers one tool.
    pub fn tool(self, tool: T) -> (builder: Self)
        ensures
            builder.tools@ == self.tools@.push(tool),
            builder == (AgentBuilder { tools: builder.tools, ..self }),
    {
        let mut builder = self;
        builder.tools.push(tool);
        builder
    }

    /// Registers multiple tools.
    pub fn tools(self, tools: Vec<T>) -> (builder: Self)
        ensures
            builder.tools@ == self.tools@ + tools@,
            builder == (AgentBuilder { tools: builder.tools, ..self }),
    {
        let mut builder = self;
        let mut tools = tools;
        builder.tools.append(&mut tools);
        builder
    }

    /// Sets the round budget (default: [`DEFAULT_MAX_ROUNDS`]). A run that
    /// exceeds it fails: budget exhaustion is never a silent truncation.
    pub fn max_rounds(self, max_rounds: u32) -> (builder: Self)
        ensures
            builder == (AgentBuilder { max_rounds: Some(max_rounds), ..self }),
    {
        let mut builder = self;
        builder.max_rounds = Some(max_rounds);
        builder
    }

    /// Assembles the agent.
    ///
    /// Fails with [`AgentError::InvalidConfiguration`] when no model or no
    /// runtime was set.
    pub fn build(self) -> (built: Result<Agent<R, M, T>, AgentError>)
        ensures
            match built {
                Ok(agent) => {
                    &&& self.model == Some(agent.model)
                    &&& self.runtime == Some(agent.runtime)
                    &&& agent.tools == self.tools
                    &&& agent.system_prompt == self.system_prompt
                    &&& agent.max_rounds == (match self.max_rounds {
                        Some(rounds) => rounds,
                        None => DEFAULT_MAX_ROUNDS,
                    })
                    &&& agent.default_timeout is None
                },
                Err(error) => {
                    ||| self.model is None && error.deep_view()
                        == (AgentErrorView::InvalidConfiguration { message: "a model is required"@ })
                    ||| self.model is Some && self.runtime is None && error.deep_view()
                        == (AgentErrorView::InvalidConfiguration {
                        message: "a runtime is required"@,
                    })
                },
            },
    {
        let model = match self.model {
            Some(model) => model,
            None => {
                return Err(
                    AgentError::InvalidConfiguration { message: "a model is required".to_owned() },
                );
            },
        };
        let runtime = match self.runtime {
            Some(runtime) => runtime,
            None => {
                return Err(
                    AgentError::InvalidConfiguration { message: "a runtime is required".to_owned() },
                );
            },
        };
        let max_rounds: u32 = match self.max_rounds {
            Some(rounds) => rounds,
            None => DEFAULT_MAX_ROUNDS,
        };
        Ok(
            Agent {
                runtime,
                model,
                tools: self.tools,
                system_prompt: self.system_prompt,
                max_rounds,
                default_timeout: None,
            },
        )
    }
}

/// The agent's configuration: model, tools, system prompt, and budget, plus
/// the runtime it lives in. It holds no run state.
pub struct Agent<R, M, T> {
    /// The environment the agent lives in.
    pub runtime: R,
    /// The model.
    pub model: M,
    /// The registered tools, in registration order.
    pub tools: Vec<T>,
    /// The system prompt.
    pub system_prompt: Option<String>,
    /// The round budget.
    pub max_rounds: u32,
    /// The time budget of every run, in nanoseconds.
    pub default_timeout: Option<u128>,
}

impl<R, M, T> Agent<R, M, T> {
    /// Starts building an agent.
    pub fn builder() -> (builder: AgentBuilder<R, M, T>)
        ensures
            builder.runtime is None,
            builder.model is None,
            builder.tools@.len() == 0,
            builder.system_prompt is None,
            builder.max_rounds is None,
    {
        AgentBuilder::new()
    }

    /// The default reasoning loop, named for explicit intent: injects
    /// nothing.
    pub fn react(runtime: &R, model: M, tools: Vec<T>) -> (builder: AgentBuilder<R, M, T>) where
        R: Clone,

        ensures
            builder.runtime matches Some(kept) && cloned(*runtime, kept),
            builder.model == Some(model),
            builder.tools@ == tools@,
            builder.system_prompt is None,
            builder.max_rounds is None,
    {
        let builder = AgentBuilder::new().runtime(runtime).model(model).tools(tools);
        assert(builder.tools@ =~= tools@);
        builder
    }

    /// The research pattern: a system prompt instructing broad search,
    /// source verification, and cited synthesis, and a round budget of
    /// [`RESEARCH_MAX_ROUNDS`]. Both are overridable on the builder.
    pub fn research(runtime: &R, model: M, tools: Vec<T>) -> (builder: AgentBuilder<R, M, T>) where
        R: Clone,

        ensures
            builder.runtime matches Some(kept) && cloned(*runtime, kept),
            builder.model == Some(model),
            builder.tools@ == tools@,
            builder.system_prompt.deep_view() == Some(RESEARCH_SYSTEM_PROMPT@),
            builder.max_rounds == Some(RESEARCH_MAX_ROUNDS),
    {
        Self::react(runtime, model, tools).system_prompt(RESEARCH_SYSTEM_PROMPT).max_rounds(
            RESEARCH_MAX_ROUNDS,
        )
    }

    /// The reflection pattern: a system prompt instructing the draft,
    /// critique, revise discipline. Tools are optional for this pattern.
    pub fn reflection(runtime: &R, model: M) -> (builder: AgentBuilder<R, M, T>) where R: Clone
        ensures
            builder.runtime matches Some(kept) && cloned(*runtime, kept),
            builder.model == Some(model),
            builder.tools@.len() == 0,
            builder.system_prompt.deep_view() == Some(REFLECTION_SYSTEM_PROMPT@),
            builder.max_rounds is None,
    {
        AgentBuilder::new().runtime(runtime).model(model).system_prompt(REFLECTION_SYSTEM_PROMPT)
    }

    /// Sets a default time budget, in nanoseconds, applied to every run
    /// started afterwards; a budget of the run itself overrides it.
    pub fn with_timeout(self, nanos: u128) -> (agent: Self)
        ensures
            agent == (Agent { default_timeout: Some(nanos), ..self }),
    {
        let mut agent = self;
        agent.default_timeout = Some(nanos);
        agent
    }
}

/// Whether `i` is the first place a name stands at.
pub open spec fn first_named(names: Seq<Seq<char>>, name: Seq<char>, i: int) -> bool {
    &&& 0 <= i < names.len()
    &&& names[i] == name
    &&& forall|j: int| 0 <= j < i ==> names[j] != name
}

/// The place of the tool a call addresses: the first one registered under
/// the name.
pub fn find_tool(names: &Vec<String>, name: &str) -> (found: Option<usize>)
    ensures
        match found {
            Some(i) => first_named(names.deep_view(), name@, i as int),
            None => !names.deep_view().contains(name@),
        },
{
    let mut i: usize = 0;
    while i < names.len()
        invariant
            i <= names@.len(),
            forall|j: int| 0 <= j < i ==> names.deep_view()[j] != name@,
        decreases names@.len() - i,
    {
        if same_text(names[i].as_str(), name) {
            return Some(i);
        }
        i += 1;
    }
    None
}

/// The final outcome a terminal event carries.
pub open spec fn outcome_of(event: TurnEventView) -> Option<
    Result<AgentOutputView, AgentErrorView>,
> {
    match event {
        TurnEventView::Lifecycle(LifecycleEventView::Completed { response }) => Some(Ok(response)),
        TurnEventView::Lifecycle(LifecycleEventView::Failed { error }) => Some(Err(error)),
        TurnEventView::Lifecycle(LifecycleEventView::Cancelled { reason }) => Some(
            Err(AgentErrorView::Cancelled(reason)),
        ),
        _ => None,
    }
}

/// What a run's result holds.
pub open spec fn result_view(result: Result<AgentOutput, AgentError>) -> Result<
    AgentOutputView,
    AgentErrorView,
> {
    match result {
        Ok(output) => Ok(output.deep_view()),
        Err(error) => Err(error.deep_view()),
    }
}

/// What an optional result holds.
pub open spec fn outcome_view(outcome: Option<Result<AgentOutput, AgentError>>) -> Option<
    Result<AgentOutputView, AgentErrorView>,
> {
    match outcome {
        Some(result) => Some(result_view(result)),
        None => None,
    }
}

/// Maps a terminal lifecycle event onto the run's final outcome.
pub fn map_terminal(event: &TurnEvent) -> (outcome: Option<Result<AgentOutput, AgentError>>)
    ensures
        outcome_view(outcome) == outcome_of(event.deep_view()),
{
    match event {
        TurnEvent::Lifecycle(LifecycleEvent::Completed { response }) => Some(Ok(response.clone())),
        TurnEvent::Lifecycle(LifecycleEvent::Failed { error }) => Some(Err(error.clone())),
        TurnEvent::Lifecycle(LifecycleEvent::Cancelled { reason }) => Some(
            Err(AgentError::Cancelled(*reason)),
        ),
        _ => None,
    }
}

/// Whether an event opens a reasoning round.
pub open spec fn opens_round(event: TurnEventView) -> bool {
    event matches TurnEventView::Model(ModelEventView::Requested { purpose, .. }) && purpose
        == CallPurpose::Reasoning
}

/// What the holder of a run knows from the events consumed so far.
pub struct AgentRunner {
    rounds_seen: usize,
    terminal: Option<Result<AgentOutput, AgentError>>,
}

impl AgentRunner {
    /// How many reasoning rounds the consumed events opened.
    pub closed spec fn seen(&self) -> nat {
        self.rounds_seen as nat
    }

    /// The outcome of the run, once its terminal event was consumed.
    pub closed spec fn outcome(&self) -> Option<Result<AgentOutputView, AgentErrorView>> {
        outcome_view(self.terminal)
    }

    /// Nothing consumed yet.
    pub fn new() -> (runner: Self)
        ensures
            runner.seen() == 0,
            runner.outcome() is None,
    {
        AgentRunner { rounds_seen: 0, terminal: None }
    }

    /// Records round count and the terminal outcome from an event.
    pub fn note(&mut self, event: &TurnEvent)
        requires
            old(self).seen() < usize::MAX,
        ensures
            final(self).seen() == old(self).seen() + (if opens_round(event.deep_view()) {
                1nat
            } else {
                0nat
            }),
            final(self).outcome() == (match outcome_of(event.deep_view()) {
                Some(result) => Some(result),
                None => old(self).outcome(),
            }),
    {
        if let TurnEvent::Model(ModelEvent::Requested { purpose, .. }) = event {
            if *purpose == CallPurpose::Reasoning {
                self.rounds_seen = self.rounds_seen + 1;
            }
        }
        if let Some(result) = map_terminal(event) {
            self.terminal = Some(result);
        }
    }

    /// The number of reasoning rounds observed so far.
    pub fn rounds(&self) -> (rounds: usize)
        ensures
            rounds == self.seen(),
    {
        self.rounds_seen
    }

    /// The outcome, if the terminal event was consumed: awaiting a run after
    /// full iteration still resolves.
    pub fn poll_result(&self) -> (outcome: Option<Result<AgentOutput, AgentError>>)
        ensures
            outcome_view(outcome) == self.outcome(),
    {
        match &self.terminal {
            Some(Ok(output)) => Some(Ok(output.clone())),
            Some(Err(error)) => Some(Err(error.clone())),
            None => None,
        }
    }
}

/// What the product narrative shows of an event: input-side payloads
/// (`Started`, `Requested`, `Responded`) stay on the observation side.
pub open spec fn narrative_of(event: TurnEventView) -> Option<ExecutionEventView> {
    match event {
        TurnEventView::Model(ModelEventView::StreamDelta { delta, .. }) => Some(
            ExecutionEventView::Delta(delta),
        ),
        TurnEventView::Tool(ToolEventView::CallRequested { call, .. }) => Some(
            ExecutionEventView::ToolRequested(call),
        ),
        TurnEventView::Tool(ToolEventView::CallCompleted { call_id, result, .. }) => Some(
            ExecutionEventView::ToolCompleted { call_id, result },
        ),
        TurnEventView::Lifecycle(LifecycleEventView::Completed { response }) => Some(
            ExecutionEventView::Completed(response),
        ),
        TurnEventView::Lifecycle(LifecycleEventView::Failed { error }) => Some(
            ExecutionEventView::Failed(error),
        ),
        TurnEventView::Lifecycle(LifecycleEventView::Cancelled { reason }) => Some(
            ExecutionEventView::Cancelled(reason),
        ),
        _ => None,
    }
}

/// Projects an event onto the product narrative.
pub fn execution_event(event: TurnEvent) -> (narrative: Option<ExecutionEvent>)
    ensures
        narrative.deep_view() == narrative_of(event.deep_view()),
{
    match event {
        TurnEvent::Model(ModelEvent::StreamDelta { delta, .. }) => Some(
            ExecutionEvent::Delta(delta),
        ),
        TurnEvent::Tool(ToolEvent::CallRequested { call, .. }) => Some(
            ExecutionEvent::ToolRequested(call),
        ),
        TurnEvent::Tool(ToolEvent::CallCompleted { call_id, result, .. }) => Some(
            ExecutionEvent::ToolCompleted { call_id, result },
        ),
        TurnEvent::Lifecycle(LifecycleEvent::Completed { response }) => Some(
            ExecutionEvent::Completed(response),
        ),
        TurnEvent::Lifecycle(LifecycleEvent::Failed { error }) => Some(
            ExecutionEvent::Failed(error),
        ),
        TurnEvent::Lifecycle(LifecycleEvent::Cancelled { reason }) => Some(
            ExecutionEvent::Cancelled(reason),
        ),
        _ => None,
    }
}

/// Whether an event of the product narrative ends it.
pub open spec fn ends_narrative(event: ExecutionEventView) -> bool {
    event is Completed || event is Failed || event is Cancelled
}

/// The product narrative of the given events.
pub open spec fn narrative(told: Seq<TurnEventView>) -> Seq<ExecutionEventView>
    decreases told.len(),
{
    if told.len() == 0 {
        Seq::empty()
    } else {
        let earlier = narrative(told.drop_last());
        match narrative_of(told.last()) {
            Some(event) => earlier.push(event),
            None => earlier,
        }
    }
}

proof fn narrative_without_terminal(told: Seq<TurnEventView>)
    requires
        forall|i: int| 0 <= i < told.len() ==> !is_terminal(#[trigger] told[i]),
    ensures
        forall|i: int|
            0 <= i < narrative(told).len() ==> !ends_narrative(#[trigger] narrative(told)[i]),
    decreases told.len(),
{
    if told.len() > 0 {
        let shorter = told.drop_last();
        assert forall|i: int| 0 <= i < shorter.len() implies !is_terminal(#[trigger] shorter[i]) by {
            assert(shorter[i] == told[i]);
        }
        narrative_without_terminal(shorter);
        assert(told[told.len() - 1] == told.last());
        assert forall|i: int| 0 <= i < narrative(told).len() implies !ends_narrative(
            #[trigger] narrative(told)[i],
        ) by {
            if i < narrative(shorter).len() {
                assert(narrative(told)[i] == narrative(shorter)[i]);
            }
        }
    }
}

/// The product narrative keeps the terminal invariant: when the last of the
/// given events is their only terminal one, the narrative ends with its only
/// terminal item, and that item carries the outcome the run resolves to.
pub proof fn narrative_ends_with_the_terminal(told: Seq<TurnEventView>)
    requires
        told.len() > 0,
        is_terminal(told.last()),
        forall|i: int| 0 <= i < told.len() - 1 ==> !is_terminal(#[trigger] told[i]),
    ensures
        narrative(told).len() > 0,
        ends_narrative(narrative(told).last()),
        forall|i: int|
            0 <= i < narrative(told).len() - 1 ==> !ends_narrative(#[trigger] narrative(told)[i]),
        outcome_of(told.last()) == (match narrative(told).last() {
            ExecutionEventView::Completed(output) => Some(Ok(output)),
            ExecutionEventView::Failed(error) => Some(Err(error)),
            ExecutionEventView::Cancelled(reason) => Some(Err(AgentErrorView::Cancelled(reason))),
            _ => None,
        }),
{
    let shorter = told.drop_last();
    assert forall|i: int| 0 <= i < shorter.len() implies !is_terminal(#[trigger] shorter[i]) by {
        assert(shorter[i] == told[i]);
    }
    narrative_without_terminal(shorter);
    assert forall|i: int| 0 <= i < narrative(told).len() - 1 implies !ends_narrative(
        #[trigger] narrative(told)[i],
    ) by {
        assert(narrative(told)[i] == narrative(shorter)[i]);
    }
}

/// The product narrative of events in a row is that of the first ones, then
/// that of the others. It shows fragments, calls and their results, and the
/// outcome, each as it was told; starts, requests, and responses stay on the
/// observation side.
pub proof fn narratives_join(
    told: Seq<TurnEventView>,
    more: Seq<TurnEventView>,
    event: TurnEventView,
)
    ensures
        narrative(told + more) == narrative(told) + narrative(more),
        narrative(seq![event]) == (match event {
            TurnEventView::Model(ModelEventView::StreamDelta { delta, .. }) => seq![
                ExecutionEventView::Delta(delta),
            ],
            TurnEventView::Tool(ToolEventView::CallRequested { call, .. }) => seq![
                ExecutionEventView::ToolRequested(call),
            ],
            TurnEventView::Tool(ToolEventView::CallCompleted { call_id, result, .. }) => seq![
                ExecutionEventView::ToolCompleted { call_id, result },
            ],
            TurnEventView::Lifecycle(LifecycleEventView::Completed { response }) => seq![
                ExecutionEventView::Completed(response),
            ],
            TurnEventView::Lifecycle(LifecycleEventView::Failed { error }) => seq![
                ExecutionEventView::Failed(error),
            ],
            TurnEventView::Lifecycle(LifecycleEventView::Cancelled { reason }) => seq![
                ExecutionEventView::Cancelled(reason),
            ],
            _ => Seq::empty(),
        }),
    decreases more.len(),
{
    reveal_with_fuel(narrative, 2);
    assert(seq![event].drop_last() =~= Seq::<TurnEventView>::empty());
    if let Some(shown) = narrative_of(event) {
        assert(Seq::<ExecutionEventView>::empty().push(shown) =~= seq![shown]);
    }
    if more.len() == 0 {
        assert(told + more =~= told);
        assert(narrative(told) + narrative(more) =~= narrative(told));
    } else {
        narratives_join(told, more.drop_last(), event);
        assert((told + more).drop_last() =~= told + more.drop_last());
        assert((told + more).last() == more.last());
        assert(narrative(told + more) =~= narrative(told) + narrative(more));
    }
}

/// A terminal event resolves the run to what it says, and no other event
/// resolves it; rounds are opened by the requests of the reasoning loop
/// alone.
pub proof fn terminal_events_resolve(event: TurnEventView)
    ensures
        match event {
            TurnEventView::Lifecycle(LifecycleEventView::Completed { response }) => outcome_of(
                event,
            ) == Some(Ok::<_, AgentErrorView>(response)),
            TurnEventView::Lifecycle(LifecycleEventView::Failed { error }) => outcome_of(event)
                == Some(Err::<AgentOutputView, _>(error)),
            TurnEventView::Lifecycle(LifecycleEventView::Cancelled { reason }) => outcome_of(event)
                == Some(Err::<AgentOutputView, _>(AgentErrorView::Cancelled(reason))),
            _ => outcome_of(event) is None,
        },
        is_terminal(event) <==> outcome_of(event) is Some,
        opens_round(event) <==> (event matches TurnEventView::Model(
            ModelEventView::Requested { purpose, .. },
        ) && purpose == CallPurpose::Reasoning),
{
}

} // verus!
