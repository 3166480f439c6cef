# synonz

The core of an agent framework: canonical messages, the tool and model
contracts, the event model, the reasoning loop, conversations and their
stores, memory flows, cancellation, and a periodic scheduler.

Everything that decides is verified with Verus. What waits, sends, or
serializes is ordinary Rust around it.

## Layout

- `src/` is the verified library. Its functions state in `requires` and
  `ensures` what they do, over views of the data.
  - `message`, `subject`, `text`, `io`, `error`, `event`: the values.
  - `tool`, `tool_round`, `model`, `mock`: the contracts of tools and models,
    and what a round of tool calls and a completed call amount to.
  - `agent`, `agent_loop`, `agent_laws`: the agent's configuration, the
    reasoning loop as a step function from state and input to state and
    action, and what holds of every run.
  - `conversation`, `listing`, `inprocess`, `sweep`, `teardown`, `lifecycle`,
    `runtime`: the truth archive, its pages, the in-process stores, the idle
    sweep, and the end of a conversation.
  - `memory`, `context`, `layers`, `trigger`, `layer_store`: the memory's
    vocabulary, the read and write phases of a turn, the flows between the
    layers, and the layers kept in the process.
  - `shelves`: lists of items under keys.
  - `bus`, `cancel`, `scheduler`: the observation queue, the cancellation
    signal, and the table of periodic tasks.
- `tests/` runs the library on concrete values.
- `app/` is the asynchronous face: the traits applications implement, the
  tasks that perform the library's actions, and the serialized forms.

## Reading the contracts

A step function takes what came of the last action and returns the next one.
Its `requires` names the inputs that can follow the action it returned; its
`ensures` equates the result with a spec function on views. The laws of the
library are public proof functions beside the code they speak of.

Calls into other crates and into parts of the standard library stand behind
small functions whose doc comments say what is taken on trust.
