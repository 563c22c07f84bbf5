# seekcli

A terminal agent harness for DeepSeek-style chat models: a ReAct loop that
calls the model, runs tools, keeps a durable event log of the session, and
manages skills, memory, sub-agents and configuration layers.

The crate is split in two:

- `src/` is the library, written in Verus and verified: the agent loop as a
  state machine (`run_loop`), the decisions around it (`engine`), the session
  event log and its projection (`session`, `history`), stream parsing
  (`sse`, `anthropic`), retries (`resilience`), token and cost accounting,
  context compression, skills, memory, proposals, configuration layers and
  the command parser. Each public function states its result in `ensures`,
  and the laws that span functions stand as public proof functions.
- `app/` is the program around it: argument handling, HTTP and process I/O,
  the file store, and the async loop that performs what the library's state
  machine asks for and reports back.

`tests/` runs the library on concrete inputs.
