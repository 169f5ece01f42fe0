# agent_provider

The core of an LLM agent runtime, written in Verus: what to send to a
model, how to read what comes back, and what to do next.

- `src/` is the verified library. Plans and intents are parsed from model
  replies; prompts and request messages are built; streamed provider
  bodies are cut into events; the agent loop, the plan executor and the
  exploratory step are state machines that decide on every outcome; MCP
  connections have a circuit breaker, a heartbeat, a reconnection back-off
  and a per-server operation queue. Each public function states its result
  in its `ensures`; the `law_*` proof functions state what holds across
  calls.
- `serde_json` values are seen through a model of plain data (`json.rs`),
  and time through `std::time` (`clock.rs`); the few functions that call
  them are trusted wrappers whose contracts say what the outside code
  does.
- `app/` is ordinary Rust around the library: HTTP providers, MCP
  transports, the async loops that perform what the state machines
  decide, and serde copies of the library's types.
- `tests/` runs the library on concrete values.
