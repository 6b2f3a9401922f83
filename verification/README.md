# agnt

An agent runtime whose decisions are proved: the agent loop with its limits and
policies, the formats of model providers, a task engine, a message-bus bridge and
an HTTP daemon.

- `src/` is the library. It performs no I/O but to ask for random numbers, the time
  and the home directory. Functions state in their contracts what they return, over
  mathematical models of messages, documents and texts, and Verus proves it; the
  methods of `Observer`, `MessageStore` and `AgentRunner` are for users to implement
  and promise nothing. What is done over time (a step of an agent, a task, a retried
  request, an action on the desktop) is a state machine that takes events and says
  what to do next. Laws that relate several functions stand beside them as proof
  functions.
- `app/` drives those machines: HTTP, SQLite, the bus, child processes and the
  desktop.
- `tests/` runs the library on concrete values.

Where to look:

| Module | What it holds |
|--------|---------------|
| `agent`, `step`, `step_laws`, `builder` | the agent loop, its window and limits |
| `tool` | tools and the registry |
| `net` | requests, streams, conversion and retries |
| `engine` | tasks, backoff, recovery and schedules |
| `bridge`, `wire` | the bridge and its subjects |
| `daemon` | the HTTP daemon |
| `mcp` | the MCP client's protocol |
| `tools` | the tools' arguments, policies and reports |
| `eval`, `codegen`, `store` | evaluation, generated code, rows of the store |
| `text`, `search`, `pieces`, `decimal`, `calendar`, `order`, `table`, `json`, `ids`, `paths` | the models that the contracts speak of |
