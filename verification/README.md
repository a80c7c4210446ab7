# episod

A gateway for LLM agent sessions ("episodes"): conversation turns form a DAG that can be
forked, tool calls run under per-tool policies with human approval, requests are routed to
inference replicas by consistent hashing, and streamed output is turned into events.

- `src/` is the library, written and proved with Verus: the episode model, the turn state
  machine, context pruning, guardrails, the tool registry, the hash ring and health rules,
  the in-memory store, the OpenAI-compatible request and stream handling, the terminal tree
  and the benchmark arithmetic. Each public function states its result in its contract, and
  the `law_*` proof functions state what holds across calls.
- `app/` is the server and command line around it: HTTP routes, SSE streaming, the SQLite
  and HTTP stores, the upstream client, timers and printing.
- `tests/` exercises the library on concrete values.
