# moagan

The decision layer of a client for several LLM providers, verified with Verus.

The library decides; it does not talk. It says what goes over the wire and
under which ceiling, what an answer means, whether a call is made again and how
long to wait, what is remembered of an upstream and what of a reply is JSON.

- `src/` is the library. Verus proves what its functions state. What it takes
  on trust are the calls of other crates and of a few functions of the standard
  library: the wrappers marked `external_body` and the `assume_specification`
  items, each with a comment that says what is claimed.
  - Ceilings: `max_tokens` puts the layers together; `detection` and `probe`
    discover the ceiling of an upstream, `detection_laws` says what a discovery
    guarantees, and `probe_table` remembers it.
  - Providers: `minimax`, `openai_compat`, `openai_compatible` and
    `opencode_go` with `opencode_go_anthropic` and `opencode_go_responses`.
    Each has a `plan` for a request and a `next` for what came back.
  - What they share: `messages_wire`, `responses_wire`, `sse`, `transport`,
    `backoff`, `circuit_breaker`, `endpoints`, `api_keys`, `capabilities`.
  - Replies: `json_extractor` finds the JSON in a reply, and `json_strategy`
    says what is done about one that does not parse.
  - What upstreams refuse: `param_rejections`. What models take: `models_dev`
    and `modal_gate`.
  - Tests without an upstream: `mock` and `fixtures`.
  - `text`, `text_map`, `wire`, `config`, `role`, `error` and `sidecar` hold
    what the others are made of; `json`, `patterns`, `clock` and `backoff` are
    the places where outside crates are called; `text`, `max_tokens` and
    `modal_gate` hold what is claimed of the standard library.
- `tests/` runs the library on concrete values.
- `app/` is ordinary Rust around the library: the environment, files, HTTP and
  background tasks.

Functions named `law_…` state what holds of several functions together.
