# tracing_axiom

An [Axiom.co](https://axiom.co) backend for the `tracing` crate, with ingest of events and
metrics. What the client decides is verified with [Verus](https://github.com/verus-lang/verus):
each function in `src/` states what it does, and the statement is proved.

## Layout

- `src/` is the verified library. It works on plain values and performs no I/O.
  - `config`: what a configuration must satisfy, routes, redirects.
  - `value`, `fields`, `event`, `text`: fields of spans and events, and the object that an
    event is sent as.
  - `layer`: identity and timing of spans, and what is sent of spans and events.
  - `ndjson`, `frame`: lines, their limits, and compressed frames.
  - `batch`, `blob`: when a batch is sent, and its request body.
  - `pool`, `protocol`: sender slots, and why no batch is lost between them.
  - `send`: what a reply means, and when to try again.
- `app/` is ordinary Rust around it: the queues, the background tasks, HTTP, and the `tracing`
  layer.
- `tests/` runs the library on concrete values.

## Usage

Assumptions:
- `tokio` async runtime.
- `data` field configured as a map field in your Axiom dataset.
- `base_url` set to the base domain of your organization's edge deployment:
  <https://axiom.co/docs/reference/regions>
- `api_key` set as the ingest API wants it: <https://axiom.co/docs/restapi/ingest>

`init` starts a client and gives a handle with a queue for events and one for metrics. `layer`
makes a `tracing` layer that feeds the queue for events. Custom events can be queued as well, as
long as they implement `serde::Serialize`. Call `deinit` on the handle at the end: dropping it
panics.

## What is trusted

Calls into other crates stand behind small functions whose contracts are believed: zstd's
encoder, `bytes::Bytes::from`, `reqwest::Url::join`, `HeaderValue::from_str`, the RFC 3339 form
of `time`, `rand::Rng::random`, the clone of a `serde_json::Value`, and three functions on
strings of the standard library. Each says in its doc comment what is claimed of the call.
