# openai_api_rust

The data of an OpenAI-compatible chat API, with tool calling, verified with Verus.

- `src/apis/`: messages, roles, choices and tools; what their JSON members mean (`wire.rs`); the
  paths of the API.
- `src/lookup.rs`, `src/dialogue.rs`: a tool that looks up examples, and a conversation in which
  the model may call it.
- `src/drafting/`: a run that has a model draft long documents: the prompt, dates and timestamps,
  rows of comma-separated values, and the figures of the run.
- `src/text.rs`: numbers as decimal text.
- `src/outside.rs`: what is taken on trust of `std` and `serde_json`.
- `app/`: JSON with `serde`, and the two programs around the library, which leave the connection
  to their caller.
