# llms-sdk

A unified Rust SDK for calling LLM APIs: OpenAI-compatible chat completions and
the Anthropic Messages API, through a single request/response model. The library
is written in Verus: its conversions and the assembly of streamed responses carry
contracts that Verus proves.

## Layout

- `src/types.rs`: the provider-independent model (messages and their parts,
  requests and their builder, responses, streaming items, retry policy).
- `src/anthropic.rs`: the Anthropic wire format and the conversions to and from
  the model, including the request conversion (system prompt, sampling, thinking,
  output format, tools, prompt caching).
- `src/anthropic_stream.rs`: the state machine that turns the server-sent events
  of a streamed Anthropic response into deltas and a final aggregated response.
- `src/openai.rs`: the OpenAI wire format and its conversions.
- `src/indexed.rs`: values kept in ascending order of a block index.
- `src/encoding.rs`, `src/json.rs`: the calls into `base64`, `file-format`,
  `serde_json`, `schemars` and a few `str` methods, each behind a small function
  whose contract states what the call returns.
- `src/errors.rs`: the error types and their messages.
- `app/`: the `llms` command-line program and the HTTP clients (`reqwest` with
  retries, server-sent events), with the JSON forms of the wire types.
- `tests/`: unit tests of the library.

Sampling parameters (`temperature`, `top_p`) are carried as the bits of their
`f32` values; the program converts them when it writes JSON.
