# local_openai

The core of a local OpenAI-compatible chat backend for an agent client,
verified with Verus. Instead of calling the agent server, the client sends the
user's conversation to a configured chat-completions endpoint and turns the
streamed reply into the response events its UI already consumes.

- `src/` — the verified library:
  - `text` — Unicode white space, trimming, prefix stripping on character
    sequences.
  - `api` — the request (inputs, tasks, settings) and the response events.
  - `ids` — fresh UUIDs.
  - `local_openai` — settings and request resolution, the response stream as
    a state machine (`start_local_stream`, `LocalStream`), and its parts:
    `chat` (UTF-8 decoding of the byte stream, server-sent-event lines, chunk
    events, requests), `events`, `history` (the chat history sent to the
    model), `tools` (replaying recorded tool calls).
  - `local_openai_text` — the text-only backend: one user query in, streamed
    text out.
- `app/` — the unverified shell: HTTP with `reqwest`, JSON with `serde`, and
  the async streams that feed the library's decisions.
- `tests/` — tests of the library.
