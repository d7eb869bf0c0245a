# xz_modules

An LLM provider layer (OpenAI-compatible, Anthropic and local model servers,
with routing, fallbacks and retries) and a multi-channel RAG engine, with the
logic verified by Verus.

- `src/` is the verified library.
  - `provider/`: messages and requests, errors and the retry policy, the
    server-sent-event line buffer, tool-call reassembly, the wire formats of the
    three APIs (request bodies, responses, stream events), configuration
    checks, latency tracking and the routing table.
  - `rag/`: chunking strategies, document indexing, retrieval requests and
    results, context assembly within a token budget, citations, prompt
    templates and the engine core that turns retrieved hits into an answer.
  - `text.rs`, `clock.rs`: string and time helpers shared by both.
- `app/` is the runtime around it: HTTP calls, JSON and YAML, configuration
  files and environment variables, the async router and engine, logging, and
  the floating-point score fusion of retrieval.
- `tests/` exercises the library from outside.
