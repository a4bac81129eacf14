# llm_wiki

A personal wiki driven by language models, with its core written in Verus
and proved against its contracts.

## Layout

- `src/` — the verified library.
  - `engine.rs`: the wiki kernel — keyed stores of sources, claims, pages and
    entities; ingest with redaction, filing and superseding claims,
    promotion, crystallization, audit trail, event outbox and its flush.
  - `wiki_core.rs`: memory tiers, scopes, wikilinks, redaction of secrets,
    crystallized page drafts.
  - `search.rs`, `graph.rs`, `lint.rs`, `projection.rs`: keyword retrieval
    paths, graph walks, the wiki lint, and the Markdown projection.
  - `agent_*.rs`, `stream.rs`, `llm.rs`: shell-command policy, the agent's
    planning loop and tools, and the accumulation of streamed completions.
  - `clip.rs`, `browser.rs`, `html_text.rs`, `research.rs`, `registry.rs`:
    the web clipper's endpoint, fetched pages, readable text of HTML,
    research reports and the MCP registry.
  - `text.rs`, `unicode.rs`, `json.rs`, `pattern.rs`: text, JSON and
    regular-expression support with their specifications.
- `tests/` — tests of the library on concrete values.
- `app/` — the command-line program around the library: terminal output,
  files, the clipper's HTTP server, JSON and TOML decoding, and the
  floating-point scoring (confidence, retention, rank fusion).
