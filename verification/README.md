# frontend

The web frontend of the security classification converter: sign-in, the
conversion request workflow (document submission, LLM metadata extraction,
validation and confirmation), browsing stored metadata by tag, pattern and
domain, and user pages.

## Layout

- `src/` — the library, verified with Verus. Each public function states in
  its contract what it returns, over spec functions on character sequences:
  - `text` — trimming, searching, joining and splitting comma lists, decimal
    parsing, with laws on reading back a joined list;
  - `session`, `routes`, `auth`, `config` — page context, redirect locations,
    the sign-in check and session entries, server settings;
  - `conversion` — the submission form, the extraction prompt, the assembled
    conversion request, the validation page's lists and the confirmed input;
  - `metadata`, `users` — filtering and searching listings;
  - `graphql` — how each API operation authenticates and settles its reply;
  - `llm` — provider configuration, prompts and how replies become responses.
- `tests/` — tests of the library on concrete values.
- `app/` — the actix-web server: HTTP handlers, GraphQL and LLM transport,
  templates and sessions, calling the library for every decision.
