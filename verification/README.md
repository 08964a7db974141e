# sgproxy

The logic of a credential proxy for the ClaudeCode (Anthropic) and Codex
(OpenAI) APIs, written in Verus with its behaviour stated in contracts and
proved.

- `src/` is the verified library:
  - `oauth.rs`: OAuth 2 with PKCE (authorize URLs, reading a pasted callback,
    token request bodies, refresh outcomes, profile and usage parsing);
  - `proxy.rs`: the headers and URL of a proxied request, the headers that come
    back, and the OpenAI form of the Codex model list;
  - `requests.rs`: the token, profile and usage requests the proxy makes on
    its own behalf, each given whole (method, URL, headers, body);
  - `tokenizer.rs`: input-token counting of Responses requests;
  - `do_state.rs`: routing and admin-token gating, credential lookup, usage
    entries and what is recorded after a proxied request;
  - `credential_input.rs`: how a credential to store is put together, step by
    step (merge, refresh, profile, finish);
  - `laws.rs`: properties that hold across the library;
  - `json.rs`, `text.rs`, `config.rs`: JSON values, text helpers, constants and
    stored records;
  - `primitives.rs`: the calls into `url`, `base64`, `sha2`, `rand`,
    `tiktoken-rs` and std, each with the contract the proofs rely on.
- `tests/` runs the library on concrete values.
- `app/` is the Worker side: HTTP calls, serde forms of the types, JSON
  conversion and response building.

`app/` does not hold the Durable Object that serves the admin and proxy
endpoints: it needs a storage layer and a credential-selection module that
this repository does not contain, so the handler that would run the library's
routing, authorization, refresh, resolution and follow-up decisions against
stored credentials is not written.
