# ulgate

An HTTP gateway for agents. It admits requests (rate limit, probes, degradation, shutdown),
identifies callers (API keys, tenants, OAuth tokens), routes them, answers them from a document
store, language models and workflows, and keeps account of what it served (objectives, traffic
shadow).

- `src/` is the library: the rules, verified with Verus. It does no input or output. What is read,
  stored or asked elsewhere comes in as values and goes out as values.
- `tests/` runs the library with its outside crates.
- `app/` is the program around it: the listener, the environment, the store and the models.

| Part | Modules |
| --- | --- |
| Text, maps, fractions, clocks, digests, JSON | `text`, `keyed`, `ratio`, `clock`, `encoding`, `hashing`, `json` |
| Way of a request | `connection`, `server`, `router`, `requests`, `response` |
| Protection | `auth`, `oauth`, `ratelimit`, `degradation`, `probes` |
| Account | `slo`, `shadow`, `observe` |
| Work | `documents`, `tools`, `chat`, `workflows`, `tenant`, `bridge`, `handlers` |

Laws that relate several functions stand at the end of each module, and in `oauth_laws`,
`bridge_laws` and `server_laws`.
