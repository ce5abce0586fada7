# free_agent_gateway

A gateway in front of LLM providers that speaks the OpenAI interface. It keeps
many keys of many providers, chooses among them by their limits and their
health, and learns from what providers answer.

`src/` is the library, written in Verus: every rule of the gateway stands there
with a contract that is proved.

- `keystate`, `keyhub`: keys, their limits and states, and how one is chosen.
  `keyhub::laws` states what holds of them throughout.
- `adaptive`: what a request needs, and which model is best for it.
- `providers`: how requests and answers of each provider are shaped.
- `models`, `error`, `sanitize`: requests, answers and errors.
- `metadata`: what is learned of models, and how usage is counted.
- `health`, `rate_rules`, `config`, `cors`: health of providers, known limits,
  settings, and cross-origin rules.
- `api`: the OpenAI interface and the administrative one.
- `json`, `text`, `lists`, `sorting`: values and sequences that the rest is
  built on.
- `json_text`, `clock`, `identifiers`, `patterns`, `registry`: the calls into
  other crates, each with what is believed of it.

`app/` is the server around the library: it reads settings, talks to providers
and to the database, and serves the interface. `tests/` runs the library on
concrete values. `extras/dashboard/` is the page of the administrative
interface.
