# llmux_server

The rules of an LLM gateway, verified with Verus: which request may be served, by which account, in
which protocol, and what is answered, logged and remembered.

- `src/` holds the library. Everything in it is verified; calls into outside crates (`serde_json`,
  `base64`, `hmac`, `url`, `http`, `time`, `uuid`) stand behind small functions with a stated contract.
  - `text`, `json`, `calendar`, `clock`, `order`, `cache`: what the rest is built from.
  - `error`, `middleware`, `app`: replies, keys, sessions, caches and the request log.
  - `routes`: one module per group of routes; `routes/v1` is the gateway itself. Dispatching is a
    state machine: each method takes what came of the outside work and says what follows.
  - `aggregate_probe`: the background probe of aggregate aliases.
- `tests/` runs the library on concrete values, with the outside crates linked.
- `app/` is the server around the library: routes, database, upstream connections and streams. The
  services of the gateway's core are behind the trait `Core`.
