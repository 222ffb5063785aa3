# inference-super-router

A payment-gated router for AI inference, with its logic verified in Verus.
Clients send chat requests to one OpenAI-compatible API, pay for each request
with the x402 protocol or with credits, and are answered by one of several
upstream APIs.

## Layout

- `src/` is the library. Its logic is verified: each function states in its
  contract what it returns or changes. Calls into std and other crates stand in
  small wrappers, whose contracts are believed without proof; the comment above
  each one says what it claims.
  - `text`, `json`, `encoding`, `order`, `clock`, `crypto`, `http`: the ground
    that the rest stands on, among it the calls into other crates.
  - `models`, `config`, `endpoints`: chat messages, addresses and amounts, and
    how the router is set up.
  - `erc8128`: signing requests and verifying signed ones.
  - `payment`: what a request costs, and what the facilitator is asked.
  - `services`: rate limits, nonces, sessions, known payers, settlements, and
    the clients of the facilitator, the credits API and the upstream APIs.
  - `middleware`: how a request is paid, step by step.
  - `handler`, `routes`: what is sent upstream, and the pages.
- `tests/` holds the tests of the library.
- `app/` is the server around it: it runs the HTTP server and the settlement
  worker, makes the network calls, and keeps the settlements on disk.

The flows that wait for somebody else (the facilitator, the credits API, an
upstream API) are written as steps: a function says what to ask, and another
one takes the answer and says what follows.

## Laws

Properties that span several functions stand as public proof functions whose
names begin with `law_`, beside the functions that they speak of. Among them:
a request that was signed is verified, a payment is taken once for as long as
its nonce counts as used, a payer counts as verified for half a minute,
settlements are claimed in the order in which they were queued, a client over
its limit is refused, and credits are deducted before a request is served for
them.

## Environment

`BOT_WALLET_ADDRESS` and `FACILITATOR_URL` must be set. The endpoints are read
from the file that `ENDPOINTS_CONFIG` names (`endpoints.ron`), and the API key
of each from the variable that it names. `PORT`, `TEST_MODE`, `BASE_URL`,
`SETTLEMENT_DB_PATH`, `SETTLEMENT_QUEUE_MAX_SIZE`, `SESSION_TTL_SECS` and the
`USDC_` and `STARKBOT_` variables have defaults. Credits are taken where
`CREDITS_ADMIN_PRIVATE_KEY` is set.
