# budget_lib

The logic of a small budgeting service, verified with Verus: monthly budgets
and their CSV export, the subscription row and who may use the budget,
Stripe webhook signatures and replies, and the e-mail login stores.

- `src/` is the verified library.
  - `types.rs`: requests, errors, the subscription row and its entitlement,
    months and budget years.
  - `budget.rs`: assembling a month's budget, grouping the full budget, CSV.
  - `billing.rs`: how checkouts and Stripe lifecycle events change the row,
    and the laws about those changes.
  - `stripe.rs`: webhook signature checking, request forms, reply decoding.
  - `auth.rs`: login codes and session tokens, with their expiry.
  - `http.rs`: the status each outcome is answered with, webhook routing and
    the entitlement gate.
  - `dao.rs`: the storage interface and its error mapping.
  - `text.rs`: string helpers (decimal text, trimming, splitting, parsing).
  - `clock.rs`, `crypto.rs`, `json.rs`: the calls into `chrono`, `hmac`/`sha2`/
    `sha256` and `serde_json`, each with the contract it is trusted to meet.
- `tests/` runs the library on concrete values.
- `app/` is the program around it: the REST service (`budget`), the login
  service (`auth`), the command that creates the Stripe product, the SQLite
  store, the HTTP clients and the JSON shapes.
