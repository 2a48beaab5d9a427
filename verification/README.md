# scholarship_escrow

Escrowed scholarships paid out semester by semester, gated on the student's
GPA, with the rules proved in Verus.

- `src/` — the verified library. `ScholarshipRegistry` holds the settings and
  every scholarship; each request returns either a refusal or the new state
  together with the `Effects` the host must carry out (an authorization and
  at most one token transfer into or out of escrow). `laws.rs` states the
  properties that hold across operations.
- `tests/` — scenarios run against the library, with a small in-memory
  ledger that applies the effects.
- `app/` — the Soroban contract: storage, `require_auth`, token transfers,
  and the panics that report refusals.
