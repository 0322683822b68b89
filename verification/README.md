# don_sim: verified leader-side simulation steps

A Verus library for the per-leader parts of the game tick: the leader records and their
rare masks, the step-8 rule block, the unit and wall stat bodies and passes, the
exploration recount and the step-11 dispatcher, the step-17 population-cap feedback, the
step-19 event-rate fold and combat mood, the production-AI step machine and rate cohort,
diplomacy (`set_diplo` plans, accepted deals, declaration payments, the opening
frontier), tribe bonuses and their codecs, the runtime unit type table, the terrain world
and its checksum channel, and the snapshot and receipt codecs around them. Every function
in `src/` carries a contract over spec functions and is proved by Verus; the public proof
functions state the laws the modules keep (round trips, idempotence, atomic refusal).

Layout:

- `src/` — the verified library, one module per subsystem.
- `tests/` — executable tests, run against the compiled library.
- `app/` — the binary32 pieces (modified resource caps, attrition resistance) that stay
  outside verification.
