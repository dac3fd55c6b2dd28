# fundkeep

A non-custodial savings-goal contract for Soroban, with its rules verified in
Verus. A goal locks deposits of one token until its target is reached or its
deadline passes; single-owner goals pay their owner the whole balance, group
goals pay each member what it put in.

- `src/rules.rs`: what each call decides for one goal (create, deposit,
  deadline check, withdrawal), and the events it announces.
- `src/contract.rs`: the contract over its whole instance storage and event
  log, as a value (`FundKeepContract`, whose storage invariant is a type
  invariant), with the proofs that every call keeps it.
- `src/laws.rs`: properties across calls and over whole runs of calls (ids
  count creations, no early withdrawal, balances are deposits less payouts,
  each successful call announces one event, and so on).
- `src/types.rs`, `src/errors.rs`, `src/events.rs`: the data.
- `app/`: the Soroban contract itself. Each entry point reads instance
  storage, lets `fundkeep::rules` decide, then performs the token transfer,
  the storage writes and the event.
