# stellar_grants

The rules of a milestone-based grants protocol on Stellar, verified with Verus.

Grants are created with a milestone plan, funded into an escrow, assessed milestone by
milestone, and completed, cancelled or disputed. Around that core sit quadratic-funding
rounds, funding syndicates, payment streams, arbitration pools, insurance, performance
bonds, referrals, roles, amendments and forks.

## Layout

- `src/` is the verified library. Each module holds one part of the protocol: its state
  as plain Rust values (accounts are numbers, token movements are recorded as `Transfer`
  values), its operations with `requires`/`ensures` contracts over spec-level views, and
  the lemmas its proofs need. `src/laws.rs` states properties that span operations, such
  as refunds adding up to the escrow balance, settlement conserving the arbiters' stakes,
  and quadratic-funding matches staying within the pool.
- `src/digest.rs` is the one place the library calls the Soroban host: the SHA-256 that
  names a referral code. Its contract says that the result is the digest of its input.
- `tests/` runs the library on concrete values.
- `app/` is the Soroban side: it authenticates callers, maps addresses to account numbers,
  reads the ledger clock and the random generator, carries out the recorded token
  transfers, calls registered hooks and publishes events.
