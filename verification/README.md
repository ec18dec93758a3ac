# subscription_vault

A subscription vault for a Soroban smart contract, written in Verus.

`src/` holds the vault's rules as verified state transitions over plain
values; every public function carries a contract, and the properties the
vault promises (the merchant reconciliation invariant, the accepted-token
registry invariant, read-after-write and migration of the versioned
configuration, the exact replay window, single use of recovery ids,
the credit limit at subscription creation) are stated and proved there.

- `safe_math` — checked arithmetic for balances.
- `config` — the two-tier versioned configuration store and its migration.
- `admin` — initialisation, admin key, top-up and grace settings, accepted
  tokens, protocol fee, stranded-fund recovery, schema upgrades.
- `merchant` — per-token earnings buckets, withdrawals, refunds, merchant
  settings, pausing and scheduled payouts.
- `subscription` — subscription creation (with the subscriber's credit
  limit), exposure and lookup.
- `idempotency` — fingerprints of idempotency keys and the replay window.
- `host` — the host's SHA-256, the one computation taken from the SDK.

`app/` is the Soroban contract: it loads what an entrypoint needs from
contract storage, calls the library, writes the results back, emits events
and performs token transfers. Addresses are given small integer identifiers
there, which is all the library needs of them.
