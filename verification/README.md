# predictify-hybrid

The decision logic of the Predictify Hybrid prediction-market contract
(Soroban), written in Verus with its contracts proved.

- `src/` — the verified library:
  - `fees.rs`: fee arithmetic, tiers, validation; `fee_config.rs`: the fee
    configuration store, its time-locked updates and commit–reveal;
    `fee_vault.rs`: the fee vault, collections and withdrawals;
    `fee_collection.rs`: collecting fees and analytics;
  - `market.rs`: the market record and the contract type; `markets.rs`:
    market creation, voting, edits, cancellation, admin settings;
    `resolution.rs`: manual, tied and forced resolution, oracle readings;
    `payouts.rs`: payout distribution, claims and the sweep of unclaimed
    winnings;
  - `graceful_degradation.rs`: oracle health with hysteresis and backups;
  - `monitor.rs`: the bounded monitor-event queue; `gas.rs`: gas tracking;
  - `market_id.rs`: market ids from the host's SHA-256 and the admin's
    FNV-1a hash, and the retry rule on collisions;
  - `digest.rs`: the host's SHA-256, whose contract is assumed.
- `tests/` — tests of the library, run against the real `soroban-sdk`.
- `app/` — the Soroban contract shell: storage, authentication, token
  transfers and events around the library's entry points.
