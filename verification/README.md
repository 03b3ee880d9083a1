# honzon

A verified model of the Honzon collateralized-debt protocol and of the pallets around
it, written in Verus.  The functions in `src/` are verified by Verus; most carry a
contract that states their result, and the calls into `sp_arithmetic` and
`parity_scale_codec` go through a few trusted wrappers.

## Layout

- `src/` — the verified library, one module per pallet or concern:
  - `adjustment`, `fixed`, `scale`, `store`, `assets`, `weights`: balance adjustments,
    `FixedU128` arithmetic (through `sp_arithmetic`), the SCALE encoding of fixed-point
    values and of lists of deposits (through `parity_scale_codec`), keyed storage, fungible balances with holds,
    and weights;
  - `auction`, `auction_manager`, `cdp_treasury`, `loans`, `honzon_loans`, `cdp_engine`,
    `engine_calls`, `engine_vaults`, `issuance_buffer`, `emergency_shutdown`, `honzon`,
    `connections`, `savings`: the protocol's pallets;
  - `opf`, `bounties_mock`, `proxy_migration`: governance funding, the bounties' test
    paymaster, and the migration of proxy deposits from reserves to holds;
  - `network_bridge`, `node_service`: the decisions of the benchmark network bridge and
    of a development node's start-up.
- `tests/` — tests run against the compiled library.
- `app/` — ordinary Rust around the library: a runtime driven block by block, the
  network bridge's message loops, and a node's start-up plan as text.

Accounts are 64-bit integers, balances and fixed-point values 128-bit integers (a
fixed-point value is the inner integer of a `FixedU128`).
