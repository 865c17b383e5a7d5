# valence_services

The rules of the Valence services, verified with Verus: the Rebalancer, which
keeps an account's tokens at target shares with a PID controller and sells
through daily auctions; the auctions, whose price falls linearly from a start
to an end price; the auctions manager; the price oracle; the services manager
and the accounts.

- `src/` is the verified library. Each contract's decisions are functions from
  plain values to plain values, with contracts over spec functions: fixed-point
  arithmetic (`decimal`, `fixed_i128`, `signed_decimal`), the chain's values
  (`chain`), the admin handover (`admin`), auctions (`auction`,
  `auction_package`, `auctions_manager`), the oracle (`price_oracle`), the
  services manager and accounts (`services`, `messages`), the Rebalancer
  (`rebalancer`, `rebalancer_accounts`, `rebalancer_admin`, `rebalance`,
  `target_override`, `trades`, `rebalance_cycle`) and event names (`events`).
  Calls into `cosmwasm_std` and `cw_utils` stand behind small trusted wrappers.
- `app/` holds the CosmWasm entry points around the library: storage, queries
  of balances, prices and other contracts, serialization and messages.
- `tests/` runs the library on concrete values.
