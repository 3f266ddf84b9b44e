# alkane_lottery

The decision logic of three alkanes contracts — a no-loss-style lottery with an LP pool,
its ticket-collector token, and a lending contract that opens a loan — written in Verus
and proved against its specifications.

* `src/` — the verified library.
  * `id.rs`: alkane ids, transfers, call responses; summing and refunding incoming
    alkanes; the stored encoding of an id.
  * `wide.rs`: exact `floor(a * b / c)` over 256 bits.
  * `ledger.rs`: per-collector mappings that read 0 where nothing is stored.
  * `entropy.rs`: block headers and the one trusted call, `bitcoin`'s block hash.
  * `lottery.rs` and `lottery/`: the lottery's state, LP pool (`pool`), ticket sales
    (`tickets`), the draw (`draw`), and payouts and owner settings (`payout`).
  * `lending.rs`, `ticket.rs`: the other two contracts, with their message encodings.
  * `laws.rs`: properties that relate several operations.
* `tests/` — scenarios run against the compiled library.
* `app/` — the contracts as alkanes: host storage, context, authentication, minting
  and calls around the library.
