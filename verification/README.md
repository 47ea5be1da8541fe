# solen_dex

A constant-product (x * y = k) market maker for SOLEN and STT, written in
Verus. Liquidity providers deposit both tokens and receive LP shares;
traders swap one token for the other and pay a 0.3% fee.

- `src/` is the verified library:
  - `wide` — exact multiply-then-divide on products of up to 256 bits;
  - `amm` — the swap formula (computed exactly), the integer square root;
  - `codec` — argument decoding and little-endian amounts;
  - `keys` — the storage layout;
  - `dex` — pool and account state and every operation as a transition;
  - `wire` — output bytes, event data and topics, refusal texts;
  - `dispatch` — splitting a call into method and arguments;
  - `laws` — properties that span operations (constant product, swap round
    trips, token conservation, LP supply equal to the shares held,
    deposit/withdraw round trips, refusals change nothing, ...).
- `app/` is the contract entry point on the Solen host: it reads and writes
  contract storage, pays SOLEN out, emits events and returns values, calling
  the library for every decision.
- `tests/` runs the library on concrete values.
