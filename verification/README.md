# lyraswap

A constant product market maker for one pair of tokens on Soroban. Its rules
are a library whose every function is verified with Verus; the contract around
it reads the ledger, lets the library answer the call, and carries out what the
answer asks for.

- `src/address.rs`: ledger addresses and their order.
- `src/math.rs`: checked `i128` arithmetic and the integer square root.
- `src/pool.rs`: the pool, the terms of deposits, withdrawals and swaps, and
  how they move the reserves.
- `src/effects.rs`: what a call can ask of the ledger, and the events.
- `src/contract.rs`: the contract's calls. Each is answered with a plan: the
  effects in their order, and the outcome for the caller.
- `src/pool_laws.rs`, `src/contract_laws.rs`: what holds of all pools and all
  calls: the pool stays valid through any history, no call dilutes the
  liquidity tokens, a swap never lowers the product of the reserves, round
  trips and splitting gain nothing, the reserves follow the tokens that move,
  the supply of liquidity tokens follows what is minted and burnt, every
  granted change is announced once and last.
- `app/`: the Soroban contract: storage, authorization, token transfers,
  events, the liquidity token and ownership.

Reading the ledger changes nothing that a call depends on, so a call's reads
are made before it is answered, but for the supply of liquidity tokens that the
announcement of a deposit or withdrawal reports, which is read when it is
announced. Everything that can stop a call or be seen
from outside is an effect and keeps its place in the order. An error that comes
after some effects undoes them, as the host does with every call that returns
an error.
