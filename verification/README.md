# elemental-loom

The rules of two wheel games, verified with Verus, and the on-chain programs
around them.

A wheel has fifteen seats. Whoever joins pays the wheel's entry fee. When the
last seat is taken the pool is shared between a winner and the house, and the
other fourteen participants go on, seven each, on two new wheels.

- `src/center`: the first to join, at the center, wins. Wheels have price tiers
  and can be refunded.
- `src/water`: the last to join, on the water seat, wins. Nobody holds two seats.
- `src/ledger.rs`: lamport balances and the moves between them.
- `src/pool.rs`: how a pool is shared.
- `src/signer.rs`: the accounts that have to sign.
- `src/transfer.rs`: the payment of an entry fee. It holds the one trusted
  item of the library, the call that builds the system program's transfer.

Each game has its state, the checks on the accounts of an instruction, the
instructions, and, in `laws.rs`, what holds of the game as a whole. An
instruction that is refused changes nothing. What an instruction pays is a list
of lamport moves, which a `Ledger` makes.

`app` holds the programs: they read the accounts and the clock, ask the rules,
pay, and tell of what happened.
