# bank

Accounting core of a single-asset deposit bank on Solana.

Deposits of a token are pooled and turned into shares; a withdrawal burns
shares and pays out the matching part of the pool. The rules (deposit limits,
share minting rounded down, share burning rounded up, withdrawing everything
when less than a minimal deposit would remain, the error raised for each
refused request) live in `src/` and are verified with Verus:

- `src/shares_math.rs`: conversion between assets and shares.
- `src/instructions.rs`: creating a bank, checking and crediting deposits,
  planning and booking withdrawals, each against an exact model of its outcome.
- `src/laws.rs`: properties of the ledger across operations (shares of all
  depositors add up to the bank's total, the token account covers what is
  owed, every share stays backed, nobody is diluted or overpaid).
- `src/events.rs`: the records written to the event stream.

`app/` holds the Anchor program that validates accounts, moves tokens and
emits events around these functions, and the tools that read and write the
event stream and the list of supported assets.
