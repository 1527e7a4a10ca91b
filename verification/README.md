# rex

A toy payment engine. It applies deposits, withdrawals, disputes, resolutions
and chargebacks to client accounts and reports each account's available, held
and total funds, and whether it is locked.

Layout:

- `src/types.rs`: transactions, input records and their checking.
- `src/model.rs`: the model of accounts and what each transaction does to them.
- `src/engine.rs`: balances and the engine, proved against the model.
- `src/laws.rs`: properties that hold across transactions and accounts.
- `src/routing.rs`: which engine handles a client when several run side by side.
- `app/main.rs`: the command-line program: reads the CSV input, runs one engine
  per thread, logs refused transactions and writes the report as CSV.

Amounts are integers in ten-thousandths of a currency unit; the program
converts from and to decimal numbers at its edges.
