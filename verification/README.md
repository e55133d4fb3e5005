# finances

A ledger of personal finances kept as a JSON list of
`{"subject", "predicate", "object"}` entries (people, assets, debts, incomes,
expenses, their attributes and who owns what share of them).

- `src/` is the verified library: the entry model (`term`), the name and
  attribute checks (`checks`), adding and deleting items (`store`), editing
  (`edit`), splitting `name:share` owners (`owners`), the queries behind the
  report (`report`), and the laws that tie them together (`laws`).
- `app/` is the command line program: argument parsing, reading and writing
  the ledger file, the confirmation prompt, and the floating-point work
  (reading amounts, scaling owners' shares, computing shown values).
