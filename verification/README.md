# lau-token-economy

A token budget for AI agents in which experience makes work cheaper: a hard
budget with reservations, a ledger of every spend, abstraction discounts tied
to the agent's level, and routines whose cost decays with each use.

The library in `src/` is written in Verus and verified:

- `budget`: `TokenBudget`, spend / reserve / release against a hard cap.
- `category`, `transaction`: spend categories and transaction records (with
  identifiers drawn from the clock).
- `ledger`: `TokenLedger`, per-category totals, breakdowns and the efficiency
  report, with exact integer figures.
- `savings`: `AbstractionSavings`, the discount schedule by level.
- `muscle`: `MuscleMemory` and `Routine`, decay and level milestones.
- `economy`: `TokenEconomy`, task execution, promotion and reports.
- `text`: decimal and hex formatting and text comparison used by the above.

`app/` holds serde-ready copies of the types and the floating-point views
(utilization, discount fractions, per-task averages).
