# vaulty

Verified core of the Vaulty savings protocol on Soroban: time-locked savings
vaults, daily deposit streaks, milestone rewards, a pending-balance reward
ledger, lending pools and loans collateralized by vaults.

Every contract is a plain state value whose operations are transitions taking
the ledger time and the authenticated caller as arguments; each operation's
contract states on which inputs it succeeds, which error each other input
gets, the state a success leaves, and that a refused operation changes
nothing. The rewards pool keeps its books balanced: its available liquidity
plus everything ever granted equals what it was funded, and no user
holds two rewards for one milestone.

## Layout

- `src/` — the library, verified with Verus.
  - `errors`, `types`, `utils` — error codes, shared records, checked
    arithmetic, validation and day arithmetic.
  - `vault_id`, `table` — vault identifiers and a map keyed by 32-byte ids.
  - `vault`, `interest` — savings vaults, lock periods, informational
    interest accrual.
  - `streaks` — daily streaks with freezes, activity history, leaderboard.
  - `rewards` — milestone entitlements granted from a funded pool.
  - `reward_ledger` — pending balances, throttled claims, claim history.
  - `progression` — the deposit that updates the owner's streak and grants
    milestones, all or nothing; a deposit on the next UTC day continues the
    streak by one.
  - `borrowing` — loans against vault balances, interest, repayment,
    liquidation.
  - `fixed_math`, `positions`, `lending` — fixed-point share and interest
    arithmetic, supplier positions, and lending pools whose liquidity only
    the bound borrowing contract may draw.
- `tests/` — scenarios run against the compiled library.
- `app/` — the host side: authorization, ledger clock, token custody, calls
  to the lending pool, events and storage upkeep around the library.
