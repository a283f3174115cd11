# Prediction market

A market on a question that is answered YES or NO. Anyone can create one and name
its oracle. Until it closes, its pools are seeded, YES and NO shares are bought from
them, and liquidity is provided. After the close time the oracle reports the outcome;
a report can be disputed against a bond, and the admin rules on disputes. A resolved
market pays its pools to the winning shares; a cancelled one refunds every share.

`src/` is the library. It is verified with Verus: every function states what it
returns and what it changes, and `src/laws` proves what holds of all requests
together. `app/` runs the library as a Soroban contract: it checks authorization,
reads and writes the ledger, moves tokens and publishes events.

Pools, liquidity and payouts are kept as entries in the books. Tokens move for
collateral only: splitting takes them in, merging and the refund of a cancelled market
pay them back, and a dispute takes in its bond. The library says which transfers a
request asks for; if one of them fails, the whole request fails.

Fees are divided among the liquidity shares that are outstanding. A claim brings a
provider up to the part of all credited fees that belongs to the shares then held, in
whatever order and however often providers claim. Shares that are given up take along
what was paid for them, and leave what was not claimed to those who stay.

Amounts are `i128`. Where a computation could leave that range, the function requires
that it does not, and a function named `.._in_range` beside it says whether it does.
