# lr_engine

The money rules of a community lending pool, written in Verus and proved
against their contracts.

Members deposit pesos into a shared pool, borrow against their own deposit,
against XLM locked in an on-chain vault, or on the pledges of guarantors, and
repay in installments whose interest is split between the platform, a
reserve, the depositors and the guarantors. When a loan defaults, a recovery
waterfall takes from the borrower's own backing, then the guarantors, then
the reserve.

## Layout

- `src/domain` — pricing bands, schedules, fees, limits, rounding and the
  interest split, with the laws that tie them together (`domain/laws.rs`).
- `src/lending` — every decision the lending endpoints make: applying,
  disbursing, repaying, withdrawing, defaulting and settling, the books each
  of them writes, the vault outbox, payment intents and the public record.
  Laws spanning several of them are in `lending/laws.rs`.
- `src/kyc` — what an identity submission must look like, and how a review
  is read.
- `src/accounts` — linking payout accounts on PayPal and Stripe.
- `src/pricing.rs`, `src/score.rs`, `src/policy.rs`, `src/paging.rs`,
  `src/text.rs` — feed agreement, credit scores, the rulebook, pages, and
  text helpers.
- `app/` — the edges Verus does not see: JSON shapes, the clock, and ids as
  the database stores them.
- `tests/` — the library exercised on concrete values.
