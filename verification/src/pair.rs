//! The liquidity-pool engine: one `Pair` per two-token trading pair.
//!
//! A `Pair` keeps the pool's accounting record — reserves, time-weighted
//! price accumulators, the invariant snapshot `k_last` and the mirrored
//! liquidity-share supply — and settles deposits, withdrawals, trades,
//! skims and syncs against token ledgers.  Every settlement validates all
//! of its arithmetic and ledger preconditions before committing anything,
//! so a failed call leaves the pool record and every ledger exactly as
//! they were.

use vstd::prelude::*;
use crate::ledger::{TokenLedger, bal_in, credited, debited};
use crate::math::{sqrt, sqrt_spec};
use crate::registry::UniswapCore;

verus! {

/// Liquidity locked forever by the very first deposit, in the smallest
/// share unit, to deter zero-liquidity griefing.
pub const MINIMUM_LIQUIDITY: u64 = 1000;

/// Every way a settlement can fail.  A failed settlement mutates nothing.
#[derive(Debug, Clone, Copy, PartialEq, Eq)]
pub enum Error {
    /// An arithmetic step exceeded the representable range, or divided by
    /// zero.
    Overflow,
    /// The protocol-fee share mint was refused by the share ledger.
    TokenMintingFailed,
    /// A swap asked for more output than the reserves can cover.
    InsufficientLiquidity,
    /// A deposit works out to zero liquidity shares.
    InsufficientLiquidityMinted,
    /// A withdrawal works out to zero of either token.
    InsufficientLiquidityBurned,
    /// A swap moved no input tokens into the pool.
    InsufficientInputAmount,
    /// A swap asked for no output at all.
    InsufficientOutputAmount,
    /// A swap recipient is one of the pool's own token identities.
    InvalidRecipient,
    /// The fee-adjusted product of the balances fell below the pre-trade
    /// product.
    KInvariantViolated,
    /// A token ledger refused a transfer.
    TransferFailed,
    /// The share ledger refused a mint.
    MintFailed,
    /// The share ledger refused a burn.
    BurnFailed,
    /// A pair of one token with itself.
    IdenticalAddresses,
    /// The null identity where a real one is required.
    ZeroAddress,
    /// The ordered token pair is already registered.
    PairExists,
    /// A governance operation from a caller who is not the governor.
    ForbiddenCaller,
    /// A nested settlement tried to re-enter a pool mid-operation.
    Locked,
}

/// Notification that the recorded reserves were rewritten.
pub struct Sync {
    pub reserve_0: u128,
    pub reserve_1: u128,
}

/// Notification of a liquidity deposit.
pub struct Mint {
    pub owner: Option<u128>,
    pub amount_0: u128,
    pub amount_1: u128,
}

/// Notification of a liquidity withdrawal.
pub struct Burn {
    pub sender: Option<u128>,
    pub amount_0: u128,
    pub amount_1: u128,
    pub to: u128,
}

/// Notification of a trade.
pub struct Swap {
    pub sender: Option<u128>,
    pub amount_0_in: u128,
    pub amount_1_in: u128,
    pub amount_0_out: u128,
    pub amount_1_out: u128,
    pub to: u128,
}

/// One entry of a pool's notification log, in settlement order.
pub enum PairEvent {
    Sync(Sync),
    Mint(Mint),
    Burn(Burn),
    Swap(Swap),
}

/// The settlement timestamp reduced modulo `2^32`, as the accumulators
/// record it.
pub open spec fn ts_mod32(now: u64) -> u128 {
    (now % 0x100000000) as u128
}

/// Time elapsed between the recorded timestamp and `now`, in the wrapping
/// modulo-`2^32` arithmetic of the accumulator clock.
pub open spec fn elapsed_spec(now: u64, last: u128) -> int {
    let ts = ts_mod32(now) as int;
    if ts >= last {
        ts - last
    } else {
        ts + 0x100000000 - last
    }
}

/// The pool's persisted accounting record and notification log.
pub struct Pair {
    /// The registry governing this pool.
    pub factory: u128,
    /// Identity of the first underlying token.
    pub token_0: u128,
    /// Identity of the second underlying token.
    pub token_1: u128,
    /// Identity of the liquidity-share token.
    pub psp22token: u128,
    /// The pool's own identity on the token ledgers.
    pub account: u128,
    /// Last recorded balance of `token_0`.
    pub reserve_0: u128,
    /// Last recorded balance of `token_1`.
    pub reserve_1: u128,
    /// Time-weighted accumulator of the `token_0`-per-`token_1` price.
    pub price_0_cumulative_last: u128,
    /// Time-weighted accumulator of the `token_1`-per-`token_0` price.
    pub price_1_cumulative_last: u128,
    /// `reserve_0 * reserve_1` at the last liquidity event while the
    /// protocol fee was active; zero while it is not.
    pub k_last: u128,
    /// Outstanding liquidity shares, mirroring the share ledger.
    pub total_supply: u128,
    /// Timestamp of the last accumulator advance, modulo `2^32`.
    pub block_timestamp_last: u128,
    /// The reentrancy guard: held for the duration of one settlement.
    pub locked: bool,
    /// Notifications emitted so far, oldest first.
    pub events: Vec<PairEvent>,
}

impl Pair {
    /// Well-formedness: the recorded timestamp is a modulo-`2^32` value.
    pub open spec fn wf(&self) -> bool {
        self.block_timestamp_last < 0x100000000
    }

    /// The fixed configuration and the fields a reserve update leaves
    /// alone, shared between `self` and `other`.
    pub open spec fn same_config(&self, other: Pair) -> bool {
        &&& self.factory == other.factory
        &&& self.token_0 == other.token_0
        &&& self.token_1 == other.token_1
        &&& self.psp22token == other.psp22token
        &&& self.account == other.account
    }

    /// Whether an update over reserves `(reserve_0, reserve_1)` at time
    /// `now` advances the accumulators at all.
    pub open spec fn accum_active(&self, reserve_0: u128, reserve_1: u128, now: u64) -> bool {
        elapsed_spec(now, self.block_timestamp_last) > 0 && reserve_0 != 0 && reserve_1 != 0
    }

    /// Value of the first price accumulator after an update over
    /// `(reserve_0, reserve_1)` at time `now`.
    pub open spec fn next_price_0(&self, reserve_0: u128, reserve_1: u128, now: u64) -> int {
        if self.accum_active(reserve_0, reserve_1, now) {
            self.price_0_cumulative_last + (reserve_0 as int / reserve_1 as int) * elapsed_spec(
                now,
                self.block_timestamp_last,
            )
        } else {
            self.price_0_cumulative_last as int
        }
    }

    /// Value of the second price accumulator after an update over
    /// `(reserve_0, reserve_1)` at time `now`.
    pub open spec fn next_price_1(&self, reserve_0: u128, reserve_1: u128, now: u64) -> int {
        if self.accum_active(reserve_0, reserve_1, now) {
            self.price_1_cumulative_last + (reserve_1 as int / reserve_0 as int) * elapsed_spec(
                now,
                self.block_timestamp_last,
            )
        } else {
            self.price_1_cumulative_last as int
        }
    }

    /// Whether advancing the accumulators over `(reserve_0, reserve_1)` at
    /// time `now` would leave the 128-bit range.
    pub open spec fn update_overflows(&self, reserve_0: u128, reserve_1: u128, now: u64) -> bool {
        self.next_price_0(reserve_0, reserve_1, now) > u128::MAX || self.next_price_1(
            reserve_0,
            reserve_1,
            now,
        ) > u128::MAX
    }

    /// The record after its reserve snapshot is rewritten: reserves and
    /// accumulators set, everything else as in `self`.
    pub open spec fn updated_state(
        &self,
        prior: Pair,
        balance_0: u128,
        balance_1: u128,
        reserve_0: u128,
        reserve_1: u128,
        now: u64,
    ) -> bool {
        &&& self.same_config(prior)
        &&& self.reserve_0 == balance_0
        &&& self.reserve_1 == balance_1
        &&& self.price_0_cumulative_last == prior.next_price_0(reserve_0, reserve_1, now)
        &&& self.price_1_cumulative_last == prior.next_price_1(reserve_0, reserve_1, now)
        &&& self.block_timestamp_last == ts_mod32(now)
        &&& self.k_last == prior.k_last
        &&& self.total_supply == prior.total_supply
        &&& self.locked == prior.locked
    }

    /// A fresh, never-funded pool record for the given identities.
    pub fn new(factory: u128, psp22token: u128, token_0: u128, token_1: u128, account: u128) -> (p:
        Pair)
        ensures
            p.factory == factory,
            p.token_0 == token_0,
            p.token_1 == token_1,
            p.psp22token == psp22token,
            p.account == account,
            p.reserve_0 == 0,
            p.reserve_1 == 0,
            p.price_0_cumulative_last == 0,
            p.price_1_cumulative_last == 0,
            p.k_last == 0,
            p.total_supply == 0,
            p.block_timestamp_last == 0,
            !p.locked,
            p.events@ == Seq::<PairEvent>::empty(),
            p.wf(),
    {
        Pair {
            factory,
            token_0,
            token_1,
            psp22token,
            account,
            reserve_0: 0,
            reserve_1: 0,
            price_0_cumulative_last: 0,
            price_1_cumulative_last: 0,
            k_last: 0,
            total_supply: 0,
            block_timestamp_last: 0,
            locked: false,
            events: Vec::new(),
        }
    }

    /// A fresh pool whose registry is the creating caller.
    pub fn initialize(caller: u128, psp22: u128, token_0: u128, token_1: u128, account: u128) -> (p:
        Pair)
        ensures
            p.factory == caller,
            p.token_0 == token_0,
            p.token_1 == token_1,
            p.psp22token == psp22,
            p.account == account,
            p.reserve_0 == 0,
            p.reserve_1 == 0,
            p.price_0_cumulative_last == 0,
            p.price_1_cumulative_last == 0,
            p.k_last == 0,
            p.total_supply == 0,
            p.block_timestamp_last == 0,
            !p.locked,
            p.events@ == Seq::<PairEvent>::empty(),
            p.wf(),
    {
        Pair::new(caller, psp22, token_0, token_1, account)
    }

    /// Read-only snapshot of the recorded reserves and the timestamp of
    /// their last update.
    pub fn get_reserves(&self) -> (r: (u128, u128, u128))
        ensures
            r == (self.reserve_0, self.reserve_1, self.block_timestamp_last),
    {
        (self.reserve_0, self.reserve_1, self.block_timestamp_last)
    }

    /// The outstanding share supply the pool mirrors.
    pub fn get_total_supply(&self) -> (r: u128)
        ensures
            r == self.total_supply,
    {
        self.total_supply
    }

    /// The notifications emitted so far, oldest first.
    pub fn events(&self) -> (r: &Vec<PairEvent>)
        ensures
            r@ == self.events@,
    {
        &self.events
    }

    /// Wrapping modulo-`2^32` distance from the recorded timestamp to
    /// `now`.
    fn elapsed_since(&self, now: u64) -> (e: u64)
        requires
            self.wf(),
        ensures
            e == elapsed_spec(now, self.block_timestamp_last),
    {
        let ts: u64 = now % 0x100000000;
        let last: u64 = self.block_timestamp_last as u64;
        if ts >= last {
            ts - last
        } else {
            0x100000000u64 - last + ts
        }
    }

    /// The accumulator values an update over `(reserve_0, reserve_1)` at
    /// `now` would commit, or `Overflow` exactly when they would leave the
    /// 128-bit range.
    fn compute_accumulators(&self, reserve_0: u128, reserve_1: u128, now: u64) -> (r: Result<
        (u128, u128),
        Error,
    >)
        requires
            self.wf(),
        ensures
            r.is_ok() <==> !self.update_overflows(reserve_0, reserve_1, now),
            r.is_ok() ==> r->Ok_0.0 == self.next_price_0(reserve_0, reserve_1, now),
            r.is_ok() ==> r->Ok_0.1 == self.next_price_1(reserve_0, reserve_1, now),
            r.is_ok() ==> r->Ok_0.0 >= self.price_0_cumulative_last && r->Ok_0.1
                >= self.price_1_cumulative_last,
            r.is_err() ==> r == Err::<(u128, u128), Error>(Error::Overflow),
    {
        let e = self.elapsed_since(now);
        if e > 0 && reserve_0 != 0 && reserve_1 != 0 {
            let q0: u128 = reserve_0 / reserve_1;
            let inc0: u128 = match q0.checked_mul(e as u128) {
                Some(v) => v,
                None => {
                    return Err(Error::Overflow);
                },
            };
            let p0: u128 = match self.price_0_cumulative_last.checked_add(inc0) {
                Some(v) => v,
                None => {
                    return Err(Error::Overflow);
                },
            };
            let q1: u128 = reserve_1 / reserve_0;
            let inc1: u128 = match q1.checked_mul(e as u128) {
                Some(v) => v,
                None => {
                    return Err(Error::Overflow);
                },
            };
            let p1: u128 = match self.price_1_cumulative_last.checked_add(inc1) {
                Some(v) => v,
                None => {
                    return Err(Error::Overflow);
                },
            };
            Ok((p0, p1))
        } else {
            Ok((self.price_0_cumulative_last, self.price_1_cumulative_last))
        }
    }

    /// Commits a reserve rewrite: sets reserves, accumulators and the
    /// timestamp, and emits the `Sync` notification.
    fn apply_update(&mut self, balance_0: u128, balance_1: u128, p0: u128, p1: u128, now: u64)
        ensures
            final(self).same_config(*old(self)),
            final(self).reserve_0 == balance_0,
            final(self).reserve_1 == balance_1,
            final(self).price_0_cumulative_last == p0,
            final(self).price_1_cumulative_last == p1,
            final(self).block_timestamp_last == ts_mod32(now),
            final(self).k_last == old(self).k_last,
            final(self).total_supply == old(self).total_supply,
            final(self).locked == old(self).locked,
            final(self).events@ == old(self).events@.push(
                PairEvent::Sync((Sync { reserve_0: balance_0, reserve_1: balance_1 })),
            ),
            final(self).wf(),
    {
        self.reserve_0 = balance_0;
        self.reserve_1 = balance_1;
        self.price_0_cumulative_last = p0;
        self.price_1_cumulative_last = p1;
        self.block_timestamp_last = (now % 0x100000000) as u128;
        self.events.push(PairEvent::Sync(Sync { reserve_0: balance_0, reserve_1: balance_1 }));
    }

    /// Advances the price accumulators over the given prior reserves and
    /// rewrites the recorded reserves to the given balances.
    ///
    /// The accumulators advance only when settlement time has passed and
    /// both prior reserves are non-zero; they never decrease.  Fails with
    /// `Overflow`, changing nothing, exactly when an accumulator would
    /// leave the 128-bit range, and with `Locked` when re-entered.
    pub fn update(
        &mut self,
        balance_0: u128,
        balance_1: u128,
        reserve_0: u128,
        reserve_1: u128,
        now: u64,
    ) -> (r: Result<(), Error>)
        requires
            old(self).wf(),
        ensures
            final(self).wf(),
            r.is_ok() <==> !old(self).locked && !old(self).update_overflows(
                reserve_0,
                reserve_1,
                now,
            ),
            r.is_ok() ==> final(self).updated_state(
                *old(self),
                balance_0,
                balance_1,
                reserve_0,
                reserve_1,
                now,
            ),
            r.is_ok() ==> final(self).events@ == old(self).events@.push(
                PairEvent::Sync((Sync { reserve_0: balance_0, reserve_1: balance_1 })),
            ),
            r.is_err() ==> *final(self) == *old(self) && r == Err::<(), Error>(
                if old(self).locked {
                    Error::Locked
                } else {
                    Error::Overflow
                },
            ),
            final(self).price_0_cumulative_last >= old(self).price_0_cumulative_last,
            final(self).price_1_cumulative_last >= old(self).price_1_cumulative_last,
            !old(self).accum_active(reserve_0, reserve_1, now)
                ==> final(self).price_0_cumulative_last == old(self).price_0_cumulative_last
                && final(self).price_1_cumulative_last == old(self).price_1_cumulative_last,
    {
        if self.locked {
            return Err(Error::Locked);
        }
        self.locked = true;
        let computed = self.compute_accumulators(reserve_0, reserve_1, now);
        match computed {
            Ok(ps) => {
                self.apply_update(balance_0, balance_1, ps.0, ps.1, now);
                self.locked = false;
                Ok(())
            },
            Err(e) => {
                self.locked = false;
                Err(e)
            },
        }
    }

    /// Rewrites the reserves to the balances the ledgers actually hold for
    /// the pool, recovering from drift.  Fails exactly as `update` does.
    pub fn sync(&mut self, ledger_0: &TokenLedger, ledger_1: &TokenLedger, now: u64) -> (r: Result<
        (),
        Error,
    >)
        requires
            old(self).wf(),
        ensures
            final(self).wf(),
            r.is_ok() <==> !old(self).locked && !old(self).update_overflows(
                old(self).reserve_0,
                old(self).reserve_1,
                now,
            ),
            r.is_ok() ==> final(self).updated_state(
                *old(self),
                ledger_0.bal(old(self).account),
                ledger_1.bal(old(self).account),
                old(self).reserve_0,
                old(self).reserve_1,
                now,
            ),
            r.is_ok() ==> final(self).reserve_0 == ledger_0.bal(old(self).account)
                && final(self).reserve_1 == ledger_1.bal(old(self).account),
            r.is_ok() ==> final(self).events@ == old(self).events@.push(
                PairEvent::Sync(
                    (Sync {
                        reserve_0: ledger_0.bal(old(self).account),
                        reserve_1: ledger_1.bal(old(self).account),
                    }),
                ),
            ),
            r.is_err() ==> *final(self) == *old(self) && r == Err::<(), Error>(
                if old(self).locked {
                    Error::Locked
                } else {
                    Error::Overflow
                },
            ),
    {
        if self.locked {
            return Err(Error::Locked);
        }
        self.locked = true;
        let balance_0 = ledger_0.balance_of(self.account);
        let balance_1 = ledger_1.balance_of(self.account);
        let computed = self.compute_accumulators(self.reserve_0, self.reserve_1, now);
        match computed {
            Ok(ps) => {
                self.apply_update(balance_0, balance_1, ps.0, ps.1, now);
                self.locked = false;
                Ok(())
            },
            Err(e) => {
                self.locked = false;
                Err(e)
            },
        }
    }

    /// Sweeps whatever the ledgers hold for the pool beyond the recorded
    /// reserves to `to`, leaving the pool record untouched.  Fails with
    /// `TransferFailed`, moving nothing, exactly when a recipient balance
    /// would no longer be representable, and with `Locked` when re-entered.
    pub fn skim(&mut self, ledger_0: &mut TokenLedger, ledger_1: &mut TokenLedger, to: u128) -> (r:
        Result<(), Error>)
        requires
            old(self).wf(),
            old(ledger_0).bal(old(self).account) >= old(self).reserve_0,
            old(ledger_1).bal(old(self).account) >= old(self).reserve_1,
        ensures
            *final(self) == *old(self),
            ({
                let acct = old(self).account;
                let excess_0 = (old(ledger_0).bal(acct) - old(self).reserve_0) as u128;
                let excess_1 = (old(ledger_1).bal(acct) - old(self).reserve_1) as u128;
                &&& r.is_ok() <==> !old(self).locked && (to == acct || (old(ledger_0).bal(to)
                    + excess_0 <= u128::MAX && old(ledger_1).bal(to) + excess_1 <= u128::MAX))
                &&& r.is_ok() ==> final(ledger_0).map_spec() == credited(
                    debited(old(ledger_0).map_spec(), acct, excess_0),
                    to,
                    excess_0,
                ) && final(ledger_1).map_spec() == credited(
                    debited(old(ledger_1).map_spec(), acct, excess_1),
                    to,
                    excess_1,
                )
                &&& r.is_ok() ==> final(ledger_0).bal(acct) == old(self).reserve_0 || to == acct
                &&& r.is_ok() ==> final(ledger_0).total_spec() == old(ledger_0).total_spec()
                    && final(ledger_1).total_spec() == old(ledger_1).total_spec()
                &&& r.is_err() ==> *final(ledger_0) == *old(ledger_0) && *final(ledger_1) == *old(
                    ledger_1,
                ) && r == Err::<(), Error>(
                    if old(self).locked {
                        Error::Locked
                    } else {
                        Error::TransferFailed
                    },
                )
            }),
    {
        if self.locked {
            return Err(Error::Locked);
        }
        self.locked = true;
        let acct = self.account;
        let excess_0 = ledger_0.balance_of(acct) - self.reserve_0;
        let excess_1 = ledger_1.balance_of(acct) - self.reserve_1;
        if to != acct {
            let to_bal_0 = ledger_0.balance_of(to);
            let to_bal_1 = ledger_1.balance_of(to);
            if excess_0 > u128::MAX - to_bal_0 || excess_1 > u128::MAX - to_bal_1 {
                self.locked = false;
                return Err(Error::TransferFailed);
            }
        }
        let moved_0 = ledger_0.transfer_from(acct, to, excess_0);
        match moved_0 {
            Ok(_) => {},
            Err(e) => {
                self.locked = false;
                return Err(e);
            },
        }
        let moved_1 = ledger_1.transfer_from(acct, to, excess_1);
        match moved_1 {
            Ok(_) => {},
            Err(e) => {
                self.locked = false;
                return Err(e);
            },
        }
        self.locked = false;
        Ok(())
    }

    /// Protocol-fee shares owed for the growth of `sqrt(K)` since the last
    /// liquidity event: the weighting grants the protocol about a sixth of
    /// the accrued trading fees.
    pub open spec fn fee_liquidity(&self, reserve_0: u128, reserve_1: u128) -> int {
        let rk = sqrt_spec((reserve_0 * reserve_1) as nat) as int;
        let rkl = sqrt_spec(self.k_last as nat) as int;
        if rk > rkl {
            (self.total_supply * (rk - rkl)) / (5 * rk + rkl)
        } else {
            0
        }
    }

    /// Protocol-fee shares due now: zero while the fee recipient is unset
    /// or no invariant snapshot is recorded.
    pub open spec fn fee_liquidity_due(&self, fee_to: u128, reserve_0: u128, reserve_1: u128) -> int {
        if fee_to != 0 && self.k_last != 0 {
            self.fee_liquidity(reserve_0, reserve_1)
        } else {
            0
        }
    }

    /// Whether the protocol-fee computation stays within the 128-bit range.
    pub open spec fn fee_liquidity_fits(&self, fee_to: u128, reserve_0: u128, reserve_1: u128) -> bool {
        fee_to == 0 || self.k_last == 0 || ({
            let rk = sqrt_spec((reserve_0 * reserve_1) as nat) as int;
            let rkl = sqrt_spec(self.k_last as nat) as int;
            reserve_0 * reserve_1 <= u128::MAX && (rk <= rkl || self.total_supply * (rk - rkl)
                <= u128::MAX)
        })
    }

    /// The protocol-fee share amount a liquidity event owes, or `Overflow`
    /// exactly when its arithmetic leaves the 128-bit range.
    fn compute_fee_liquidity(&self, fee_to: u128, reserve_0: u128, reserve_1: u128) -> (r: Result<
        u128,
        Error,
    >)
        ensures
            r.is_ok() <==> self.fee_liquidity_fits(fee_to, reserve_0, reserve_1),
            r.is_ok() ==> r->Ok_0 == self.fee_liquidity_due(fee_to, reserve_0, reserve_1),
            r.is_err() ==> r == Err::<u128, Error>(Error::Overflow),
    {
        if fee_to == 0 || self.k_last == 0 {
            return Ok(0);
        }
        let product = match reserve_0.checked_mul(reserve_1) {
            Some(v) => v,
            None => {
                return Err(Error::Overflow);
            },
        };
        let root_k = sqrt(product);
        let root_k_last = sqrt(self.k_last);
        if root_k <= root_k_last {
            return Ok(0);
        }
        let numerator = match self.total_supply.checked_mul(root_k - root_k_last) {
            Some(v) => v,
            None => {
                return Err(Error::Overflow);
            },
        };
        proof {
            assert(root_k <= 0xffffffffffffffffu128) by (nonlinear_arith)
                requires
                    root_k * root_k <= product,
                    product <= u128::MAX,
            ;
        }
        let denominator: u128 = root_k * 5 + root_k_last;
        Ok(numerator / denominator)
    }

    /// The outcome a deposit owes: the liquidity shares to credit the
    /// depositor, or the first error in settlement order.  `b0` and `b1`
    /// are the balances the token ledgers hold for the pool, `shares` the
    /// share ledger's balance map.
    pub open spec fn mint_decision(
        self,
        fee_to: u128,
        b0: u128,
        b1: u128,
        shares: Map<u128, u128>,
        caller: u128,
        now: u64,
    ) -> Result<u64, Error> {
        let r0 = self.reserve_0;
        let r1 = self.reserve_1;
        let supply = self.total_supply;
        if b0 < r0 || b1 < r1 {
            Err(Error::Overflow)
        } else if !self.fee_liquidity_fits(fee_to, r0, r1) {
            Err(Error::Overflow)
        } else {
            let a0 = (b0 - r0) as u128;
            let a1 = (b1 - r1) as u128;
            let fee_liq = self.fee_liquidity_due(fee_to, r0, r1);
            if fee_liq > 0 && (supply + fee_liq > u128::MAX || bal_in(shares, fee_to) + fee_liq
                > u128::MAX) {
                Err(Error::TokenMintingFailed)
            } else {
                let supply_1 = supply + fee_liq;
                let shares_1 = if fee_liq > 0 {
                    credited(shares, fee_to, fee_liq as u128)
                } else {
                    shares
                };
                if supply_1 == 0 {
                    self.first_mint_decision(fee_to, a0, a1, shares_1, caller, now, b0, b1)
                } else {
                    self.later_mint_decision(fee_to, a0, a1, supply_1, shares_1, caller, now, b0, b1)
                }
            }
        }
    }

    /// The outcome of the very first deposit: the locked minimum is taken
    /// out of `sqrt(a0 * a1)` and minted to the fee recipient forever.
    pub open spec fn first_mint_decision(
        self,
        fee_to: u128,
        a0: u128,
        a1: u128,
        shares_1: Map<u128, u128>,
        caller: u128,
        now: u64,
        b0: u128,
        b1: u128,
    ) -> Result<u64, Error> {
        if a0 * a1 > u128::MAX {
            Err(Error::Overflow)
        } else {
            let root = sqrt_spec((a0 * a1) as nat) as int;
            if root <= MINIMUM_LIQUIDITY {
                Err(Error::InsufficientLiquidityMinted)
            } else if bal_in(shares_1, fee_to) + MINIMUM_LIQUIDITY > u128::MAX {
                Err(Error::MintFailed)
            } else {
                let liq = root - MINIMUM_LIQUIDITY;
                let shares_2 = credited(shares_1, fee_to, MINIMUM_LIQUIDITY as u128);
                if bal_in(shares_2, caller) + liq > u128::MAX {
                    Err(Error::MintFailed)
                } else if self.update_overflows(self.reserve_0, self.reserve_1, now) {
                    Err(Error::Overflow)
                } else if fee_to != 0 && b0 * b1 > u128::MAX {
                    Err(Error::Overflow)
                } else {
                    Ok(liq as u64)
                }
            }
        }
    }

    /// The outcome of a deposit into a funded pool: the smaller of the two
    /// proportional estimates, so a lopsided deposit never overcredits the
    /// depositor at the expense of existing holders.
    pub open spec fn later_mint_decision(
        self,
        fee_to: u128,
        a0: u128,
        a1: u128,
        supply_1: int,
        shares_1: Map<u128, u128>,
        caller: u128,
        now: u64,
        b0: u128,
        b1: u128,
    ) -> Result<u64, Error> {
        let r0 = self.reserve_0;
        let r1 = self.reserve_1;
        if r0 == 0 || r1 == 0 {
            Err(Error::Overflow)
        } else if a0 * supply_1 > u128::MAX || a1 * supply_1 > u128::MAX {
            Err(Error::Overflow)
        } else {
            let liq = vstd::math::min(a0 * supply_1 / (r0 as int), a1 * supply_1 / (r1 as int));
            if liq == 0 {
                Err(Error::InsufficientLiquidityMinted)
            } else if liq > u64::MAX {
                Err(Error::Overflow)
            } else if supply_1 + liq > u128::MAX || bal_in(shares_1, caller) + liq > u128::MAX {
                Err(Error::MintFailed)
            } else if self.update_overflows(r0, r1, now) {
                Err(Error::Overflow)
            } else if fee_to != 0 && b0 * b1 > u128::MAX {
                Err(Error::Overflow)
            } else {
                Ok(liq as u64)
            }
        }
    }

    /// Validates a whole deposit and works out everything its commit will
    /// write: `(fee_liq, liquidity, price_0, price_1, k_new)`.
    fn mint_compute(
        &self,
        fee_to: u128,
        b0: u128,
        b1: u128,
        shares: &TokenLedger,
        caller: u128,
        now: u64,
    ) -> (r: Result<(u128, u64, u128, u128, u128), Error>)
        requires
            self.wf(),
            self.total_supply == shares.total_spec(),
        ensures
            ({
                let d = self.mint_decision(fee_to, b0, b1, shares.map_spec(), caller, now);
                &&& r.is_ok() <==> d.is_ok()
                &&& r.is_ok() ==> d == Ok::<u64, Error>(r->Ok_0.1)
                &&& r.is_err() ==> r->Err_0 == d->Err_0
                &&& r.is_ok() ==> r->Ok_0.0 == self.fee_liquidity_due(
                    fee_to,
                    self.reserve_0,
                    self.reserve_1,
                )
                &&& r.is_ok() ==> r->Ok_0.2 == self.next_price_0(
                    self.reserve_0,
                    self.reserve_1,
                    now,
                )
                &&& r.is_ok() ==> r->Ok_0.3 == self.next_price_1(
                    self.reserve_0,
                    self.reserve_1,
                    now,
                )
                &&& r.is_ok() ==> r->Ok_0.4 == (if fee_to != 0 {
                    (b0 * b1) as u128
                } else {
                    0u128
                })
            }),
    {
        let r0 = self.reserve_0;
        let r1 = self.reserve_1;
        if b0 < r0 || b1 < r1 {
            return Err(Error::Overflow);
        }
        let a0 = b0 - r0;
        let a1 = b1 - r1;
        let fee_liq = match self.compute_fee_liquidity(fee_to, r0, r1) {
            Ok(v) => v,
            Err(e) => {
                return Err(e);
            },
        };
        if fee_liq > 0 {
            let fee_bal = shares.balance_of(fee_to);
            if fee_liq > u128::MAX - shares.total_supply() || fee_liq > u128::MAX - fee_bal {
                return Err(Error::TokenMintingFailed);
            }
        }
        let supply_1 = self.total_supply + fee_liq;
        let liquidity: u64;
        if supply_1 == 0 {
            let product = match a0.checked_mul(a1) {
                Some(v) => v,
                None => {
                    return Err(Error::Overflow);
                },
            };
            let root = sqrt(product);
            if root <= MINIMUM_LIQUIDITY as u128 {
                return Err(Error::InsufficientLiquidityMinted);
            }
            let fee_bal = shares.balance_of(fee_to);
            if fee_bal > u128::MAX - MINIMUM_LIQUIDITY as u128 {
                return Err(Error::MintFailed);
            }
            let liq128 = root - MINIMUM_LIQUIDITY as u128;
            proof {
                assert(root <= 0xffffffffffffffffu128) by (nonlinear_arith)
                    requires
                        root * root <= product,
                        product <= u128::MAX,
                ;
            }
            let caller_after: u128 = if caller == fee_to {
                fee_bal + MINIMUM_LIQUIDITY as u128
            } else {
                shares.balance_of(caller)
            };
            if liq128 > u128::MAX - caller_after {
                return Err(Error::MintFailed);
            }
            liquidity = liq128 as u64;
        } else {
            if r0 == 0 || r1 == 0 {
                return Err(Error::Overflow);
            }
            let scaled_0 = match a0.checked_mul(supply_1) {
                Some(v) => v,
                None => {
                    return Err(Error::Overflow);
                },
            };
            let scaled_1 = match a1.checked_mul(supply_1) {
                Some(v) => v,
                None => {
                    return Err(Error::Overflow);
                },
            };
            let est_0 = scaled_0 / r0;
            let est_1 = scaled_1 / r1;
            let liq128: u128 = if est_0 < est_1 {
                est_0
            } else {
                est_1
            };
            if liq128 == 0 {
                return Err(Error::InsufficientLiquidityMinted);
            }
            if liq128 > u64::MAX as u128 {
                return Err(Error::Overflow);
            }
            let caller_bal: u128 = if fee_liq > 0 && caller == fee_to {
                shares.balance_of(caller) + fee_liq
            } else {
                shares.balance_of(caller)
            };
            if liq128 > u128::MAX - supply_1 || liq128 > u128::MAX - caller_bal {
                return Err(Error::MintFailed);
            }
            liquidity = liq128 as u64;
        }
        let prices = match self.compute_accumulators(r0, r1, now) {
            Ok(v) => v,
            Err(e) => {
                return Err(e);
            },
        };
        let k_new: u128;
        if fee_to != 0 {
            k_new = match b0.checked_mul(b1) {
                Some(v) => v,
                None => {
                    return Err(Error::Overflow);
                },
            };
        } else {
            k_new = 0;
        }
        Ok((fee_liq, liquidity, prices.0, prices.1, k_new))
    }

    /// Settles a liquidity deposit: the tokens must already sit in the
    /// pool's custody, and the deposited amounts are inferred by diffing
    /// the ledger balances against the recorded reserves.
    ///
    /// Runs the protocol-fee mint first when a recipient is set, credits
    /// the depositor with `sqrt(a0 * a1)` less the locked minimum on the
    /// first deposit and with the smaller proportional estimate afterwards,
    /// rewrites the reserves to the observed balances and refreshes
    /// `k_last`.  A failure — re-entry, arithmetic overflow, zero liquidity
    /// or a refused share mint — changes neither the pool record nor the
    /// share ledger.
    pub fn mint(
        &mut self,
        registry: &UniswapCore,
        shares: &mut TokenLedger,
        ledger_0: &TokenLedger,
        ledger_1: &TokenLedger,
        caller: u128,
        now: u64,
    ) -> (r: Result<u64, Error>)
        requires
            old(self).wf(),
            old(self).total_supply == old(shares).total_spec(),
        ensures
            final(self).wf(),
            final(self).total_supply == final(shares).total_spec(),
            r == (if old(self).locked {
                Err::<u64, Error>(Error::Locked)
            } else {
                old(self).mint_decision(
                    registry.fee_to,
                    ledger_0.bal(old(self).account),
                    ledger_1.bal(old(self).account),
                    old(shares).map_spec(),
                    caller,
                    now,
                )
            }),
            r.is_err() ==> *final(self) == *old(self) && *final(shares) == *old(shares),
            r.is_ok() ==> ({
                let acct = old(self).account;
                let b0 = ledger_0.bal(acct);
                let b1 = ledger_1.bal(acct);
                let r0 = old(self).reserve_0;
                let r1 = old(self).reserve_1;
                let a0 = (b0 - r0) as u128;
                let a1 = (b1 - r1) as u128;
                let fee_liq = old(self).fee_liquidity_due(registry.fee_to, r0, r1);
                let first = old(self).total_supply + fee_liq == 0;
                let minted_min: int = if first {
                    MINIMUM_LIQUIDITY as int
                } else {
                    0
                };
                let liq = r->Ok_0;
                &&& final(self).same_config(*old(self))
                &&& final(self).reserve_0 == b0
                &&& final(self).reserve_1 == b1
                &&& final(self).price_0_cumulative_last == old(self).next_price_0(r0, r1, now)
                &&& final(self).price_1_cumulative_last == old(self).next_price_1(r0, r1, now)
                &&& final(self).block_timestamp_last == ts_mod32(now)
                &&& final(self).total_supply == old(self).total_supply + fee_liq + minted_min + liq
                &&& final(self).k_last == (if registry.fee_to != 0 {
                    (b0 * b1) as u128
                } else {
                    0u128
                })
                &&& !final(self).locked
                &&& final(shares).total_spec() == old(shares).total_spec() + fee_liq + minted_min
                    + liq
                &&& ({
                    let m1 = if fee_liq > 0 {
                        credited(old(shares).map_spec(), registry.fee_to, fee_liq as u128)
                    } else {
                        old(shares).map_spec()
                    };
                    let m2 = if first {
                        credited(m1, registry.fee_to, MINIMUM_LIQUIDITY as u128)
                    } else {
                        m1
                    };
                    final(shares).map_spec() == credited(m2, caller, liq as u128)
                })
                &&& final(self).events@ == old(self).events@.push(
                    PairEvent::Sync((Sync { reserve_0: b0, reserve_1: b1 })),
                ).push(PairEvent::Mint((Mint { owner: Some(caller), amount_0: a0, amount_1: a1 })))
            }),
            r.is_ok() && old(self).total_supply == 0 && registry.fee_to == 0 ==> r->Ok_0
                == sqrt_spec(
                ((ledger_0.bal(old(self).account) - old(self).reserve_0) * (ledger_1.bal(
                    old(self).account,
                ) - old(self).reserve_1)) as nat,
            ) - MINIMUM_LIQUIDITY && r->Ok_0 > 0,
    {
        if self.locked {
            return Err(Error::Locked);
        }
        self.locked = true;
        let fee_to = registry.get_fee_to();
        let acct = self.account;
        let b0 = ledger_0.balance_of(acct);
        let b1 = ledger_1.balance_of(acct);
        let plan = match self.mint_compute(fee_to, b0, b1, shares, caller, now) {
            Ok(v) => v,
            Err(e) => {
                self.locked = false;
                return Err(e);
            },
        };
        let a0 = b0 - self.reserve_0;
        let a1 = b1 - self.reserve_1;
        if plan.0 > 0 {
            let minted = shares.mint(fee_to, plan.0);
            match minted {
                Ok(_) => {},
                Err(e) => {
                    self.locked = false;
                    return Err(e);
                },
            }
        }
        if self.total_supply == 0 && plan.0 == 0 {
            let minted = shares.mint(fee_to, MINIMUM_LIQUIDITY as u128);
            match minted {
                Ok(_) => {},
                Err(e) => {
                    self.locked = false;
                    return Err(e);
                },
            }
        }
        let minted = shares.mint(caller, plan.1 as u128);
        match minted {
            Ok(_) => {},
            Err(e) => {
                self.locked = false;
                return Err(e);
            },
        }
        self.apply_update(b0, b1, plan.2, plan.3, now);
        self.total_supply = shares.total_supply();
        self.k_last = plan.4;
        self.events.push(PairEvent::Mint(Mint { owner: Some(caller), amount_0: a0, amount_1: a1 }));
        self.locked = false;
        proof {
            let b0s = ledger_0.bal(old(self).account);
            let b1s = ledger_1.bal(old(self).account);
            let r0 = old(self).reserve_0;
            let r1 = old(self).reserve_1;
            if b0s >= r0 && b1s >= r1 {
                let ad0 = (b0s - r0) as u128;
                let ad1 = (b1s - r1) as u128;
                if ad0 * ad1 <= u128::MAX {
                    let p = (ad0 * ad1) as nat;
                    crate::math::lemma_sqrt_spec_bounds(p);
                    assert(sqrt_spec(p) <= 0xffffffffffffffffu128) by (nonlinear_arith)
                        requires
                            sqrt_spec(p) * sqrt_spec(p) <= p,
                            p <= u128::MAX,
                    ;
                }
            }
        }
        Ok(plan.1)
    }

    /// Mints the protocol-fee shares accrued since the last liquidity
    /// event to the fee recipient, against the given reserve snapshot.
    ///
    /// A no-op that resets `k_last` while no fee recipient is configured,
    /// and a no-op while no invariant snapshot is recorded.  Fails with
    /// `Overflow` when the fee arithmetic leaves the 128-bit range, with
    /// `TokenMintingFailed` when the share ledger cannot mint the amount
    /// due, and with `Locked` when re-entered; a failure changes nothing.
    pub fn mint_fee(
        &mut self,
        registry: &UniswapCore,
        shares: &mut TokenLedger,
        reserve_0: u128,
        reserve_1: u128,
    ) -> (r: Result<(), Error>)
        requires
            old(self).wf(),
            old(self).total_supply == old(shares).total_spec(),
        ensures
            final(self).wf(),
            final(self).total_supply == final(shares).total_spec(),
            ({
                let fee_to = registry.fee_to;
                let due = old(self).fee_liquidity_due(fee_to, reserve_0, reserve_1);
                &&& r.is_ok() <==> !old(self).locked && old(self).fee_liquidity_fits(
                    fee_to,
                    reserve_0,
                    reserve_1,
                ) && (due == 0 || (old(shares).total_spec() + due <= u128::MAX && old(shares).bal(
                    fee_to,
                ) + due <= u128::MAX))
                &&& r.is_err() ==> *final(self) == *old(self) && *final(shares) == *old(shares)
                    && r->Err_0 == (if old(self).locked {
                    Error::Locked
                } else if !old(self).fee_liquidity_fits(fee_to, reserve_0, reserve_1) {
                    Error::Overflow
                } else {
                    Error::TokenMintingFailed
                })
                &&& r.is_ok() ==> ({
                    &&& final(self).same_config(*old(self))
                    &&& final(self).reserve_0 == old(self).reserve_0
                    &&& final(self).reserve_1 == old(self).reserve_1
                    &&& final(self).price_0_cumulative_last == old(self).price_0_cumulative_last
                    &&& final(self).price_1_cumulative_last == old(self).price_1_cumulative_last
                    &&& final(self).block_timestamp_last == old(self).block_timestamp_last
                    &&& final(self).total_supply == old(self).total_supply + due
                    &&& final(self).k_last == (if fee_to == 0 {
                        0int
                    } else {
                        old(self).k_last as int
                    })
                    &&& !final(self).locked
                    &&& final(self).events@ == old(self).events@
                    &&& final(shares).map_spec() == (if due > 0 {
                        credited(old(shares).map_spec(), fee_to, due as u128)
                    } else {
                        old(shares).map_spec()
                    })
                    &&& final(shares).total_spec() == old(shares).total_spec() + due
                })
            }),
    {
        if self.locked {
            return Err(Error::Locked);
        }
        self.locked = true;
        let fee_to = registry.get_fee_to();
        let due = match self.compute_fee_liquidity(fee_to, reserve_0, reserve_1) {
            Ok(v) => v,
            Err(e) => {
                self.locked = false;
                return Err(e);
            },
        };
        if due > 0 {
            let fee_bal = shares.balance_of(fee_to);
            if due > u128::MAX - shares.total_supply() || due > u128::MAX - fee_bal {
                self.locked = false;
                return Err(Error::TokenMintingFailed);
            }
            let minted = shares.mint(fee_to, due);
            match minted {
                Ok(_) => {},
                Err(e) => {
                    self.locked = false;
                    return Err(e);
                },
            }
            self.total_supply = shares.total_supply();
        }
        if fee_to == 0 {
            self.k_last = 0;
        }
        self.locked = false;
        Ok(())
    }

    /// Integer square root, rounding down, over the pool's full 128-bit
    /// amount range.
    pub fn get_squareroot(&self, num: u128) -> (r: u128)
        ensures
            r == sqrt_spec(num as nat),
            r * r <= num,
            num < (r + 1) * (r + 1),
    {
        sqrt(num)
    }

    /// The outcome a withdrawal owes: the pro-rata token amounts redeemed
    /// for the shares sitting in the pool's custody, or the first error in
    /// settlement order.
    pub open spec fn burn_decision(
        self,
        fee_to: u128,
        l0m: Map<u128, u128>,
        l1m: Map<u128, u128>,
        sharesm: Map<u128, u128>,
        to: u128,
        now: u64,
    ) -> Result<(u128, u128), Error> {
        let acct = self.account;
        let b0 = bal_in(l0m, acct);
        let b1 = bal_in(l1m, acct);
        let liquidity = bal_in(sharesm, acct);
        let supply = self.total_supply;
        if supply == 0 {
            Err(Error::Overflow)
        } else if liquidity * b0 > u128::MAX || liquidity * b1 > u128::MAX {
            Err(Error::Overflow)
        } else {
            let amount_0 = liquidity * b0 / (supply as int);
            let amount_1 = liquidity * b1 / (supply as int);
            if amount_0 == 0 || amount_1 == 0 {
                Err(Error::InsufficientLiquidityBurned)
            } else if liquidity > supply {
                Err(Error::BurnFailed)
            } else if to != acct && (bal_in(l0m, to) + amount_0 > u128::MAX || bal_in(l1m, to)
                + amount_1 > u128::MAX) {
                Err(Error::TransferFailed)
            } else {
                let nb0 = if to == acct {
                    b0 as int
                } else {
                    b0 - amount_0
                };
                let nb1 = if to == acct {
                    b1 as int
                } else {
                    b1 - amount_1
                };
                if self.update_overflows(self.reserve_0, self.reserve_1, now) {
                    Err(Error::Overflow)
                } else if fee_to != 0 && nb0 * nb1 > u128::MAX {
                    Err(Error::Overflow)
                } else {
                    Ok((amount_0 as u128, amount_1 as u128))
                }
            }
        }
    }

    /// Settles a liquidity withdrawal: the shares must already sit in the
    /// pool's custody; they are destroyed and redeemed pro rata against the
    /// balances the ledgers hold for the pool, and the proceeds go to `to`.
    ///
    /// Rewrites the reserves to the balances observed after the payout and
    /// refreshes `k_last`.  A failure — re-entry, arithmetic overflow, a
    /// zero redemption or a refused ledger call — changes neither the pool
    /// record nor any ledger.
    pub fn burn(
        &mut self,
        registry: &UniswapCore,
        shares: &mut TokenLedger,
        ledger_0: &mut TokenLedger,
        ledger_1: &mut TokenLedger,
        to: u128,
        caller: u128,
        now: u64,
    ) -> (r: Result<(u128, u128), Error>)
        requires
            old(self).wf(),
            old(self).total_supply == old(shares).total_spec(),
        ensures
            final(self).wf(),
            final(self).total_supply == final(shares).total_spec(),
            r == (if old(self).locked {
                Err::<(u128, u128), Error>(Error::Locked)
            } else {
                old(self).burn_decision(
                    registry.fee_to,
                    old(ledger_0).map_spec(),
                    old(ledger_1).map_spec(),
                    old(shares).map_spec(),
                    to,
                    now,
                )
            }),
            r.is_err() ==> *final(self) == *old(self) && *final(shares) == *old(shares)
                && *final(ledger_0) == *old(ledger_0) && *final(ledger_1) == *old(ledger_1),
            r.is_ok() ==> ({
                let acct = old(self).account;
                let b0 = old(ledger_0).bal(acct);
                let b1 = old(ledger_1).bal(acct);
                let liquidity = old(shares).bal(acct);
                let amount_0 = r->Ok_0.0;
                let amount_1 = r->Ok_0.1;
                let nb0 = if to == acct {
                    b0
                } else {
                    (b0 - amount_0) as u128
                };
                let nb1 = if to == acct {
                    b1
                } else {
                    (b1 - amount_1) as u128
                };
                &&& final(self).same_config(*old(self))
                &&& final(self).reserve_0 == nb0
                &&& final(self).reserve_1 == nb1
                &&& final(self).price_0_cumulative_last == old(self).next_price_0(
                    old(self).reserve_0,
                    old(self).reserve_1,
                    now,
                )
                &&& final(self).price_1_cumulative_last == old(self).next_price_1(
                    old(self).reserve_0,
                    old(self).reserve_1,
                    now,
                )
                &&& final(self).block_timestamp_last == ts_mod32(now)
                &&& final(self).total_supply == old(self).total_supply - liquidity
                &&& final(self).k_last == (if registry.fee_to != 0 {
                    (nb0 * nb1) as u128
                } else {
                    0u128
                })
                &&& !final(self).locked
                &&& final(shares).map_spec() == debited(old(shares).map_spec(), acct, liquidity)
                &&& final(shares).total_spec() == old(shares).total_spec() - liquidity
                &&& final(ledger_0).map_spec() == credited(
                    debited(old(ledger_0).map_spec(), acct, amount_0),
                    to,
                    amount_0,
                )
                &&& final(ledger_1).map_spec() == credited(
                    debited(old(ledger_1).map_spec(), acct, amount_1),
                    to,
                    amount_1,
                )
                &&& final(ledger_0).total_spec() == old(ledger_0).total_spec()
                &&& final(ledger_1).total_spec() == old(ledger_1).total_spec()
                &&& final(self).reserve_0 == final(ledger_0).bal(acct)
                &&& final(self).reserve_1 == final(ledger_1).bal(acct)
                &&& final(self).events@ == old(self).events@.push(
                    PairEvent::Sync((Sync { reserve_0: nb0, reserve_1: nb1 })),
                ).push(
                    PairEvent::Burn((Burn { sender: Some(caller), amount_0, amount_1, to })),
                )
            }),
    {
        if self.locked {
            return Err(Error::Locked);
        }
        self.locked = true;
        let acct = self.account;
        let b0 = ledger_0.balance_of(acct);
        let b1 = ledger_1.balance_of(acct);
        let liquidity = shares.balance_of(acct);
        let supply = self.total_supply;
        if supply == 0 {
            self.locked = false;
            return Err(Error::Overflow);
        }
        let scaled_0 = match liquidity.checked_mul(b0) {
            Some(v) => v,
            None => {
                self.locked = false;
                return Err(Error::Overflow);
            },
        };
        let scaled_1 = match liquidity.checked_mul(b1) {
            Some(v) => v,
            None => {
                self.locked = false;
                return Err(Error::Overflow);
            },
        };
        let amount_0 = scaled_0 / supply;
        let amount_1 = scaled_1 / supply;
        if amount_0 == 0 || amount_1 == 0 {
            self.locked = false;
            return Err(Error::InsufficientLiquidityBurned);
        }
        if liquidity > supply {
            self.locked = false;
            return Err(Error::BurnFailed);
        }
        if to != acct {
            let t0 = ledger_0.balance_of(to);
            let t1 = ledger_1.balance_of(to);
            if amount_0 > u128::MAX - t0 || amount_1 > u128::MAX - t1 {
                self.locked = false;
                return Err(Error::TransferFailed);
            }
        }
        proof {
            crate::math::lemma_prorata_bound(liquidity as int, b0 as int, supply as int);
            crate::math::lemma_prorata_bound(liquidity as int, b1 as int, supply as int);
        }
        let nb0: u128 = if to == acct {
            b0
        } else {
            b0 - amount_0
        };
        let nb1: u128 = if to == acct {
            b1
        } else {
            b1 - amount_1
        };
        let prices = match self.compute_accumulators(self.reserve_0, self.reserve_1, now) {
            Ok(v) => v,
            Err(e) => {
                self.locked = false;
                return Err(e);
            },
        };
        let fee_to = registry.get_fee_to();
        let k_new: u128;
        if fee_to != 0 {
            k_new = match nb0.checked_mul(nb1) {
                Some(v) => v,
                None => {
                    self.locked = false;
                    return Err(Error::Overflow);
                },
            };
        } else {
            k_new = 0;
        }
        let burned = shares.burn(acct, liquidity);
        match burned {
            Ok(_) => {},
            Err(e) => {
                self.locked = false;
                return Err(e);
            },
        }
        let moved_0 = ledger_0.transfer_from(acct, to, amount_0);
        match moved_0 {
            Ok(_) => {},
            Err(e) => {
                self.locked = false;
                return Err(e);
            },
        }
        let moved_1 = ledger_1.transfer_from(acct, to, amount_1);
        match moved_1 {
            Ok(_) => {},
            Err(e) => {
                self.locked = false;
                return Err(e);
            },
        }
        let new_b0 = ledger_0.balance_of(acct);
        let new_b1 = ledger_1.balance_of(acct);
        self.apply_update(new_b0, new_b1, prices.0, prices.1, now);
        self.total_supply = shares.total_supply();
        self.k_last = k_new;
        self.events.push(
            PairEvent::Burn(Burn { sender: Some(caller), amount_0, amount_1, to }),
        );
        self.locked = false;
        Ok((amount_0, amount_1))
    }

    /// The outcome a trade owes: the inferred input amounts
    /// `(amount_0_in, amount_1_in)`, or the first error in settlement
    /// order.  The solvency rule is the constant-product check: with a
    /// 0.3% fee taken from each input, the product of the fee-adjusted
    /// balances must not fall below the pre-trade product of the reserves
    /// scaled by the fee denominator.
    pub open spec fn swap_decision(
        self,
        l0m: Map<u128, u128>,
        l1m: Map<u128, u128>,
        amount_0_out: u128,
        amount_1_out: u128,
        to: u128,
        now: u64,
    ) -> Result<(u128, u128), Error> {
        let acct = self.account;
        let r0 = self.reserve_0;
        let r1 = self.reserve_1;
        let cur0 = bal_in(l0m, acct);
        let cur1 = bal_in(l1m, acct);
        if amount_0_out == 0 && amount_1_out == 0 {
            Err(Error::InsufficientOutputAmount)
        } else if amount_0_out >= r0 || amount_1_out >= r1 {
            Err(Error::InsufficientLiquidity)
        } else if to == self.token_0 || to == self.token_1 {
            Err(Error::InvalidRecipient)
        } else if cur0 < amount_0_out || cur1 < amount_1_out {
            Err(Error::TransferFailed)
        } else if to != acct && (amount_0_out > 0 && bal_in(l0m, to) + amount_0_out > u128::MAX
            || amount_1_out > 0 && bal_in(l1m, to) + amount_1_out > u128::MAX) {
            Err(Error::TransferFailed)
        } else {
            let balance_0 = if amount_0_out > 0 && to != acct {
                (cur0 - amount_0_out) as u128
            } else {
                cur0
            };
            let balance_1 = if amount_1_out > 0 && to != acct {
                (cur1 - amount_1_out) as u128
            } else {
                cur1
            };
            let amount_0_in: int = if balance_0 > r0 - amount_0_out {
                balance_0 - (r0 - amount_0_out)
            } else {
                0
            };
            let amount_1_in: int = if balance_1 > r1 - amount_1_out {
                balance_1 - (r1 - amount_1_out)
            } else {
                0
            };
            if amount_0_in == 0 && amount_1_in == 0 {
                Err(Error::InsufficientInputAmount)
            } else if balance_0 * 1000 > u128::MAX || balance_1 * 1000 > u128::MAX {
                Err(Error::Overflow)
            } else {
                let adj0 = balance_0 * 1000 - amount_0_in * 3;
                let adj1 = balance_1 * 1000 - amount_1_in * 3;
                if adj0 * adj1 > u128::MAX || r0 * r1 > u128::MAX || r0 * r1 * 1000000
                    > u128::MAX {
                    Err(Error::Overflow)
                } else if adj0 * adj1 < r0 * r1 * 1000000 {
                    Err(Error::KInvariantViolated)
                } else if self.update_overflows(r0, r1, now) {
                    Err(Error::Overflow)
                } else {
                    Ok((amount_0_in as u128, amount_1_in as u128))
                }
            }
        }
    }

    /// Validates a whole trade and works out everything its commit will
    /// write: `(amount_0_in, amount_1_in, balance_0, balance_1, price_0,
    /// price_1)`.
    fn swap_compute(
        &self,
        ledger_0: &TokenLedger,
        ledger_1: &TokenLedger,
        amount_0_out: u128,
        amount_1_out: u128,
        to: u128,
        now: u64,
    ) -> (r: Result<(u128, u128, u128, u128, u128, u128), Error>)
        requires
            self.wf(),
        ensures
            ({
                let d = self.swap_decision(
                    ledger_0.map_spec(),
                    ledger_1.map_spec(),
                    amount_0_out,
                    amount_1_out,
                    to,
                    now,
                );
                &&& r.is_ok() <==> d.is_ok()
                &&& r.is_err() ==> r->Err_0 == d->Err_0
                &&& r.is_ok() ==> ({
                    let acct = self.account;
                    let cur0 = ledger_0.bal(acct);
                    let cur1 = ledger_1.bal(acct);
                    let balance_0 = if amount_0_out > 0 && to != acct {
                        (cur0 - amount_0_out) as u128
                    } else {
                        cur0
                    };
                    let balance_1 = if amount_1_out > 0 && to != acct {
                        (cur1 - amount_1_out) as u128
                    } else {
                        cur1
                    };
                    &&& d == Ok::<(u128, u128), Error>((r->Ok_0.0, r->Ok_0.1))
                    &&& r->Ok_0.2 == balance_0
                    &&& r->Ok_0.3 == balance_1
                    &&& r->Ok_0.4 == self.next_price_0(self.reserve_0, self.reserve_1, now)
                    &&& r->Ok_0.5 == self.next_price_1(self.reserve_0, self.reserve_1, now)
                })
            }),
    {
        let acct = self.account;
        if amount_0_out == 0 && amount_1_out == 0 {
            return Err(Error::InsufficientOutputAmount);
        }
        if amount_0_out >= self.reserve_0 || amount_1_out >= self.reserve_1 {
            return Err(Error::InsufficientLiquidity);
        }
        if to == self.token_0 || to == self.token_1 {
            return Err(Error::InvalidRecipient);
        }
        let cur0 = ledger_0.balance_of(acct);
        let cur1 = ledger_1.balance_of(acct);
        if cur0 < amount_0_out || cur1 < amount_1_out {
            return Err(Error::TransferFailed);
        }
        if to != acct {
            let t0 = ledger_0.balance_of(to);
            let t1 = ledger_1.balance_of(to);
            if (amount_0_out > 0 && amount_0_out > u128::MAX - t0) || (amount_1_out > 0
                && amount_1_out > u128::MAX - t1) {
                return Err(Error::TransferFailed);
            }
        }
        let balance_0: u128 = if amount_0_out > 0 && to != acct {
            cur0 - amount_0_out
        } else {
            cur0
        };
        let balance_1: u128 = if amount_1_out > 0 && to != acct {
            cur1 - amount_1_out
        } else {
            cur1
        };
        let amount_0_in: u128 = if balance_0 > self.reserve_0 - amount_0_out {
            balance_0 - (self.reserve_0 - amount_0_out)
        } else {
            0
        };
        let amount_1_in: u128 = if balance_1 > self.reserve_1 - amount_1_out {
            balance_1 - (self.reserve_1 - amount_1_out)
        } else {
            0
        };
        if amount_0_in == 0 && amount_1_in == 0 {
            return Err(Error::InsufficientInputAmount);
        }
        let scaled_0 = match balance_0.checked_mul(1000) {
            Some(v) => v,
            None => {
                return Err(Error::Overflow);
            },
        };
        let scaled_1 = match balance_1.checked_mul(1000) {
            Some(v) => v,
            None => {
                return Err(Error::Overflow);
            },
        };
        proof {
            assert(amount_0_in * 3 <= balance_0 * 1000) by (nonlinear_arith)
                requires
                    amount_0_in <= balance_0,
            ;
            assert(amount_1_in * 3 <= balance_1 * 1000) by (nonlinear_arith)
                requires
                    amount_1_in <= balance_1,
            ;
        }
        let adj0 = scaled_0 - amount_0_in * 3;
        let adj1 = scaled_1 - amount_1_in * 3;
        let lhs = match adj0.checked_mul(adj1) {
            Some(v) => v,
            None => {
                return Err(Error::Overflow);
            },
        };
        let rk = match self.reserve_0.checked_mul(self.reserve_1) {
            Some(v) => v,
            None => {
                return Err(Error::Overflow);
            },
        };
        let rhs = match rk.checked_mul(1000000) {
            Some(v) => v,
            None => {
                return Err(Error::Overflow);
            },
        };
        if lhs < rhs {
            return Err(Error::KInvariantViolated);
        }
        let prices = match self.compute_accumulators(self.reserve_0, self.reserve_1, now) {
            Ok(v) => v,
            Err(e) => {
                return Err(e);
            },
        };
        Ok((amount_0_in, amount_1_in, balance_0, balance_1, prices.0, prices.1))
    }

    /// Settles a trade: pays the requested output amounts to `to` first,
    /// infers the inputs the trader moved in beforehand by diffing the
    /// observed balances against the reserves, and enforces the
    /// constant-product solvency check before committing.
    ///
    /// `data` is auxiliary payload carried for the trader; the engine does
    /// not interpret it.  A failure — re-entry, a bad request, missing
    /// input, a violated invariant or arithmetic overflow — changes
    /// neither the pool record nor any ledger.
    pub fn swap(
        &mut self,
        ledger_0: &mut TokenLedger,
        ledger_1: &mut TokenLedger,
        amount_0_out: u128,
        amount_1_out: u128,
        to: u128,
        data: Vec<u8>,
        caller: u128,
        now: u64,
    ) -> (r: Result<(), Error>)
        requires
            old(self).wf(),
        ensures
            final(self).wf(),
            final(self).total_supply == old(self).total_supply,
            r.is_ok() <==> !old(self).locked && old(self).swap_decision(
                old(ledger_0).map_spec(),
                old(ledger_1).map_spec(),
                amount_0_out,
                amount_1_out,
                to,
                now,
            ).is_ok(),
            r.is_err() ==> *final(self) == *old(self) && *final(ledger_0) == *old(ledger_0)
                && *final(ledger_1) == *old(ledger_1) && r->Err_0 == (if old(self).locked {
                Error::Locked
            } else {
                old(self).swap_decision(
                    old(ledger_0).map_spec(),
                    old(ledger_1).map_spec(),
                    amount_0_out,
                    amount_1_out,
                    to,
                    now,
                )->Err_0
            }),
            r.is_ok() ==> ({
                let d = old(self).swap_decision(
                    old(ledger_0).map_spec(),
                    old(ledger_1).map_spec(),
                    amount_0_out,
                    amount_1_out,
                    to,
                    now,
                );
                let amount_0_in = d->Ok_0.0;
                let amount_1_in = d->Ok_0.1;
                let acct = old(self).account;
                let r0 = old(self).reserve_0;
                let r1 = old(self).reserve_1;
                let cur0 = old(ledger_0).bal(acct);
                let cur1 = old(ledger_1).bal(acct);
                let balance_0 = if amount_0_out > 0 && to != acct {
                    (cur0 - amount_0_out) as u128
                } else {
                    cur0
                };
                let balance_1 = if amount_1_out > 0 && to != acct {
                    (cur1 - amount_1_out) as u128
                } else {
                    cur1
                };
                &&& final(self).same_config(*old(self))
                &&& final(self).reserve_0 == balance_0
                &&& final(self).reserve_1 == balance_1
                &&& final(self).price_0_cumulative_last == old(self).next_price_0(r0, r1, now)
                &&& final(self).price_1_cumulative_last == old(self).next_price_1(r0, r1, now)
                &&& final(self).block_timestamp_last == ts_mod32(now)
                &&& final(self).k_last == old(self).k_last
                &&& !final(self).locked
                &&& final(ledger_0).map_spec() == (if amount_0_out > 0 {
                    credited(debited(old(ledger_0).map_spec(), acct, amount_0_out), to, amount_0_out)
                } else {
                    old(ledger_0).map_spec()
                })
                &&& final(ledger_1).map_spec() == (if amount_1_out > 0 {
                    credited(debited(old(ledger_1).map_spec(), acct, amount_1_out), to, amount_1_out)
                } else {
                    old(ledger_1).map_spec()
                })
                &&& final(ledger_0).total_spec() == old(ledger_0).total_spec()
                &&& final(ledger_1).total_spec() == old(ledger_1).total_spec()
                &&& final(self).reserve_0 == final(ledger_0).bal(acct)
                &&& final(self).reserve_1 == final(ledger_1).bal(acct)
                &&& final(self).events@ == old(self).events@.push(
                    PairEvent::Sync((Sync { reserve_0: balance_0, reserve_1: balance_1 })),
                ).push(
                    PairEvent::Swap(
                        (Swap {
                            sender: Some(caller),
                            amount_0_in,
                            amount_1_in,
                            amount_0_out,
                            amount_1_out,
                            to,
                        }),
                    ),
                )
                &&& (balance_0 * 1000 - amount_0_in * 3) * (balance_1 * 1000 - amount_1_in * 3)
                    >= r0 * r1 * 1000000
            }),
    {
        if self.locked {
            return Err(Error::Locked);
        }
        self.locked = true;
        let plan = match self.swap_compute(ledger_0, ledger_1, amount_0_out, amount_1_out, to, now)
        {
            Ok(v) => v,
            Err(e) => {
                self.locked = false;
                return Err(e);
            },
        };
        let acct = self.account;
        if amount_0_out > 0 {
            let moved = ledger_0.transfer_from(acct, to, amount_0_out);
            match moved {
                Ok(_) => {},
                Err(e) => {
                    self.locked = false;
                    return Err(e);
                },
            }
        }
        if amount_1_out > 0 {
            let moved = ledger_1.transfer_from(acct, to, amount_1_out);
            match moved {
                Ok(_) => {},
                Err(e) => {
                    self.locked = false;
                    return Err(e);
                },
            }
        }
        let new_b0 = ledger_0.balance_of(acct);
        let new_b1 = ledger_1.balance_of(acct);
        self.apply_update(new_b0, new_b1, plan.4, plan.5, now);
        self.events.push(
            PairEvent::Swap(
                Swap {
                    sender: Some(caller),
                    amount_0_in: plan.0,
                    amount_1_in: plan.1,
                    amount_0_out,
                    amount_1_out,
                    to,
                },
            ),
        );
        self.locked = false;
        Ok(())
    }
}

} // verus!
