//! Depositing both assets into a pool in exchange for new claim units.

use vstd::prelude::*;
use crate::curve::{deposit_amounts, deposit_amounts_outcome, is_funded, lemma_deposit_amounts_proportional, XYAmounts};
use crate::error::AmmError;
use crate::state::Config;

verus! {

/// What a deposit reads of a pool and what it leaves behind: the pool's
/// record, the balance of each asset held in custody, and the number of claim
/// units outstanding.
#[derive(Clone, Copy, Debug, PartialEq, Eq)]
pub struct Deposit {
    pub config: Config,
    pub vault_x: u64,
    pub vault_y: u64,
    pub mint_lp: u64,
}

/// What a deposit that went through asks to be moved: `x` and `y` from the
/// depositor into custody, and `lp` new claim units to the depositor.
#[derive(Clone, Copy, Debug, PartialEq, Eq, Structural)]
pub struct DepositResult {
    pub x: u64,
    pub y: u64,
    pub lp: u64,
}

impl Deposit {
    /// Nothing is held and no claim unit is out.
    pub open spec fn is_empty(&self) -> bool {
        self.mint_lp == 0 && self.vault_x == 0 && self.vault_y == 0
    }

    /// The balance held of X, or of Y.
    pub open spec fn vault(&self, is_x: bool) -> u64 {
        if is_x {
            self.vault_x
        } else {
            self.vault_y
        }
    }

    /// The same pool with the balance of X, or of Y, replaced.
    pub open spec fn with_vault(self, is_x: bool, balance: u64) -> Deposit {
        if is_x {
            Deposit { vault_x: balance, ..self }
        } else {
            Deposit { vault_y: balance, ..self }
        }
    }

    /// The product of the two balances held.
    pub open spec fn product(&self) -> int {
        self.vault_x * self.vault_y
    }

    /// What the depositor owes for `amount` claim units. Into an empty pool the
    /// depositor pays exactly the two limits, and so sets the first price;
    /// otherwise the curve says what is owed.
    pub open spec fn amounts_owed(&self, amount: u64, max_x: u64, max_y: u64) -> Result<XYAmounts, AmmError> {
        if self.is_empty() {
            Ok(XYAmounts { x: max_x, y: max_y })
        } else {
            deposit_amounts_outcome(self.vault_x, self.vault_y, self.mint_lp, amount)
        }
    }

    /// The outcome of `deposit` on every pool and every input, each refusal
    /// in the order in which it is tested.
    pub open spec fn deposit_outcome(&self, amount: u64, max_x: u64, max_y: u64) -> Result<DepositResult, AmmError> {
        if self.config.locked {
            Err(AmmError::PoolLocked)
        } else if amount == 0 {
            Err(AmmError::InvalidAmount)
        } else {
            match self.amounts_owed(amount, max_x, max_y) {
                Err(e) => Err(e),
                Ok(owed) => if owed.x > max_x || owed.y > max_y {
                    Err(AmmError::SlippageExceeded)
                } else if self.vault_x + owed.x > u64::MAX || self.vault_y + owed.y > u64::MAX || self.mint_lp
                    + amount > u64::MAX {
                    Err(AmmError::Overflow)
                } else {
                    Ok(DepositResult { x: owed.x, y: owed.y, lp: amount })
                },
            }
        }
    }

    /// The pool once `moved` has been settled.
    pub open spec fn credited(self, moved: DepositResult) -> Deposit {
        Deposit {
            config: self.config,
            vault_x: (self.vault_x + moved.x) as u64,
            vault_y: (self.vault_y + moved.y) as u64,
            mint_lp: (self.mint_lp + moved.lp) as u64,
        }
    }

    /// Takes a deposit for `amount` new claim units, for which the depositor
    /// will pay at most `max_x` and `max_y`.
    ///
    /// A locked pool, an `amount` of zero, a price above either limit and a
    /// balance that would no longer fit are refused, in this order, and a
    /// refusal leaves the pool as it was. Otherwise the pool is credited with
    /// what the result names.
    pub fn deposit(&mut self, amount: u64, max_x: u64, max_y: u64) -> (r: Result<DepositResult, AmmError>)
        ensures
            r == old(self).deposit_outcome(amount, max_x, max_y),
            match r {
                Ok(moved) => *final(self) == old(self).credited(moved),
                Err(_) => *final(self) == *old(self),
            },
    {
        if self.config.locked {
            return Err(AmmError::PoolLocked);
        }
        if amount == 0 {
            return Err(AmmError::InvalidAmount);
        }
        let owed: XYAmounts = if self.mint_lp == 0 && self.vault_x == 0 && self.vault_y == 0 {
            XYAmounts { x: max_x, y: max_y }
        } else {
            match deposit_amounts(self.vault_x, self.vault_y, self.mint_lp, amount) {
                Ok(owed) => owed,
                Err(e) => {
                    return Err(e);
                },
            }
        };
        if owed.x > max_x || owed.y > max_y {
            return Err(AmmError::SlippageExceeded);
        }
        if owed.x > u64::MAX - self.vault_x || owed.y > u64::MAX - self.vault_y || amount > u64::MAX
            - self.mint_lp {
            return Err(AmmError::Overflow);
        }
        self.deposit_tokens(true, owed.x)?;
        self.deposit_tokens(false, owed.y)?;
        self.mint_lp_tokens(amount)?;
        Ok(DepositResult { x: owed.x, y: owed.y, lp: amount })
    }

    /// Credits the custody of X, or of Y, with `amount` paid in by the
    /// depositor. A balance that would no longer fit is refused with
    /// `Overflow` and left as it was.
    pub fn deposit_tokens(&mut self, is_x: bool, amount: u64) -> (r: Result<(), AmmError>)
        ensures
            match r {
                Ok(_) => {
                    &&& old(self).vault(is_x) + amount <= u64::MAX
                    &&& *final(self) == old(self).with_vault(is_x, (old(self).vault(is_x) + amount) as u64)
                },
                Err(e) => {
                    &&& old(self).vault(is_x) + amount > u64::MAX
                    &&& e == AmmError::Overflow
                    &&& *final(self) == *old(self)
                },
            },
    {
        if is_x {
            match self.vault_x.checked_add(amount) {
                Some(balance) => {
                    self.vault_x = balance;
                    Ok(())
                },
                None => Err(AmmError::Overflow),
            }
        } else {
            match self.vault_y.checked_add(amount) {
                Some(balance) => {
                    self.vault_y = balance;
                    Ok(())
                },
                None => Err(AmmError::Overflow),
            }
        }
    }

    /// Adds `amount` claim units, issued to the depositor, to those
    /// outstanding. A supply that would no longer fit is refused with
    /// `Overflow` and left as it was.
    pub fn mint_lp_tokens(&mut self, amount: u64) -> (r: Result<(), AmmError>)
        ensures
            match r {
                Ok(_) => {
                    &&& old(self).mint_lp + amount <= u64::MAX
                    &&& *final(self) == (Deposit { mint_lp: (old(self).mint_lp + amount) as u64, ..*old(self) })
                },
                Err(e) => {
                    &&& old(self).mint_lp + amount > u64::MAX
                    &&& e == AmmError::Overflow
                    &&& *final(self) == *old(self)
                },
            },
    {
        match self.mint_lp.checked_add(amount) {
            Some(supply) => {
                self.mint_lp = supply;
                Ok(())
            },
            None => Err(AmmError::Overflow),
        }
    }
}

/// The first deposit into an empty, unlocked pool always goes through: the
/// depositor pays exactly the two limits, whatever price they imply, and
/// receives the claim units asked for.
pub proof fn lemma_first_deposit_sets_reserves(pool: Deposit, amount: u64, max_x: u64, max_y: u64)
    requires
        pool.is_empty(),
        !pool.config.locked,
        amount > 0,
    ensures
        pool.deposit_outcome(amount, max_x, max_y) == Ok::<DepositResult, AmmError>(
            (DepositResult { x: max_x, y: max_y, lp: amount }),
        ),
        pool.credited((DepositResult { x: max_x, y: max_y, lp: amount })) == (Deposit {
            config: pool.config,
            vault_x: max_x,
            vault_y: max_y,
            mint_lp: amount,
        }),
{
}

/// A deposit goes through only into a pool that is empty or fully funded, and
/// never takes anything out: no balance falls, the supply of claim units
/// grows, the product of the balances does not fall, and the record of the pool
/// stays as it was. A funded pool stays funded, and its product grows.
pub proof fn lemma_deposit_only_adds(pool: Deposit, amount: u64, max_x: u64, max_y: u64)
    ensures
        pool.deposit_outcome(amount, max_x, max_y) matches Ok(moved) ==> {
            let after = pool.credited(moved);
            &&& pool.is_empty() || is_funded(pool.vault_x, pool.vault_y, pool.mint_lp)
            &&& after.config == pool.config
            &&& after.vault_x == pool.vault_x + moved.x
            &&& after.vault_y == pool.vault_y + moved.y
            &&& after.mint_lp == pool.mint_lp + amount
            &&& after.mint_lp > pool.mint_lp
            &&& after.product() >= pool.product()
            &&& is_funded(pool.vault_x, pool.vault_y, pool.mint_lp) ==> {
                &&& is_funded(after.vault_x, after.vault_y, after.mint_lp)
                &&& moved.x > 0
                &&& moved.y > 0
                &&& after.product() > pool.product()
            }
        },
{
    if let Ok(moved) = pool.deposit_outcome(amount, max_x, max_y) {
        let after = pool.credited(moved);
        let (x, y) = (pool.vault_x as int, pool.vault_y as int);
        let (dx, dy) = (moved.x as int, moved.y as int);
        assert((x + dx) * (y + dy) >= x * y) by (nonlinear_arith)
            requires
                x >= 0,
                y >= 0,
                dx >= 0,
                dy >= 0,
        ;
        if is_funded(pool.vault_x, pool.vault_y, pool.mint_lp) {
            lemma_deposit_amounts_proportional(pool.vault_x, pool.vault_y, pool.mint_lp, amount);
            let (l, d) = (pool.mint_lp as int, amount as int);
            assert(dx > 0) by (nonlinear_arith)
                requires
                    d * x <= dx * l,
                    d > 0,
                    x > 0,
                    l > 0,
            ;
            assert(dy > 0) by (nonlinear_arith)
                requires
                    d * y <= dy * l,
                    d > 0,
                    y > 0,
                    l > 0,
            ;
            assert((x + dx) * (y + dy) > x * y) by (nonlinear_arith)
                requires
                    x > 0,
                    y > 0,
                    dx > 0,
                    dy > 0,
            ;
        }
    }
}

} // verus!
