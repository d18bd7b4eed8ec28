//! Swapping one asset of a pool for the other along the curve.

use vstd::prelude::*;
use vstd::arithmetic::mul::lemma_mul_is_commutative;
use crate::curve::{
    amount_after_fee,
    fee_gain,
    lemma_amount_after_fee_bounds,
    lemma_reserve_out_after_bounds,
    lemma_swap_product_change,
    product_after_swap,
    rounding_loss,
    swap_amount_out,
    swap_output,
    swap_output_outcome,
};
use crate::error::AmmError;
use crate::state::Config;

verus! {

/// What a swap reads of a pool and what it leaves behind: the pool's record
/// and the balance of each asset held in custody.
#[derive(Clone, Copy, Debug, PartialEq, Eq)]
pub struct Swap {
    pub config: Config,
    pub vault_x: u64,
    pub vault_y: u64,
}

/// What a swap that went through asks to be moved: `deposit` of the asset paid
/// in, from the caller into custody, and `withdraw` of the other asset, out of
/// custody to the caller.
#[derive(Clone, Copy, Debug, PartialEq, Eq, Structural)]
pub struct SwapResult {
    pub deposit: u64,
    pub withdraw: u64,
}

impl Swap {
    /// The balance held of X, or of Y.
    pub open spec fn vault(&self, is_x: bool) -> u64 {
        if is_x {
            self.vault_x
        } else {
            self.vault_y
        }
    }

    /// The same pool with the balance of X, or of Y, replaced.
    pub open spec fn with_vault(self, is_x: bool, balance: u64) -> Swap {
        if is_x {
            Swap { vault_x: balance, ..self }
        } else {
            Swap { vault_y: balance, ..self }
        }
    }

    /// The product of the two balances held.
    pub open spec fn product(&self) -> int {
        self.vault_x * self.vault_y
    }

    /// The outcome of `swap` on every pool and every input, each refusal in the
    /// order in which it is tested. The asset paid in is X where `is_x` holds
    /// and Y where it does not; the other one is paid out. Whether the pool is
    /// locked plays no part.
    pub open spec fn swap_outcome(&self, is_x: bool, amount: u64, min: u64) -> Result<SwapResult, AmmError> {
        match swap_output_outcome(self.vault(is_x), self.vault(!is_x), amount, self.config.fee) {
            Err(e) => Err(e),
            Ok(amount_out) => if amount_out < min {
                Err(AmmError::SlippageExceeded)
            } else if self.vault(is_x) + amount > u64::MAX {
                Err(AmmError::Overflow)
            } else {
                Ok(SwapResult { deposit: amount, withdraw: amount_out })
            },
        }
    }

    /// The pool once `moved` has been settled with X paid in, or with Y.
    pub open spec fn settled(self, is_x: bool, moved: SwapResult) -> Swap {
        self.with_vault(is_x, (self.vault(is_x) + moved.deposit) as u64).with_vault(
            !is_x,
            (self.vault(!is_x) - moved.withdraw) as u64,
        )
    }

    /// Swaps `amount` of X for Y where `is_x` holds, and of Y for X where it
    /// does not, for a caller who accepts no less than `min` in return.
    ///
    /// What is paid out follows the curve at the pool's fee rate. A refusal of
    /// the curve, an amount paid out below `min` and a balance that would no
    /// longer fit are refused, in this order, and a refusal leaves the pool as
    /// it was. Otherwise the whole amount paid in joins one balance and the
    /// amount paid out leaves the other.
    pub fn swap(&mut self, is_x: bool, amount: u64, min: u64) -> (r: Result<SwapResult, AmmError>)
        ensures
            r == old(self).swap_outcome(is_x, amount, min),
            match r {
                Ok(moved) => *final(self) == old(self).settled(is_x, moved),
                Err(_) => *final(self) == *old(self),
            },
    {
        let (reserve_in, reserve_out): (u64, u64) = if is_x {
            (self.vault_x, self.vault_y)
        } else {
            (self.vault_y, self.vault_x)
        };
        let amount_out: u64 = match swap_output(reserve_in, reserve_out, amount, self.config.fee) {
            Ok(amount_out) => amount_out,
            Err(e) => {
                return Err(e);
            },
        };
        if amount_out < min {
            return Err(AmmError::SlippageExceeded);
        }
        if amount > u64::MAX - reserve_in {
            return Err(AmmError::Overflow);
        }
        self.deposit_tokens(is_x, amount)?;
        self.withdraw_tokens(!is_x, amount_out)?;
        Ok(SwapResult { deposit: amount, withdraw: amount_out })
    }

    /// Credits the custody of X, or of Y, with `amount` paid in by the caller.
    /// A balance that would no longer fit is refused with `Overflow` and left
    /// as it was.
    pub fn deposit_tokens(&mut self, is_x: bool, amount: u64) -> (r: Result<(), AmmError>)
        ensures
            match r {
                Ok(_) => {
                    &&& old(self).vault(is_x) + amount <= u64::MAX
                    &&& *final(self) == old(self).with_vault(is_x, (old(self).vault(is_x) + amount) as u64)
                },
                Err(e) => {
                    &&& old(self).vault(is_x) + amount > u64::MAX
                    &&& e == AmmError::Overflow
                    &&& *final(self) == *old(self)
                },
            },
    {
        if is_x {
            match self.vault_x.checked_add(amount) {
                Some(balance) => {
                    self.vault_x = balance;
                    Ok(())
                },
                None => Err(AmmError::Overflow),
            }
        } else {
            match self.vault_y.checked_add(amount) {
                Some(balance) => {
                    self.vault_y = balance;
                    Ok(())
                },
                None => Err(AmmError::Overflow),
            }
        }
    }

    /// Debits the custody of X, or of Y, with `amount` paid out to the caller.
    /// More than is held is refused with `Underflow` and the balance left as it
    /// was.
    pub fn withdraw_tokens(&mut self, is_x: bool, amount: u64) -> (r: Result<(), AmmError>)
        ensures
            match r {
                Ok(_) => {
                    &&& amount <= old(self).vault(is_x)
                    &&& *final(self) == old(self).with_vault(is_x, (old(self).vault(is_x) - amount) as u64)
                },
                Err(e) => {
                    &&& amount > old(self).vault(is_x)
                    &&& e == AmmError::Underflow
                    &&& *final(self) == *old(self)
                },
            },
    {
        if is_x {
            match self.vault_x.checked_sub(amount) {
                Some(balance) => {
                    self.vault_x = balance;
                    Ok(())
                },
                None => Err(AmmError::Underflow),
            }
        } else {
            match self.vault_y.checked_sub(amount) {
                Some(balance) => {
                    self.vault_y = balance;
                    Ok(())
                },
                None => Err(AmmError::Underflow),
            }
        }
    }
}

/// A swap that goes through pays out what the curve gives for the whole amount
/// paid in, no more than is held and no less than the caller's floor, and
/// settles into balances whose product is the old product plus the fee's gain
/// less the rounding loss.
pub proof fn lemma_swap_settles_on_curve(pool: Swap, is_x: bool, amount: u64, min: u64)
    ensures
        pool.swap_outcome(is_x, amount, min) matches Ok(moved) ==> {
            let after = pool.settled(is_x, moved);
            let (reserve_in, reserve_out) = (pool.vault(is_x) as int, pool.vault(!is_x) as int);
            let fee = pool.config.fee as int;
            &&& moved.deposit == amount
            &&& moved.withdraw == swap_amount_out(reserve_in, reserve_out, amount as int, fee)
            &&& min <= moved.withdraw <= reserve_out
            &&& after.config == pool.config
            &&& after.vault(is_x) == reserve_in + amount
            &&& after.vault(!is_x) == reserve_out - moved.withdraw
            &&& after.product() == product_after_swap(reserve_in, reserve_out, amount as int, fee)
            &&& after.product() == pool.product() + fee_gain(reserve_in, reserve_out, amount as int, fee)
                - rounding_loss(reserve_in, reserve_out, amount as int, fee)
        },
{
    if let Ok(moved) = pool.swap_outcome(is_x, amount, min) {
        let (reserve_in, reserve_out) = (pool.vault(is_x) as int, pool.vault(!is_x) as int);
        let fee = pool.config.fee as int;
        lemma_amount_after_fee_bounds(amount as int, fee);
        lemma_reserve_out_after_bounds(reserve_in, reserve_out, amount_after_fee(amount as int, fee));
        lemma_swap_product_change(reserve_in, reserve_out, amount as int, fee);
        let after = pool.settled(is_x, moved);
        lemma_mul_is_commutative(after.vault_x as int, after.vault_y as int);
        lemma_mul_is_commutative(pool.vault_x as int, pool.vault_y as int);
    }
}

/// A lock on the pool does not hold up a swap: the outcome is the same with
/// the flag set and without.
pub proof fn lemma_swap_ignores_lock(pool: Swap, locked: bool, is_x: bool, amount: u64, min: u64)
    ensures
        (Swap { config: Config { locked, ..pool.config }, ..pool }).swap_outcome(is_x, amount, min)
            == pool.swap_outcome(is_x, amount, min),
{
}

} // verus!
