//! The record that is kept of one pool, and the identities named in it.

use vstd::prelude::*;
use vstd::std_specs::cmp::PartialEqSpecImpl;
use crate::curve::BPS_DENOMINATOR;
use crate::error::AmmError;

verus! {

/// The identity of a party or of an asset: 32 opaque bytes.
#[derive(Clone, Copy, Debug)]
pub struct Pubkey {
    pub bytes: [u8; 32],
}

impl PartialEq for Pubkey {
    fn eq(&self, other: &Self) -> (same: bool) {
        let mut i: usize = 0;
        while i < 32
            invariant
                i <= 32,
                forall|j: int| 0 <= j < i ==> self.bytes[j] == other.bytes[j],
            decreases 32 - i,
        {
            if self.bytes[i] != other.bytes[i] {
                return false;
            }
            i += 1;
        }
        assert(self.bytes =~= other.bytes);
        true
    }
}

impl Eq for Pubkey {

}

impl PartialEqSpecImpl for Pubkey {
    open spec fn obeys_eq_spec() -> bool {
        true
    }

    open spec fn eq_spec(&self, other: &Self) -> bool {
        *self == *other
    }
}

/// The parameters and flags of one pool.
///
/// Only `locked` ever changes once the record has been made.
#[derive(Clone, Copy, Debug, PartialEq, Eq)]
pub struct Config {
    /// Tells apart several pools over the same pair of assets.
    pub seed: u64,
    /// Who may lock and unlock the pool; with `None`, nobody ever may.
    pub authority: Option<Pubkey>,
    pub mint_x: Pubkey,
    pub mint_y: Pubkey,
    /// The fee on swaps, in basis points.
    pub fee: u16,
    /// While set, deposits are turned down.
    pub locked: bool,
    pub config_bump: u8,
    pub lp_bump: u8,
}

impl Config {
    /// The fee rate is a proper fraction of the amount paid in.
    pub open spec fn wf(&self) -> bool {
        self.fee < BPS_DENOMINATOR
    }

    /// The record of a new pool, which starts unlocked. A fee rate that is not
    /// below the whole is refused with `InvalidFee`.
    pub fn new(
        seed: u64,
        authority: Option<Pubkey>,
        mint_x: Pubkey,
        mint_y: Pubkey,
        fee: u16,
        config_bump: u8,
        lp_bump: u8,
    ) -> (r: Result<Config, AmmError>)
        ensures
            fee >= BPS_DENOMINATOR ==> r == Err::<Config, AmmError>(AmmError::InvalidFee),
            fee < BPS_DENOMINATOR ==> r == Ok::<Config, AmmError>(
                (Config { seed, authority, mint_x, mint_y, fee, locked: false, config_bump, lp_bump }),
            ),
            r matches Ok(config) ==> config.wf(),
    {
        if fee as u64 >= BPS_DENOMINATOR {
            return Err(AmmError::InvalidFee);
        }
        Ok(Config { seed, authority, mint_x, mint_y, fee, locked: false, config_bump, lp_bump })
    }
}

} // verus!
