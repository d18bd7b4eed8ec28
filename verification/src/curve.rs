//! The constant-product curve: how much of each asset a deposit takes in and
//! how much a swap pays out, in exact integer arithmetic.
//!
//! Every quantity is a 64-bit balance. Products are formed in 128 bits, where
//! they cannot overflow, and a result that does not fit a balance again is
//! reported as an error instead of being cut down.

use vstd::prelude::*;
use vstd::arithmetic::div_mod::{
    lemma_div_is_ordered,
    lemma_div_is_ordered_by_denominator,
    lemma_div_by_multiple,
    lemma_div_pos_is_pos,
    lemma_fundamental_div_mod,
    lemma_mod_bound,
};
use vstd::arithmetic::mul::{
    lemma_mul_inequality,
    lemma_mul_is_commutative,
    lemma_mul_is_distributive_add_other_way,
    lemma_mul_nonnegative,
    lemma_mul_upper_bound,
};
use crate::error::AmmError;

verus! {

/// Fee rates are counted in ten-thousandths of the amount paid in.
pub const BPS_DENOMINATOR: u64 = 10_000;

/// The amounts of the two assets that a deposit moves into the pool.
#[derive(Clone, Copy, Debug, PartialEq, Eq, Structural)]
pub struct XYAmounts {
    pub x: u64,
    pub y: u64,
}

/// `n / d` rounded up to the next integer, for a positive `d`.
pub open spec fn ceil_div(n: int, d: int) -> int {
    (n + d - 1) / d
}

/// What a depositor owes of one asset for `desired_lp` new claim units, when
/// `lp_supply` units stand against `reserve` of that asset: the proportional
/// share, rounded up.
pub open spec fn deposit_share(reserve: int, lp_supply: int, desired_lp: int) -> int {
    ceil_div(desired_lp * reserve, lp_supply)
}

/// The part of `amount_in` that is priced after the fee has been taken off,
/// rounded down.
pub open spec fn amount_after_fee(amount_in: int, fee_bps: int) -> int {
    amount_in * (BPS_DENOMINATOR - fee_bps) / (BPS_DENOMINATOR as int)
}

/// The reserve of the asset paid out that is left once `net_in` has been priced
/// against the product of the two reserves, rounded down.
pub open spec fn reserve_out_after(reserve_in: int, reserve_out: int, net_in: int) -> int {
    (reserve_in * reserve_out) / (reserve_in + net_in)
}

/// What a swap of `amount_in` pays out at fee rate `fee_bps`.
pub open spec fn swap_amount_out(reserve_in: int, reserve_out: int, amount_in: int, fee_bps: int) -> int {
    reserve_out - reserve_out_after(reserve_in, reserve_out, amount_after_fee(amount_in, fee_bps))
}

/// A pool can price a deposit only while claim units are outstanding and both
/// reserves are held.
pub open spec fn is_funded(reserve_x: u64, reserve_y: u64, lp_supply: u64) -> bool {
    lp_supply > 0 && reserve_x > 0 && reserve_y > 0
}

/// The outcome of `deposit_amounts` on every input.
pub open spec fn deposit_amounts_outcome(
    reserve_x: u64,
    reserve_y: u64,
    lp_supply: u64,
    desired_lp: u64,
) -> Result<XYAmounts, AmmError> {
    let x = deposit_share(reserve_x as int, lp_supply as int, desired_lp as int);
    let y = deposit_share(reserve_y as int, lp_supply as int, desired_lp as int);
    if !is_funded(reserve_x, reserve_y, lp_supply) {
        Err(AmmError::CurveError)
    } else if x > u64::MAX || y > u64::MAX {
        Err(AmmError::Overflow)
    } else {
        Ok(XYAmounts { x: x as u64, y: y as u64 })
    }
}

/// The outcome of `swap_output` on every input.
pub open spec fn swap_output_outcome(
    reserve_in: u64,
    reserve_out: u64,
    amount_in: u64,
    fee_bps: u16,
) -> Result<u64, AmmError> {
    if reserve_in == 0 || reserve_out == 0 {
        Err(AmmError::NoLiquidityInPool)
    } else if fee_bps > BPS_DENOMINATOR {
        Err(AmmError::Underflow)
    } else if reserve_in + amount_after_fee(amount_in as int, fee_bps as int) > u64::MAX {
        Err(AmmError::Overflow)
    } else {
        Ok(swap_amount_out(reserve_in as int, reserve_out as int, amount_in as int, fee_bps as int) as u64)
    }
}

/// `ceil_div(n, d)` is the least integer whose product with `d` reaches `n`.
pub proof fn lemma_ceil_div_is_least(n: int, d: int)
    requires
        d > 0,
    ensures
        n <= ceil_div(n, d) * d < n + d,
        forall|q: int| n <= #[trigger] (q * d) ==> ceil_div(n, d) <= q,
{
    let c = ceil_div(n, d);
    lemma_fundamental_div_mod(n + d - 1, d);
    lemma_mod_bound(n + d - 1, d);
    lemma_mul_is_commutative(d, c);
    assert forall|q: int| n <= #[trigger] (q * d) implies c <= q by {
        if q < c {
            lemma_mul_inequality(q, c - 1, d);
            lemma_mul_is_distributive_add_other_way(d, c - 1, 1);
        }
    }
}

/// The product of two balances fits 128 bits, with room for one more balance.
pub proof fn lemma_balance_product_bound(a: u64, b: u64)
    ensures
        0 <= a * b <= u64::MAX * u64::MAX,
        a * b + u64::MAX <= u128::MAX,
{
    lemma_mul_nonnegative(a as int, b as int);
    lemma_mul_upper_bound(a as int, u64::MAX as int, b as int, u64::MAX as int);
    assert(u64::MAX * u64::MAX + u64::MAX <= u128::MAX);
}

fn ceil_div_u128(n: u128, d: u128) -> (q: u128)
    requires
        d > 0,
        n + d - 1 <= u128::MAX,
    ensures
        q == ceil_div(n as int, d as int),
{
    (n + (d - 1)) / d
}

/// The amounts of X and Y owed for `desired_lp` new claim units of a pool that
/// holds `reserve_x` and `reserve_y` against `lp_supply` outstanding units.
///
/// Each amount is the proportional share of its reserve, rounded up, so that a
/// deposit never dilutes the units that are already out. A pool with no units
/// out or with an empty reserve has no ratio to go by and is refused with
/// `CurveError`; a share too large for a balance is refused with `Overflow`.
pub fn deposit_amounts(
    reserve_x: u64,
    reserve_y: u64,
    lp_supply: u64,
    desired_lp: u64,
) -> (r: Result<XYAmounts, AmmError>)
    ensures
        r == deposit_amounts_outcome(reserve_x, reserve_y, lp_supply, desired_lp),
{
    if lp_supply == 0 || reserve_x == 0 || reserve_y == 0 {
        return Err(AmmError::CurveError);
    }
    proof {
        lemma_balance_product_bound(desired_lp, reserve_x);
        lemma_balance_product_bound(desired_lp, reserve_y);
    }
    let x: u128 = ceil_div_u128((desired_lp as u128) * (reserve_x as u128), lp_supply as u128);
    let y: u128 = ceil_div_u128((desired_lp as u128) * (reserve_y as u128), lp_supply as u128);
    if x > u64::MAX as u128 || y > u64::MAX as u128 {
        return Err(AmmError::Overflow);
    }
    Ok(XYAmounts { x: x as u64, y: y as u64 })
}

/// The fee leaves at most the amount paid in, and all of it at a rate of zero.
pub proof fn lemma_amount_after_fee_bounds(amount_in: int, fee_bps: int)
    requires
        0 <= amount_in,
        0 <= fee_bps <= BPS_DENOMINATOR,
    ensures
        0 <= amount_after_fee(amount_in, fee_bps) <= amount_in,
        fee_bps == 0 ==> amount_after_fee(amount_in, fee_bps) == amount_in,
{
    let keep = BPS_DENOMINATOR - fee_bps;
    let denom = BPS_DENOMINATOR as int;
    lemma_mul_nonnegative(amount_in, keep);
    lemma_mul_inequality(keep, denom, amount_in);
    lemma_mul_is_commutative(amount_in, keep);
    lemma_mul_is_commutative(amount_in, denom);
    lemma_div_pos_is_pos(amount_in * keep, denom);
    lemma_div_is_ordered(amount_in * keep, amount_in * denom, denom);
    lemma_div_by_multiple(amount_in, denom);
}

/// Pricing against the product leaves a reserve between nothing and what was
/// there, so the amount paid out is a balance no larger than the reserve.
pub proof fn lemma_reserve_out_after_bounds(reserve_in: int, reserve_out: int, net_in: int)
    requires
        0 < reserve_in,
        0 <= reserve_out,
        0 <= net_in,
    ensures
        0 <= reserve_out_after(reserve_in, reserve_out, net_in) <= reserve_out,
        net_in == 0 ==> reserve_out_after(reserve_in, reserve_out, net_in) == reserve_out,
{
    let k = reserve_in * reserve_out;
    lemma_mul_nonnegative(reserve_in, reserve_out);
    lemma_div_pos_is_pos(k, reserve_in + net_in);
    lemma_div_is_ordered_by_denominator(k, reserve_in, reserve_in + net_in);
    lemma_mul_is_commutative(reserve_in, reserve_out);
    lemma_div_by_multiple(reserve_out, reserve_in);
}

/// What a swap of `amount_in` pays out of `reserve_out`, priced against
/// `reserve_in` at fee rate `fee_bps`.
///
/// The fee is taken off the amount paid in, rounded down; the rest is added to
/// `reserve_in`, the product of the two reserves is divided by that sum, rounded
/// down, and what this leaves of `reserve_out` is paid out. An empty reserve is
/// refused with `NoLiquidityInPool`, a fee rate above the whole with
/// `Underflow`, and a sum that no balance can hold with `Overflow`.
pub fn swap_output(reserve_in: u64, reserve_out: u64, amount_in: u64, fee_bps: u16) -> (r: Result<u64, AmmError>)
    ensures
        r == swap_output_outcome(reserve_in, reserve_out, amount_in, fee_bps),
        r matches Ok(amount_out) ==> amount_out <= reserve_out,
{
    if reserve_in == 0 || reserve_out == 0 {
        return Err(AmmError::NoLiquidityInPool);
    }
    if fee_bps as u64 > BPS_DENOMINATOR {
        return Err(AmmError::Underflow);
    }
    let keep: u64 = BPS_DENOMINATOR - fee_bps as u64;
    proof {
        lemma_balance_product_bound(amount_in, keep);
        lemma_balance_product_bound(reserve_in, reserve_out);
        lemma_amount_after_fee_bounds(amount_in as int, fee_bps as int);
    }
    let net_in: u128 = (amount_in as u128) * (keep as u128) / (BPS_DENOMINATOR as u128);
    let new_in: u128 = reserve_in as u128 + net_in;
    if new_in > u64::MAX as u128 {
        return Err(AmmError::Overflow);
    }
    proof {
        lemma_reserve_out_after_bounds(reserve_in as int, reserve_out as int, net_in as int);
    }
    let new_out: u128 = (reserve_in as u128) * (reserve_out as u128) / new_in;
    Ok(reserve_out - new_out as u64)
}

/// Both amounts of a deposit follow one ratio, that of the new claim units to
/// the units already out: each is the exact share of its reserve, rounded up
/// by less than one unit. Taken crosswise, the two amounts stand to each other
/// as the two reserves do, to within one unit of either.
pub proof fn lemma_deposit_amounts_proportional(reserve_x: u64, reserve_y: u64, lp_supply: u64, desired_lp: u64)
    ensures
        deposit_amounts_outcome(reserve_x, reserve_y, lp_supply, desired_lp) matches Ok(amounts) ==> {
            &&& desired_lp * reserve_x <= amounts.x * lp_supply < desired_lp * reserve_x + lp_supply
            &&& desired_lp * reserve_y <= amounts.y * lp_supply < desired_lp * reserve_y + lp_supply
            &&& (amounts.x - 1) * reserve_y < amounts.y * reserve_x
            &&& (amounts.y - 1) * reserve_x < amounts.x * reserve_y
        },
{
    if let Ok(amounts) = deposit_amounts_outcome(reserve_x, reserve_y, lp_supply, desired_lp) {
        let (x, y, l, d) = (reserve_x as int, reserve_y as int, lp_supply as int, desired_lp as int);
        let (ax, ay) = (amounts.x as int, amounts.y as int);
        lemma_ceil_div_is_least(d * x, l);
        lemma_ceil_div_is_least(d * y, l);
        assert((ax - 1) * y < ay * x) by (nonlinear_arith)
            requires
                ax * l < d * x + l,
                d * y <= ay * l,
                x > 0,
                y > 0,
                l > 0,
        ;
        assert((ay - 1) * x < ax * y) by (nonlinear_arith)
            requires
                ay * l < d * y + l,
                d * x <= ax * l,
                x > 0,
                y > 0,
                l > 0,
        ;
    }
}

/// A larger amount paid in is never paid out less, the reserves and the fee
/// rate being the same.
pub proof fn lemma_swap_amount_out_monotonic(
    reserve_in: int,
    reserve_out: int,
    smaller_in: int,
    larger_in: int,
    fee_bps: int,
)
    requires
        0 < reserve_in,
        0 <= reserve_out,
        0 <= smaller_in <= larger_in,
        0 <= fee_bps <= BPS_DENOMINATOR,
    ensures
        amount_after_fee(smaller_in, fee_bps) <= amount_after_fee(larger_in, fee_bps),
        swap_amount_out(reserve_in, reserve_out, smaller_in, fee_bps) <= swap_amount_out(
            reserve_in,
            reserve_out,
            larger_in,
            fee_bps,
        ),
{
    let keep = BPS_DENOMINATOR - fee_bps;
    let denom = BPS_DENOMINATOR as int;
    lemma_mul_inequality(smaller_in, larger_in, keep);
    lemma_div_is_ordered(smaller_in * keep, larger_in * keep, denom);
    lemma_amount_after_fee_bounds(smaller_in, fee_bps);
    let net_small = amount_after_fee(smaller_in, fee_bps);
    let net_large = amount_after_fee(larger_in, fee_bps);
    lemma_mul_nonnegative(reserve_in, reserve_out);
    lemma_div_is_ordered_by_denominator(reserve_in * reserve_out, reserve_in + net_small, reserve_in + net_large);
}

/// Whenever a swap of the larger amount goes through, so does a swap of the
/// smaller one, and it pays out no more.
pub proof fn lemma_swap_output_monotonic(
    reserve_in: u64,
    reserve_out: u64,
    smaller_in: u64,
    larger_in: u64,
    fee_bps: u16,
)
    requires
        smaller_in <= larger_in,
    ensures
        swap_output_outcome(reserve_in, reserve_out, larger_in, fee_bps) matches Ok(larger_out)
            ==> swap_output_outcome(reserve_in, reserve_out, smaller_in, fee_bps) matches Ok(smaller_out)
            && smaller_out <= larger_out,
{
    if swap_output_outcome(reserve_in, reserve_out, larger_in, fee_bps) is Ok {
        lemma_swap_amount_out_monotonic(
            reserve_in as int,
            reserve_out as int,
            smaller_in as int,
            larger_in as int,
            fee_bps as int,
        );
        lemma_amount_after_fee_bounds(smaller_in as int, fee_bps as int);
        lemma_amount_after_fee_bounds(larger_in as int, fee_bps as int);
        lemma_reserve_out_after_bounds(
            reserve_in as int,
            reserve_out as int,
            amount_after_fee(smaller_in as int, fee_bps as int),
        );
        lemma_reserve_out_after_bounds(
            reserve_in as int,
            reserve_out as int,
            amount_after_fee(larger_in as int, fee_bps as int),
        );
    }
}

/// The product of the two reserves once a swap has been settled: the whole
/// amount paid in has joined one reserve and the amount paid out has left the
/// other.
pub open spec fn product_after_swap(reserve_in: int, reserve_out: int, amount_in: int, fee_bps: int) -> int {
    (reserve_in + amount_in) * (reserve_out - swap_amount_out(reserve_in, reserve_out, amount_in, fee_bps))
}

/// What the fee adds to the product: the part of the amount paid in that was
/// not priced, multiplied by the reserve that the swap leaves on the other side.
pub open spec fn fee_gain(reserve_in: int, reserve_out: int, amount_in: int, fee_bps: int) -> int {
    let net_in = amount_after_fee(amount_in, fee_bps);
    (amount_in - net_in) * reserve_out_after(reserve_in, reserve_out, net_in)
}

/// What rounding takes from the product: the remainder left when the product
/// is divided by the reserve that the priced amount has joined.
pub open spec fn rounding_loss(reserve_in: int, reserve_out: int, amount_in: int, fee_bps: int) -> int {
    (reserve_in * reserve_out) % (reserve_in + amount_after_fee(amount_in, fee_bps))
}

/// A swap changes the product of the reserves by exactly the fee's gain less
/// the rounding loss. The loss is smaller than the reserve that the priced
/// amount has joined, so the product never falls by that much; it grows exactly
/// when the gain exceeds the loss and stays exactly when the two are equal.
pub proof fn lemma_swap_product_change(reserve_in: int, reserve_out: int, amount_in: int, fee_bps: int)
    requires
        0 < reserve_in,
        0 <= reserve_out,
        0 <= amount_in,
        0 <= fee_bps <= BPS_DENOMINATOR,
    ensures
        product_after_swap(reserve_in, reserve_out, amount_in, fee_bps) == reserve_in * reserve_out + fee_gain(
            reserve_in,
            reserve_out,
            amount_in,
            fee_bps,
        ) - rounding_loss(reserve_in, reserve_out, amount_in, fee_bps),
        0 <= fee_gain(reserve_in, reserve_out, amount_in, fee_bps),
        0 <= rounding_loss(reserve_in, reserve_out, amount_in, fee_bps) < reserve_in + amount_after_fee(
            amount_in,
            fee_bps,
        ),
{
    let net_in = amount_after_fee(amount_in, fee_bps);
    let k = reserve_in * reserve_out;
    let joined = reserve_in + net_in;
    let left = reserve_out_after(reserve_in, reserve_out, net_in);
    lemma_amount_after_fee_bounds(amount_in, fee_bps);
    lemma_reserve_out_after_bounds(reserve_in, reserve_out, net_in);
    lemma_fundamental_div_mod(k, joined);
    lemma_mod_bound(k, joined);
    lemma_mul_nonnegative(amount_in - net_in, left);
    lemma_mul_is_distributive_add_other_way(left, joined, amount_in - net_in);
}

/// With a fee, a swap leaves the product of the reserves strictly larger,
/// provided the fee's gain outweighs what rounding the paid-out reserve down
/// has cost.
pub proof fn lemma_swap_with_fee_grows_product(reserve_in: int, reserve_out: int, amount_in: int, fee_bps: int)
    requires
        0 < reserve_in,
        0 <= reserve_out,
        0 <= amount_in,
        0 < fee_bps <= BPS_DENOMINATOR,
        rounding_loss(reserve_in, reserve_out, amount_in, fee_bps) < fee_gain(
            reserve_in,
            reserve_out,
            amount_in,
            fee_bps,
        ),
    ensures
        product_after_swap(reserve_in, reserve_out, amount_in, fee_bps) > reserve_in * reserve_out,
{
    lemma_swap_product_change(reserve_in, reserve_out, amount_in, fee_bps);
}

/// Without a fee, a swap leaves the product of the reserves exactly as it was,
/// provided the product divides evenly by the reserve that the amount paid in
/// has joined.
pub proof fn lemma_swap_without_fee_keeps_product(reserve_in: int, reserve_out: int, amount_in: int)
    requires
        0 < reserve_in,
        0 <= reserve_out,
        0 <= amount_in,
        (reserve_in * reserve_out) % (reserve_in + amount_in) == 0,
    ensures
        product_after_swap(reserve_in, reserve_out, amount_in, 0) == reserve_in * reserve_out,
{
    lemma_amount_after_fee_bounds(amount_in, 0);
    lemma_swap_product_change(reserve_in, reserve_out, amount_in, 0);
}

} // verus!
