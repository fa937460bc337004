use vstd::prelude::*;

use crate::error::AmmError;
use crate::pool::Pool;

verus! {

/// Fee numerator: the trader keeps 997 of every 1000 units paid in.
pub const FEE_NUMERATOR: u128 = 997;

/// Fee denominator.
pub const FEE_DENOMINATOR: u128 = 1000;

/// The input after the 0.3% fee, rounded down.
pub open spec fn fee_adjusted(amount_in: int) -> int {
    amount_in * 997 / 1000
}

/// The constant-product quote: what `amount_in` buys from a pool holding
/// `reserve_in` of the sold asset and `reserve_out` of the bought one.
pub open spec fn quote(amount_in: int, reserve_in: int, reserve_out: int) -> int {
    fee_adjusted(amount_in) * reserve_out / (reserve_in + fee_adjusted(amount_in))
}

/// Whether every step of the quote stays within 128 bits and divides by a
/// nonzero amount.
pub open spec fn quote_defined(amount_in: int, reserve_in: int, reserve_out: int) -> bool {
    &&& amount_in * 997 <= u128::MAX
    &&& fee_adjusted(amount_in) * reserve_out <= u128::MAX
    &&& reserve_in + fee_adjusted(amount_in) <= u128::MAX
    &&& reserve_in + fee_adjusted(amount_in) > 0
}

/// Computes the quote with checked arithmetic; fails with
/// `ArithmeticOverflow` exactly where a step would leave 128 bits or divide
/// by zero.
pub fn swap_quote(amount_in: u128, reserve_in: u128, reserve_out: u128) -> (r: Result<u128, AmmError>)
    ensures
        r is Ok <==> quote_defined(amount_in as int, reserve_in as int, reserve_out as int),
        r matches Ok(out) ==> out == quote(amount_in as int, reserve_in as int, reserve_out as int),
        r matches Err(e) ==> e == AmmError::ArithmeticOverflow,
        reserve_in + fee_adjusted(amount_in as int) > u128::MAX ==> r == Err::<u128, AmmError>(
            AmmError::ArithmeticOverflow,
        ),
{
    let scaled = match amount_in.checked_mul(FEE_NUMERATOR) {
        Some(v) => v,
        None => return Err(AmmError::ArithmeticOverflow),
    };
    let after_fee = scaled / FEE_DENOMINATOR;
    let numerator = match after_fee.checked_mul(reserve_out) {
        Some(v) => v,
        None => return Err(AmmError::ArithmeticOverflow),
    };
    let denominator = match reserve_in.checked_add(after_fee) {
        Some(v) => v,
        None => return Err(AmmError::ArithmeticOverflow),
    };
    match numerator.checked_div(denominator) {
        Some(v) => Ok(v),
        None => Err(AmmError::ArithmeticOverflow),
    }
}

/// The fee never adds to the input.
pub proof fn lemma_fee_adjusted_bounds(amount_in: int)
    requires
        amount_in >= 0,
    ensures
        0 <= fee_adjusted(amount_in) <= amount_in,
{
    assert(0 <= amount_in * 997 / 1000 <= amount_in) by (nonlinear_arith)
        requires
            amount_in >= 0,
    ;
}

/// The quote never exceeds the bought reserve.
pub proof fn lemma_quote_within_reserve(amount_in: int, reserve_in: int, reserve_out: int)
    requires
        amount_in >= 0,
        reserve_in >= 0,
        reserve_out >= 0,
        reserve_in + fee_adjusted(amount_in) > 0,
    ensures
        0 <= quote(amount_in, reserve_in, reserve_out) <= reserve_out,
{
    lemma_fee_adjusted_bounds(amount_in);
    let f = fee_adjusted(amount_in);
    let d = reserve_in + f;
    assert(0 <= f * reserve_out / d <= reserve_out) by (nonlinear_arith)
        requires
            0 <= f <= d,
            d > 0,
            reserve_out >= 0,
    ;
}

/// A swap that pays in `amount_in` and takes out the quote never lowers the
/// product of the reserves: the fee stays in the pool.
pub proof fn lemma_swap_product_grows(amount_in: int, reserve_in: int, reserve_out: int)
    requires
        amount_in >= 0,
        reserve_in >= 0,
        reserve_out >= 0,
        reserve_in + fee_adjusted(amount_in) > 0,
    ensures
        (reserve_in + amount_in) * (reserve_out - quote(amount_in, reserve_in, reserve_out))
            >= reserve_in * reserve_out,
{
    lemma_fee_adjusted_bounds(amount_in);
    lemma_quote_within_reserve(amount_in, reserve_in, reserve_out);
    let f = fee_adjusted(amount_in);
    let d = reserve_in + f;
    let out = quote(amount_in, reserve_in, reserve_out);
    assert(out * d <= f * reserve_out) by (nonlinear_arith)
        requires
            out == f * reserve_out / d,
            d > 0,
    ;
    assert(reserve_in * out <= f * (reserve_out - out)) by (nonlinear_arith)
        requires
            out * d <= f * reserve_out,
            d == reserve_in + f,
    ;
    assert(f * (reserve_out - out) <= amount_in * (reserve_out - out)) by (nonlinear_arith)
        requires
            0 <= f <= amount_in,
            out <= reserve_out,
    ;
    assert((reserve_in + amount_in) * (reserve_out - out) == reserve_in * reserve_out
        - reserve_in * out + amount_in * (reserve_out - out)) by (nonlinear_arith);
}

} // verus!
