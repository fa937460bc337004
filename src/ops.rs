use vstd::prelude::*;

use crate::error::AmmError;
use crate::math::{fee_adjusted, lemma_swap_product_grows, quote, quote_defined, swap_quote};
use crate::pool::Pool;

verus! {

/// The settled amounts of a swap and the pool it leaves behind.
#[derive(Clone, Copy, Debug, PartialEq, Eq)]
pub struct SwapOutcome {
    /// What the trader pays into the pool.
    pub amount_in: u64,
    /// What the pool pays out to the trader.
    pub amount_out: u64,
    /// The pool after both legs are settled.
    pub pool: Pool,
}

/// The reserves of the sold and the bought asset, in that order.
pub open spec fn reserves_in_out(pool: Pool, a_to_b: bool) -> (u128, u128) {
    if a_to_b {
        (pool.token_a_amount, pool.token_b_amount)
    } else {
        (pool.token_b_amount, pool.token_a_amount)
    }
}

/// `pool` with new reserves of the sold and the bought asset and their
/// product.
pub open spec fn with_reserves(pool: Pool, a_to_b: bool, new_in: u128, new_out: u128) -> Pool {
    if a_to_b {
        Pool { token_a_amount: new_in, token_b_amount: new_out, k: (new_in * new_out) as u128, ..pool }
    } else {
        Pool { token_a_amount: new_out, token_b_amount: new_in, k: (new_in * new_out) as u128, ..pool }
    }
}

/// The result of a swap of `amount_in` on `pool`, checks in order: a zero
/// input, the fee product, the transfer width of the input, the quote, the
/// liquidity bounds, the transfer width of the output, then the new reserves
/// and their product.
pub open spec fn swap_result(pool: Pool, a_to_b: bool, amount_in: u128) -> Result<SwapOutcome, AmmError> {
    let (r_in, r_out) = reserves_in_out(pool, a_to_b);
    let out = quote(amount_in as int, r_in as int, r_out as int);
    if amount_in == 0 {
        Err(AmmError::InvalidAmount)
    } else if amount_in * 997 > u128::MAX {
        Err(AmmError::ArithmeticOverflow)
    } else if amount_in > u64::MAX {
        Err(AmmError::AmountTooLarge)
    } else if !quote_defined(amount_in as int, r_in as int, r_out as int) {
        Err(AmmError::ArithmeticOverflow)
    } else if out == 0 || out > r_out {
        Err(AmmError::InsufficientLiquidity)
    } else if out > u64::MAX {
        Err(AmmError::AmountTooLarge)
    } else if r_in + amount_in > u128::MAX {
        Err(AmmError::ArithmeticOverflow)
    } else if (r_in + amount_in) * (r_out - out) > u128::MAX {
        Err(AmmError::ArithmeticOverflow)
    } else {
        Ok(
            SwapOutcome {
                amount_in: amount_in as u64,
                amount_out: out as u64,
                pool: with_reserves(pool, a_to_b, (r_in + amount_in) as u128, (r_out - out) as u128),
            },
        )
    }
}

/// The result of depositing `amount_a` and `amount_b` into `pool`.
pub open spec fn deposit_result(pool: Pool, amount_a: u128, amount_b: u128) -> Result<Pool, AmmError> {
    let a = pool.token_a_amount + amount_a;
    let b = pool.token_b_amount + amount_b;
    if amount_a == 0 || amount_b == 0 {
        Err(AmmError::InvalidAmount)
    } else if amount_a > u64::MAX || amount_b > u64::MAX {
        Err(AmmError::AmountTooLarge)
    } else if a > u128::MAX || b > u128::MAX || a * b > u128::MAX {
        Err(AmmError::ArithmeticOverflow)
    } else {
        Ok(Pool { token_a_amount: a as u128, token_b_amount: b as u128, k: (a * b) as u128, ..pool })
    }
}

impl Pool {
    /// A freshly initialized pool for the two assets: empty reserves and a
    /// zero product.
    pub fn initialized(token_a_mint: [u8; 32], token_b_mint: [u8; 32]) -> (r: Pool)
        ensures
            r.is_initialized,
            r.token_a_mint == token_a_mint,
            r.token_b_mint == token_b_mint,
            r.token_a_amount == 0,
            r.token_b_amount == 0,
            r.k == 0,
    {
        Pool {
            is_initialized: true,
            token_a_mint,
            token_b_mint,
            token_a_amount: 0,
            token_b_amount: 0,
            k: 0,
        }
    }

    /// Deposits both amounts into the reserves and recomputes the product.
    pub fn add_liquidity(&self, amount_a: u128, amount_b: u128) -> (r: Result<Pool, AmmError>)
        ensures
            r == deposit_result(*self, amount_a, amount_b),
            r matches Ok(p) ==> {
                &&& p.token_a_amount == self.token_a_amount + amount_a
                &&& p.token_b_amount == self.token_b_amount + amount_b
                &&& p.k == p.token_a_amount * p.token_b_amount
            },
            amount_a == 0 || amount_b == 0 ==> r == Err::<Pool, AmmError>(AmmError::InvalidAmount),
    {
        if amount_a == 0 || amount_b == 0 {
            return Err(AmmError::InvalidAmount);
        }
        if amount_a > u64::MAX as u128 || amount_b > u64::MAX as u128 {
            return Err(AmmError::AmountTooLarge);
        }
        let a = match self.token_a_amount.checked_add(amount_a) {
            Some(v) => v,
            None => return Err(AmmError::ArithmeticOverflow),
        };
        let b = match self.token_b_amount.checked_add(amount_b) {
            Some(v) => v,
            None => return Err(AmmError::ArithmeticOverflow),
        };
        let k = match a.checked_mul(b) {
            Some(v) => v,
            None => return Err(AmmError::ArithmeticOverflow),
        };
        Ok(Pool { token_a_amount: a, token_b_amount: b, k, ..*self })
    }

    /// Sells `amount_in` of one asset (asset A when `a_to_b`) for the quoted
    /// amount of the other, and settles the new reserves.
    pub fn swap(&self, a_to_b: bool, amount_in: u128) -> (r: Result<SwapOutcome, AmmError>)
        ensures
            r == swap_result(*self, a_to_b, amount_in),
            r matches Ok(o) ==> {
                let (r_in, r_out) = reserves_in_out(*self, a_to_b);
                &&& o.amount_in == amount_in
                &&& o.amount_out == quote(amount_in as int, r_in as int, r_out as int)
                &&& o.pool == with_reserves(*self, a_to_b, (r_in + amount_in) as u128, (r_out - o.amount_out) as u128)
                &&& o.pool.k == o.pool.token_a_amount * o.pool.token_b_amount
                &&& o.pool.k >= self.token_a_amount * self.token_b_amount
                &&& self.k == self.token_a_amount * self.token_b_amount ==> o.pool.k >= self.k
            },
            amount_in == 0 ==> r == Err::<SwapOutcome, AmmError>(AmmError::InvalidAmount),
            ({
                let (r_in, r_out) = reserves_in_out(*self, a_to_b);
                &&& amount_in != 0
                &&& amount_in <= u64::MAX
                &&& r_in + fee_adjusted(amount_in as int) > u128::MAX
            }) ==> r == Err::<SwapOutcome, AmmError>(AmmError::ArithmeticOverflow),
    {
        let (reserve_in, reserve_out) = if a_to_b {
            (self.token_a_amount, self.token_b_amount)
        } else {
            (self.token_b_amount, self.token_a_amount)
        };
        if amount_in == 0 {
            return Err(AmmError::InvalidAmount);
        }
        if amount_in.checked_mul(997).is_none() {
            return Err(AmmError::ArithmeticOverflow);
        }
        if amount_in > u64::MAX as u128 {
            return Err(AmmError::AmountTooLarge);
        }
        let out = match swap_quote(amount_in, reserve_in, reserve_out) {
            Ok(v) => v,
            Err(e) => return Err(e),
        };
        if out == 0 || out > reserve_out {
            return Err(AmmError::InsufficientLiquidity);
        }
        if out > u64::MAX as u128 {
            return Err(AmmError::AmountTooLarge);
        }
        let new_in = match reserve_in.checked_add(amount_in) {
            Some(v) => v,
            None => return Err(AmmError::ArithmeticOverflow),
        };
        let new_out = match reserve_out.checked_sub(out) {
            Some(v) => v,
            None => return Err(AmmError::ArithmeticOverflow),
        };
        let k = match new_in.checked_mul(new_out) {
            Some(v) => v,
            None => return Err(AmmError::ArithmeticOverflow),
        };
        proof {
            lemma_swap_product_grows(amount_in as int, reserve_in as int, reserve_out as int);
            assert(reserve_in * reserve_out == self.token_a_amount * self.token_b_amount) by (nonlinear_arith)
                requires
                    (a_to_b && reserve_in == self.token_a_amount && reserve_out == self.token_b_amount)
                    || (!a_to_b && reserve_in == self.token_b_amount && reserve_out == self.token_a_amount),
            ;
            assert(new_in * new_out == new_out * new_in) by (nonlinear_arith);
        }
        let pool = if a_to_b {
            Pool { token_a_amount: new_in, token_b_amount: new_out, k, ..*self }
        } else {
            Pool { token_a_amount: new_out, token_b_amount: new_in, k, ..*self }
        };
        Ok(SwapOutcome { amount_in: amount_in as u64, amount_out: out as u64, pool })
    }
}

} // verus!
