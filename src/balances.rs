use vstd::prelude::*;

verus! {

/// Time, in seconds, that queued shares wait before they can be withdrawn (17 days).
pub const Q4W_LOCK_TIME: u64 = 1468800;

/// Fixed-point scale of the protocol's 7-decimal assets.
pub const SCALAR_7: i128 = 10000000;

/// Errors that abort a backstop call. `code` gives the stable numeric code.
#[derive(Clone, Copy, Debug, PartialEq, Eq, Structural)]
pub enum BackstopError {
    /// A caller-supplied amount was negative.
    NegativeAmount,
    /// An arithmetic result does not fit in 128 bits, or a share price is undefined.
    ArithmeticError,
    /// A donation from the pool itself or from the backstop contract.
    BadRequest,
    /// A queued entry had not matured when a withdrawal needed it.
    NotExpired,
    /// More was asked for than a balance holds.
    InsufficientFunds,
    /// A pool without a balance is not known to the pool factory.
    NotPool,
    /// A withdrawal whose shares are worth zero tokens.
    InvalidTokenWithdrawAmount,
}

pub open spec fn error_code(e: BackstopError) -> u32 {
    match e {
        BackstopError::NegativeAmount => 8,
        BackstopError::ArithmeticError => 12,
        BackstopError::BadRequest => 1000,
        BackstopError::NotExpired => 1001,
        BackstopError::InsufficientFunds => 1003,
        BackstopError::NotPool => 1004,
        BackstopError::InvalidTokenWithdrawAmount => 1006,
    }
}

impl BackstopError {
    /// The numeric code under which the error is reported to callers.
    pub fn code(&self) -> (r: u32)
        ensures
            r == error_code(*self),
    {
        match self {
            BackstopError::NegativeAmount => 8,
            BackstopError::ArithmeticError => 12,
            BackstopError::BadRequest => 1000,
            BackstopError::NotExpired => 1001,
            BackstopError::InsufficientFunds => 1003,
            BackstopError::NotPool => 1004,
            BackstopError::InvalidTokenWithdrawAmount => 1006,
        }
    }
}

/// One request to exit `amount` shares, withdrawable from timestamp `exp` on.
#[derive(Clone, Copy, Debug, PartialEq, Eq, Structural)]
pub struct Q4W {
    pub amount: i128,
    pub exp: u64,
}

/// A pool's totals: outstanding shares, tokens held for it, and shares queued to exit.
#[derive(Clone, Copy, Debug, PartialEq, Eq, Structural)]
pub struct PoolBalance {
    pub shares: i128,
    pub tokens: i128,
    pub q4w: i128,
}

pub open spec fn fits_i128(x: int) -> bool {
    i128::MIN <= x <= i128::MAX
}

/// `floor(x * y / z)` for a positive `z`.
pub open spec fn mul_div_floor(x: int, y: int, z: int) -> int {
    (x * y) / z
}

/// Shares that `tokens` buy at the pool's price: one for one while the pool
/// has no shares, else `floor(tokens * shares / pool tokens)`.
pub open spec fn shares_for(pool: PoolBalance, tokens: int) -> int {
    if pool.shares == 0 {
        tokens
    } else {
        mul_div_floor(tokens, pool.shares as int, pool.tokens as int)
    }
}

/// Tokens that `shares` redeem at the pool's price: one for one while the pool
/// has no shares, else `floor(shares * pool tokens / pool shares)`.
pub open spec fn tokens_for(pool: PoolBalance, shares: int) -> int {
    if pool.shares == 0 {
        shares
    } else {
        mul_div_floor(shares, pool.tokens as int, pool.shares as int)
    }
}

/// The conditions under which a conversion of `x` at the price `y / z` is computed:
/// non-negative operands, a positive divisor, and a product that fits in 128 bits.
pub open spec fn conversion_defined(x: int, y: int, z: int) -> bool {
    x >= 0 && y >= 0 && z > 0 && fits_i128(x * y)
}

/// `floor(x * y / z)` for non-negative `x`, `y` and positive `z`; `None` where
/// the product does not fit in 128 bits.
fn checked_mul_div_floor(x: i128, y: i128, z: i128) -> (r: Option<i128>)
    requires
        x >= 0,
        y >= 0,
        z > 0,
    ensures
        r == (if fits_i128(x * y) {
            Some(mul_div_floor(x as int, y as int, z as int) as i128)
        } else {
            None::<i128>
        }),
        r matches Some(v) ==> 0 <= v <= x * y,
{
    match x.checked_mul(y) {
        Some(p) => {
            assert(p >= 0) by (nonlinear_arith)
                requires
                    p == x * y,
                    x >= 0,
                    y >= 0,
            ;
            let q = p / z;
            assert(0 <= q <= p) by (nonlinear_arith)
                requires
                    q == p / z,
                    p >= 0,
                    z > 0,
            ;
            Some(q)
        },
        None => None,
    }
}

impl PoolBalance {
    /// An empty pool balance.
    pub fn zero() -> (r: PoolBalance)
        ensures
            r == (PoolBalance { shares: 0, tokens: 0, q4w: 0 }),
    {
        PoolBalance { shares: 0, tokens: 0, q4w: 0 }
    }

    /// Shares minted for `tokens` at the current price. `None` where the price
    /// is undefined (shares but no tokens), an operand is negative, or the
    /// intermediate product overflows.
    pub fn convert_to_shares(&self, tokens: i128) -> (r: Option<i128>)
        ensures
            self.shares == 0 ==> r == Some(tokens),
            self.shares != 0 ==> (r is Some <==> conversion_defined(
                tokens as int,
                self.shares as int,
                self.tokens as int,
            )),
            r matches Some(v) ==> v == shares_for(*self, tokens as int),
    {
        if self.shares == 0 {
            return Some(tokens);
        }
        if tokens < 0 || self.shares < 0 || self.tokens <= 0 {
            return None;
        }
        checked_mul_div_floor(tokens, self.shares, self.tokens)
    }

    /// Tokens returned for `shares` at the current price. `None` where an
    /// operand is negative, the pool holds shares but no positive share count
    /// to divide by, or the intermediate product overflows.
    pub fn convert_to_tokens(&self, shares: i128) -> (r: Option<i128>)
        ensures
            self.shares == 0 ==> r == Some(shares),
            self.shares != 0 ==> (r is Some <==> conversion_defined(
                shares as int,
                self.tokens as int,
                self.shares as int,
            )),
            r matches Some(v) ==> v == tokens_for(*self, shares as int),
    {
        if self.shares == 0 {
            return Some(shares);
        }
        if shares < 0 || self.tokens < 0 || self.shares <= 0 {
            return None;
        }
        checked_mul_div_floor(shares, self.tokens, self.shares)
    }
}

impl PoolBalance {
    /// Adds `tokens` and `shares` to the pool; the caller vouches for their sign.
    /// Fails with `ArithmeticError`, leaving the pool as it was, where a sum overflows.
    pub fn deposit(&mut self, tokens: i128, shares: i128) -> (r: Result<(), BackstopError>)
        ensures
            r is Ok <==> fits_i128(old(self).tokens + tokens) && fits_i128(old(self).shares + shares),
            r is Err ==> r == Err::<(), BackstopError>(BackstopError::ArithmeticError)
                && *final(self) == *old(self),
            r is Ok ==> *final(self) == (PoolBalance {
                shares: (old(self).shares + shares) as i128,
                tokens: (old(self).tokens + tokens) as i128,
                q4w: old(self).q4w,
            }),
    {
        let t = match self.tokens.checked_add(tokens) {
            Some(t) => t,
            None => return Err(BackstopError::ArithmeticError),
        };
        let s = match self.shares.checked_add(shares) {
            Some(s) => s,
            None => return Err(BackstopError::ArithmeticError),
        };
        self.tokens = t;
        self.shares = s;
        Ok(())
    }

    /// Retires `tokens` and `shares`, the shares out of the queued total as well.
    /// Fails with `NegativeAmount` on a negative argument and with
    /// `InsufficientFunds` where the pool holds less; the pool is then unchanged.
    pub fn withdraw(&mut self, tokens: i128, shares: i128) -> (r: Result<(), BackstopError>)
        ensures
            r == (if tokens < 0 || shares < 0 {
                Err::<(), BackstopError>(BackstopError::NegativeAmount)
            } else if tokens > old(self).tokens || shares > old(self).shares || shares > old(
                self,
            ).q4w {
                Err(BackstopError::InsufficientFunds)
            } else {
                Ok(())
            }),
            r is Err ==> *final(self) == *old(self),
            r is Ok ==> *final(self) == (PoolBalance {
                shares: (old(self).shares - shares) as i128,
                tokens: (old(self).tokens - tokens) as i128,
                q4w: (old(self).q4w - shares) as i128,
            }),
    {
        if tokens < 0 || shares < 0 {
            return Err(BackstopError::NegativeAmount);
        }
        if tokens > self.tokens || shares > self.shares || shares > self.q4w {
            return Err(BackstopError::InsufficientFunds);
        }
        self.tokens = self.tokens - tokens;
        self.shares = self.shares - shares;
        self.q4w = self.q4w - shares;
        Ok(())
    }

    /// Adds `amount` to the queued total. Fails with `NegativeAmount` on a
    /// negative amount and with `ArithmeticError` on overflow, changing nothing.
    pub fn queue_for_withdraw(&mut self, amount: i128) -> (r: Result<(), BackstopError>)
        ensures
            r == (if amount < 0 {
                Err::<(), BackstopError>(BackstopError::NegativeAmount)
            } else if !fits_i128(old(self).q4w + amount) {
                Err(BackstopError::ArithmeticError)
            } else {
                Ok(())
            }),
            r is Err ==> *final(self) == *old(self),
            r is Ok ==> *final(self) == (PoolBalance {
                q4w: (old(self).q4w + amount) as i128,
                ..*old(self)
            }),
    {
        if amount < 0 {
            return Err(BackstopError::NegativeAmount);
        }
        match self.q4w.checked_add(amount) {
            Some(q) => {
                self.q4w = q;
                Ok(())
            },
            None => Err(BackstopError::ArithmeticError),
        }
    }

    /// Takes `amount` off the queued total. Fails with `NegativeAmount` on a
    /// negative amount and with `InsufficientFunds` where less is queued.
    pub fn dequeue_q4w(&mut self, amount: i128) -> (r: Result<(), BackstopError>)
        ensures
            r == (if amount < 0 {
                Err::<(), BackstopError>(BackstopError::NegativeAmount)
            } else if amount > old(self).q4w {
                Err(BackstopError::InsufficientFunds)
            } else {
                Ok(())
            }),
            r is Err ==> *final(self) == *old(self),
            r is Ok ==> *final(self) == (PoolBalance {
                q4w: (old(self).q4w - amount) as i128,
                ..*old(self)
            }),
    {
        if amount < 0 {
            return Err(BackstopError::NegativeAmount);
        }
        if amount > self.q4w {
            return Err(BackstopError::InsufficientFunds);
        }
        self.q4w = self.q4w - amount;
        Ok(())
    }
}

} // verus!
