use vstd::prelude::*;

verus! {

/// Kind of a recorded token movement.
#[derive(Clone, Copy, Debug, PartialEq, Eq, Structural)]
pub enum TokenOpType {
    NoOp,
    Transfer,
    TransferFrom,
}

/// One movement of the backstop token asked of the token contract.
#[derive(Clone, Copy, Debug, PartialEq, Eq, Structural)]
pub struct TokenOp {
    pub op_type: TokenOpType,
    pub from: u64,
    pub to: u64,
    pub amount: i128,
}

/// Client of the backstop token contract. The movements it is asked for are
/// kept, in order, for the host to carry out; the token contract enforces
/// balances and allowances itself.
pub struct TokenClient {
    pub address: u64,
    pub decimals: u32,
    pub ops: Vec<TokenOp>,
}

impl TokenClient {
    /// A client of the token at `address`, with no movement asked yet.
    pub fn new(address: u64, decimals: u32) -> (r: TokenClient)
        ensures
            r.address == address,
            r.decimals == decimals,
            r.ops@ == Seq::<TokenOp>::empty(),
    {
        TokenClient { address, decimals, ops: Vec::new() }
    }

    /// Asks for `amount` to move from `from` to `to`.
    pub fn transfer(&mut self, from: u64, to: u64, amount: i128)
        ensures
            final(self).address == old(self).address,
            final(self).decimals == old(self).decimals,
            final(self).ops@ == old(self).ops@.push(
                TokenOp { op_type: TokenOpType::Transfer, from, to, amount },
            ),
    {
        self.ops.push(TokenOp { op_type: TokenOpType::Transfer, from, to, amount });
    }

    /// Asks for `amount` to move from `from` to `to` under the allowance that
    /// `from` gave `spender`.
    pub fn transfer_from(&mut self, spender: u64, from: u64, to: u64, amount: i128)
        ensures
            final(self).address == old(self).address,
            final(self).decimals == old(self).decimals,
            final(self).ops@ == old(self).ops@.push(
                TokenOp { op_type: TokenOpType::TransferFrom, from, to, amount },
            ),
    {
        self.ops.push(TokenOp { op_type: TokenOpType::TransferFrom, from, to, amount });
    }

    /// Decimal places of the token.
    pub fn decimals(&self) -> (r: u32)
        ensures
            r == self.decimals,
    {
        self.decimals
    }

    /// The latest movement asked for, if any.
    pub fn get_last_op(&self) -> (r: Option<TokenOp>)
        ensures
            r == (if self.ops@.len() > 0 {
                Some(self.ops@.last())
            } else {
                None::<TokenOp>
            }),
    {
        let n = self.ops.len();
        if n > 0 {
            Some(self.ops[n - 1])
        } else {
            None
        }
    }

    /// Whether no movement was asked for yet.
    pub fn is_uninit(&self) -> (r: bool)
        ensures
            r == (self.ops@.len() == 0),
    {
        self.ops.len() == 0
    }
}

} // verus!
