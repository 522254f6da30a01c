//! Fixed-point money primitive: an `available` and a `frozen` sub-balance,
//! mutated only through checked operations that either commit fully or fail
//! without touching either field.

use vstd::prelude::*;

verus! {

/// Amounts are denominated in the smallest fixed-point unit.
pub type Amount = u64;

pub type BalanceResult = Result<(), ArithmeticError>;

#[derive(Clone, Copy, Debug, PartialEq, Eq, Structural)]
pub enum ArithmeticError {
    Overflow,
    Underflow,
}

#[derive(Clone, Copy, Debug, PartialEq, Eq, Structural)]
pub struct Balance {
    pub frozen: Amount,
    pub available: Amount,
}

/// An operation on a `Balance`, used to state laws that hold of all five
/// operations at once.
pub enum BalanceOp {
    Credit(Amount),
    Debit(Amount),
    Freeze(Amount),
    Unfreeze(Amount),
    Chargeback(Amount),
}

/// What `credit` does: both `available + amount` and the combined total
/// `available + amount + frozen` must stay representable.
pub open spec fn credit_spec(b: Balance, amount: Amount) -> Result<Balance, ArithmeticError> {
    if b.available + amount + b.frozen > u64::MAX {
        Err(ArithmeticError::Overflow)
    } else {
        Ok(Balance { frozen: b.frozen, available: (b.available + amount) as u64 })
    }
}

/// What `debit` does: `available` may not drop below zero.
pub open spec fn debit_spec(b: Balance, amount: Amount) -> Result<Balance, ArithmeticError> {
    if amount > b.available {
        Err(ArithmeticError::Underflow)
    } else {
        Ok(Balance { frozen: b.frozen, available: (b.available - amount) as u64 })
    }
}

/// What `freeze` does: moves `amount` from `available` to `frozen`.
/// The underflow check on `available` comes before the overflow check on `frozen`.
pub open spec fn freeze_spec(b: Balance, amount: Amount) -> Result<Balance, ArithmeticError> {
    if amount > b.available {
        Err(ArithmeticError::Underflow)
    } else if b.frozen + amount > u64::MAX {
        Err(ArithmeticError::Overflow)
    } else {
        Ok(Balance { frozen: (b.frozen + amount) as u64, available: (b.available - amount) as u64 })
    }
}

/// What `unfreeze` does: moves `amount` from `frozen` to `available`.
/// The overflow check on `available` comes before the underflow check on `frozen`.
pub open spec fn unfreeze_spec(b: Balance, amount: Amount) -> Result<Balance, ArithmeticError> {
    if b.available + amount > u64::MAX {
        Err(ArithmeticError::Overflow)
    } else if amount > b.frozen {
        Err(ArithmeticError::Underflow)
    } else {
        Ok(Balance { frozen: (b.frozen - amount) as u64, available: (b.available + amount) as u64 })
    }
}

/// What `chargeback` does: removes `amount` from `frozen`.
pub open spec fn chargeback_spec(b: Balance, amount: Amount) -> Result<Balance, ArithmeticError> {
    if amount > b.frozen {
        Err(ArithmeticError::Underflow)
    } else {
        Ok(Balance { frozen: (b.frozen - amount) as u64, available: b.available })
    }
}

/// The single-step semantics of all five operations.
pub open spec fn balance_op_spec(b: Balance, op: BalanceOp) -> Result<Balance, ArithmeticError> {
    match op {
        BalanceOp::Credit(amount) => credit_spec(b, amount),
        BalanceOp::Debit(amount) => debit_spec(b, amount),
        BalanceOp::Freeze(amount) => freeze_spec(b, amount),
        BalanceOp::Unfreeze(amount) => unfreeze_spec(b, amount),
        BalanceOp::Chargeback(amount) => chargeback_spec(b, amount),
    }
}

impl Default for Balance {
    /// A balance starts with both sub-balances at zero.
    fn default() -> (r: Self)
        ensures
            r.available == 0,
            r.frozen == 0,
    {
        Balance { frozen: 0, available: 0 }
    }
}

impl Balance {
    pub fn frozen(&self) -> (r: Amount)
        ensures
            r == self.frozen,
    {
        self.frozen
    }

    pub fn available(&self) -> (r: Amount)
        ensures
            r == self.available,
    {
        self.available
    }

    /// Moves `amount` from `available` to `frozen`; on failure the balance is
    /// unchanged.
    pub fn freeze(&mut self, amount: Amount) -> (r: BalanceResult)
        ensures
            match freeze_spec(*old(self), amount) {
                Ok(b) => r is Ok && *final(self) == b,
                Err(e) => r == Err::<(), ArithmeticError>(e) && *final(self) == *old(self),
            },
    {
        let available = match self.available.checked_sub(amount) {
            Some(v) => v,
            None => {
                return Err(ArithmeticError::Underflow);
            },
        };
        let frozen = match self.frozen.checked_add(amount) {
            Some(v) => v,
            None => {
                return Err(ArithmeticError::Overflow);
            },
        };

        self.available = available;
        self.frozen = frozen;

        Ok(())
    }

    /// Moves `amount` from `frozen` back to `available`; on failure the
    /// balance is unchanged.
    pub fn unfreeze(&mut self, amount: Amount) -> (r: BalanceResult)
        ensures
            match unfreeze_spec(*old(self), amount) {
                Ok(b) => r is Ok && *final(self) == b,
                Err(e) => r == Err::<(), ArithmeticError>(e) && *final(self) == *old(self),
            },
    {
        let available = match self.available.checked_add(amount) {
            Some(v) => v,
            None => {
                return Err(ArithmeticError::Overflow);
            },
        };
        let frozen = match self.frozen.checked_sub(amount) {
            Some(v) => v,
            None => {
                return Err(ArithmeticError::Underflow);
            },
        };

        self.available = available;
        self.frozen = frozen;

        Ok(())
    }

    /// Adds `amount` to `available`, guarding the combined total
    /// `available + frozen` against overflow; on failure the balance is
    /// unchanged.
    pub fn credit(&mut self, amount: Amount) -> (r: BalanceResult)
        ensures
            match credit_spec(*old(self), amount) {
                Ok(b) => r is Ok && *final(self) == b,
                Err(e) => r == Err::<(), ArithmeticError>(e) && *final(self) == *old(self),
            },
    {
        let available = match self.available.checked_add(amount) {
            Some(v) => v,
            None => {
                return Err(ArithmeticError::Overflow);
            },
        };
        // ensure that available + frozen (the total) does not overflow either
        match available.checked_add(self.frozen) {
            Some(_) => {},
            None => {
                return Err(ArithmeticError::Overflow);
            },
        };

        self.available = available;

        Ok(())
    }

    /// Subtracts `amount` from `available`; on failure the balance is
    /// unchanged.
    pub fn debit(&mut self, amount: Amount) -> (r: BalanceResult)
        ensures
            match debit_spec(*old(self), amount) {
                Ok(b) => r is Ok && *final(self) == b,
                Err(e) => r == Err::<(), ArithmeticError>(e) && *final(self) == *old(self),
            },
    {
        self.available = match self.available.checked_sub(amount) {
            Some(v) => v,
            None => {
                return Err(ArithmeticError::Underflow);
            },
        };

        Ok(())
    }

    /// Subtracts `amount` from `frozen`; on failure the balance is unchanged.
    pub fn chargeback(&mut self, amount: Amount) -> (r: BalanceResult)
        ensures
            match chargeback_spec(*old(self), amount) {
                Ok(b) => r is Ok && *final(self) == b,
                Err(e) => r == Err::<(), ArithmeticError>(e) && *final(self) == *old(self),
            },
    {
        self.frozen = match self.frozen.checked_sub(amount) {
            Some(v) => v,
            None => {
                return Err(ArithmeticError::Underflow);
            },
        };

        Ok(())
    }
}

/// Law: every operation keeps both sub-balances non-negative (they are
/// unsigned) and keeps the combined total `available + frozen` representable.
pub proof fn lemma_balance_op_preserves_total(b: Balance, op: BalanceOp)
    requires
        b.available + b.frozen <= u64::MAX,
    ensures
        balance_op_spec(b, op) matches Ok(b2) ==> b2.available + b2.frozen <= u64::MAX,
{
}

/// Law: a failed operation leaves the balance unchanged (each operation's
/// contract), so repeating the call from the state it left behind fails the
/// same way. Here `b_after` is the state after the failed call, which the
/// operation's contract pins to `b` itself.
pub proof fn lemma_balance_failure_idempotent(b: Balance, b_after: Balance, op: BalanceOp)
    requires
        balance_op_spec(b, op) is Err,
        b_after == b,
    ensures
        balance_op_spec(b_after, op) == balance_op_spec(b, op),
{
}

} // verus!
