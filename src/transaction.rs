use vstd::prelude::*;

use crate::errors::TransactionError;

verus! {

/// Number of decimal places carried by an [`Amount`].
pub const SCALE: u32 = 4;

/// An exact fixed-point decimal: `units` counts steps of ten to the power
/// minus [`SCALE`], so `5.0` is `Amount { units: 50000 }`.
#[derive(Debug, Clone, Copy, PartialEq, Eq, Structural)]
pub struct Amount {
    pub units: i128,
}

/// Ten to the power `n`.
pub open spec fn pow10(n: nat) -> int
    decreases n,
{
    if n == 0 {
        1
    } else {
        10 * pow10((n - 1) as nat)
    }
}

/// The units of the decimal `mantissa` times ten to the power minus `scale`,
/// when it has at most [`SCALE`] decimal places and fits.
pub open spec fn units_of(mantissa: i128, scale: u32) -> Option<Amount> {
    if scale > SCALE {
        None
    } else {
        let u = mantissa * pow10((SCALE - scale) as nat);
        if i128::MIN <= u <= i128::MAX {
            Some(Amount { units: u as i128 })
        } else {
            None
        }
    }
}

impl Amount {
    /// The amount `mantissa` times ten to the power minus `scale`, or `None`
    /// when it has more than [`SCALE`] decimal places or does not fit. A
    /// decimal with trailing zeros should be normalized first.
    pub fn from_parts(mantissa: i128, scale: u32) -> (r: Option<Amount>)
        ensures
            r == units_of(mantissa, scale),
    {
        if scale > SCALE {
            return None;
        }
        let mut factor: i128 = 1;
        let mut k: u32 = scale;
        while k < SCALE
            invariant
                scale <= k <= SCALE,
                factor as int == pow10((k - scale) as nat),
                factor <= 10000,
            decreases SCALE - k,
        {
            proof {
                reveal_with_fuel(pow10, 5);
            }
            factor = factor * 10;
            k = k + 1;
        }
        match mantissa.checked_mul(factor) {
            Some(u) => Some(Amount { units: u }),
            None => None,
        }
    }

    /// The amount zero.
    pub fn zero() -> (r: Amount)
        ensures
            r.units == 0,
    {
        Amount { units: 0 }
    }
}

/// The kind of a record.
#[derive(Debug, Clone, Copy, PartialEq, Eq, Structural)]
pub enum TransactionType {
    Withdrawal,
    Deposit,
    Dispute,
    Resolve,
    Chargeback,
}

/// Deposits and withdrawals move funds and are kept in the ledger; the other
/// kinds refer back to one of them.
pub open spec fn is_regular(kind: TransactionType) -> bool {
    kind == TransactionType::Deposit || kind == TransactionType::Withdrawal
}

/// A record as read, before any check.
#[derive(Debug, Clone, Copy, PartialEq, Eq, Structural)]
pub struct TransactionUnchecked {
    pub kind: TransactionType,
    pub client: u16,
    pub id: u32,
    pub amount: Option<Amount>,
}

/// A record whose amount agrees with its kind (see [`Transaction::is_valid`]).
#[derive(Debug, Clone, Copy, PartialEq, Eq, Structural)]
pub struct Transaction {
    pub kind: TransactionType,
    pub client: u16,
    pub id: u32,
    pub amount: Option<Amount>,
}

/// The same fields, unchecked.
pub open spec fn transaction_of(u: TransactionUnchecked) -> Transaction {
    Transaction { kind: u.kind, client: u.client, id: u.id, amount: u.amount }
}

/// What validating a record gives: a transaction, or the first rule it breaks.
pub open spec fn validate(u: TransactionUnchecked) -> Result<Transaction, TransactionError> {
    if is_regular(u.kind) {
        match u.amount {
            None => Err(TransactionError::MissingAmount(u.id)),
            Some(a) => if a.units <= 0 {
                Err(TransactionError::AmountNotPositive(u.id))
            } else {
                Ok(transaction_of(u))
            },
        }
    } else {
        match u.amount {
            Some(_) => Err(TransactionError::SuperfluousAmount(u.id)),
            None => Ok(transaction_of(u)),
        }
    }
}

impl Transaction {
    /// A deposit or withdrawal has a positive amount; every other kind has none.
    pub open spec fn is_valid(&self) -> bool {
        if is_regular(self.kind) {
            self.amount is Some && self.amount.unwrap().units > 0
        } else {
            self.amount is None
        }
    }

    /// The amount of a deposit or withdrawal, as an integer of units.
    pub open spec fn amount_units(&self) -> int {
        match self.amount {
            Some(a) => a.units as int,
            None => 0,
        }
    }

    /// Copies the fields of an unchecked record, checking nothing.
    fn from_unchecked(tx: TransactionUnchecked) -> (r: Transaction)
        ensures
            r == transaction_of(tx),
    {
        Transaction { amount: tx.amount, client: tx.client, id: tx.id, kind: tx.kind }
    }

    /// Checks that the amount agrees with the kind: present and positive for a
    /// deposit or withdrawal, absent otherwise.
    pub fn try_from(tx: TransactionUnchecked) -> (r: Result<Transaction, TransactionError>)
        ensures
            r == validate(tx),
            r matches Ok(t) ==> t.is_valid() && t == transaction_of(tx),
    {
        match tx.kind {
            TransactionType::Deposit | TransactionType::Withdrawal => match tx.amount {
                Some(amount) => {
                    if amount.units <= 0 {
                        Err(TransactionError::AmountNotPositive(tx.id))
                    } else {
                        Ok(Self::from_unchecked(tx))
                    }
                },
                None => Err(TransactionError::MissingAmount(tx.id)),
            },
            TransactionType::Dispute | TransactionType::Resolve | TransactionType::Chargeback => {
                match tx.amount {
                    Some(_) => Err(TransactionError::SuperfluousAmount(tx.id)),
                    None => Ok(Self::from_unchecked(tx)),
                }
            },
        }
    }
}

} // verus!
