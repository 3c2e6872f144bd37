//! The ways an operation of the ledger can fail.

use crate::text::{append_decimal, decimal_text};
use vstd::prelude::*;
use vstd::string::StringExecFns;

verus! {

/// Why an operation was refused. A refused operation changes nothing.
#[derive(Debug, Clone, Copy, PartialEq, Eq, Structural)]
pub enum Error {
    /// The account to debit, or to look up, holds no balance at all.
    AccountNotFound,
    /// The source holds `balance`, less than the `amount` asked for.
    InsufficientBalance { balance: i64, amount: i64 },
    /// The spender may move `allowed`, less than the `amount` asked for.
    InsufficientAllowance { allowed: i64, amount: i64 },
    /// A stored value is not an eight-byte amount.
    StoreReadFailure,
}

impl Error {
    /// The message of an error: it tells the kinds apart, and for a balance
    /// that falls short it names both sides of the comparison.
    pub open spec fn text(self) -> Seq<char> {
        match self {
            Error::AccountNotFound => "account not found"@,
            Error::InsufficientBalance { balance, amount } => "error: "@ + decimal_text(
                balance as int,
            ) + " < "@ + decimal_text(amount as int),
            Error::InsufficientAllowance { .. } => "allowed value is insuficient"@,
            Error::StoreReadFailure => "stored value is not an amount"@,
        }
    }

    /// The message of this error, for the caller to read.
    pub fn message(&self) -> (text: String)
        ensures
            text@ == self.text(),
    {
        match self {
            Error::AccountNotFound => String::from_str("account not found"),
            Error::InsufficientBalance { balance, amount } => {
                let mut text = String::from_str("error: ");
                append_decimal(&mut text, *balance);
                text.append(" < ");
                append_decimal(&mut text, *amount);
                text
            },
            Error::InsufficientAllowance { .. } => String::from_str("allowed value is insuficient"),
            Error::StoreReadFailure => String::from_str("stored value is not an amount"),
        }
    }
}

} // verus!
