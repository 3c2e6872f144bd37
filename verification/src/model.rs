//! The ledger as mathematics: what each operation reads from a state, when
//! it fails, and which state it leaves.
//!
//! The executable operations are specified against these functions, and the
//! laws of the ledger are proved of them.

use crate::amount::{amount_bytes, bytes_amount, fits_i64};
use crate::error::Error;
use crate::keys::{allowance_key, balance_key};
use crate::store::State;
use vstd::prelude::*;

verus! {

/// The whole supply, credited to the initialising account.
pub const TOTAL_SUPPLY: i64 = 100_000 * 10;

/// What a key holds when it is read as an amount.
pub enum Slot {
    /// The key was never written.
    Vacant,
    /// The key holds something that is no amount.
    Corrupt,
    /// The key holds this amount.
    Holds(i64),
}

/// Reads `key` as an amount. Any eight bytes are an amount in range.
pub open spec fn slot(state: State, key: Seq<u8>) -> Slot {
    if !state.contains_key(key) {
        Slot::Vacant
    } else if state[key].len() != 8 {
        Slot::Corrupt
    } else {
        Slot::Holds(bytes_amount(state[key]) as i64)
    }
}

/// The amount under `key`; zero where the key holds no amount.
pub open spec fn amount_at(state: State, key: Seq<u8>) -> int {
    match slot(state, key) {
        Slot::Holds(v) => v as int,
        _ => 0,
    }
}

/// The balance of `who`; an account without a readable balance holds zero.
pub open spec fn balance_of(state: State, who: Seq<u8>) -> int {
    amount_at(state, balance_key(who))
}

/// What `spender` may still move out of the balance of `owner`; zero where
/// nothing readable is stored.
pub open spec fn allowance_of(state: State, owner: Seq<u8>, spender: Seq<u8>) -> int {
    amount_at(state, allowance_key(owner, spender))
}

/// Reading a balance on the debit side: the account must exist.
pub open spec fn balance_read(state: State, who: Seq<u8>) -> Result<i64, Error> {
    match slot(state, balance_key(who)) {
        Slot::Vacant => Err(Error::AccountNotFound),
        Slot::Corrupt => Err(Error::StoreReadFailure),
        Slot::Holds(v) => Ok(v),
    }
}

/// Reading an allowance: one that was never granted is zero.
pub open spec fn allowance_read(state: State, owner: Seq<u8>, spender: Seq<u8>) -> Result<
    i64,
    Error,
> {
    match slot(state, allowance_key(owner, spender)) {
        Slot::Vacant => Ok(0i64),
        Slot::Corrupt => Err(Error::StoreReadFailure),
        Slot::Holds(v) => Ok(v),
    }
}

/// The state after `who` is credited the whole supply.
pub open spec fn init_state(state: State, who: Seq<u8>) -> State {
    state.insert(balance_key(who), amount_bytes(TOTAL_SUPPLY as int))
}

/// Why a transfer of `amount` from `from` to `to` fails, if it does: the
/// source must exist and hold at least `amount`, and what the recipient
/// holds must be readable or absent.
pub open spec fn transfer_error(state: State, from: Seq<u8>, to: Seq<u8>, amount: i64) -> Option<
    Error,
> {
    match balance_read(state, from) {
        Err(e) => Some(e),
        Ok(balance) => if balance < amount {
            Some(Error::InsufficientBalance { balance, amount })
        } else if slot(state, balance_key(to)) is Corrupt {
            Some(Error::StoreReadFailure)
        } else {
            None
        },
    }
}

/// The balance of the source after the debit.
pub open spec fn debited(state: State, from: Seq<u8>, amount: i64) -> int {
    balance_of(state, from) - amount
}

/// The balance of the recipient after the credit. The credit follows the
/// debit, so an account that pays itself ends where it began.
pub open spec fn credited(state: State, from: Seq<u8>, to: Seq<u8>, amount: i64) -> int {
    if to == from {
        balance_of(state, from)
    } else {
        balance_of(state, to) + amount
    }
}

/// Both balances that a transfer would write are representable.
pub open spec fn transfer_fits(state: State, from: Seq<u8>, to: Seq<u8>, amount: i64) -> bool {
    transfer_error(state, from, to, amount) is None ==> fits_i64(debited(state, from, amount))
        && fits_i64(credited(state, from, to, amount))
}

/// The debit and the credit of a transfer, applied to `state`.
pub open spec fn move_funds(state: State, from: Seq<u8>, to: Seq<u8>, amount: i64) -> State {
    state.insert(balance_key(from), amount_bytes(debited(state, from, amount))).insert(
        balance_key(to),
        amount_bytes(credited(state, from, to, amount)),
    )
}

/// The state after a transfer: both balances moved, or nothing changed.
pub open spec fn transfer_state(state: State, from: Seq<u8>, to: Seq<u8>, amount: i64) -> State {
    if transfer_error(state, from, to, amount) is None {
        move_funds(state, from, to, amount)
    } else {
        state
    }
}

/// The state after `owner` grants `spender` an allowance of `value`.
pub open spec fn approve_state(
    state: State,
    owner: Seq<u8>,
    spender: Seq<u8>,
    value: i64,
) -> State {
    state.insert(allowance_key(owner, spender), amount_bytes(value as int))
}

/// Why a delegated transfer fails, if it does: the allowance that `from`
/// granted to `spender` must be readable and cover `value`, and the transfer
/// itself must be possible.
pub open spec fn transfer_from_error(
    state: State,
    spender: Seq<u8>,
    from: Seq<u8>,
    to: Seq<u8>,
    value: i64,
) -> Option<Error> {
    match allowance_read(state, from, spender) {
        Err(e) => Some(e),
        Ok(allowed) => if value > allowed {
            Some(Error::InsufficientAllowance { allowed, amount: value })
        } else {
            transfer_error(state, from, to, value)
        },
    }
}

/// The allowance and both balances that a delegated transfer would write
/// are representable.
pub open spec fn transfer_from_fits(
    state: State,
    spender: Seq<u8>,
    from: Seq<u8>,
    to: Seq<u8>,
    value: i64,
) -> bool {
    transfer_from_error(state, spender, from, to, value) is None ==> fits_i64(
        allowance_of(state, from, spender) - value,
    ) && transfer_fits(state, from, to, value)
}

/// The state after a delegated transfer: the allowance spent and both
/// balances moved, or nothing changed.
pub open spec fn transfer_from_state(
    state: State,
    spender: Seq<u8>,
    from: Seq<u8>,
    to: Seq<u8>,
    value: i64,
) -> State {
    if transfer_from_error(state, spender, from, to, value) is None {
        move_funds(state, from, to, value).insert(
            allowance_key(from, spender),
            amount_bytes(allowance_of(state, from, spender) - value),
        )
    } else {
        state
    }
}

/// The state after the writes, made one after the other.
pub open spec fn replay(state: State, writes: Seq<(Seq<u8>, Seq<u8>)>) -> State
    decreases writes.len(),
{
    if writes.len() == 0 {
        state
    } else {
        replay(state, writes.drop_last()).insert(writes.last().0, writes.last().1)
    }
}

/// What crediting the supply to `who` writes.
pub open spec fn init_writes(who: Seq<u8>) -> Seq<(Seq<u8>, Seq<u8>)> {
    seq![(balance_key(who), amount_bytes(TOTAL_SUPPLY as int))]
}

/// What a transfer writes, in order: the debit, then the credit; nothing
/// where it is refused.
pub open spec fn transfer_writes(state: State, from: Seq<u8>, to: Seq<u8>, amount: i64) -> Seq<
    (Seq<u8>, Seq<u8>),
> {
    if transfer_error(state, from, to, amount) is None {
        seq![
            (balance_key(from), amount_bytes(debited(state, from, amount))),
            (balance_key(to), amount_bytes(credited(state, from, to, amount))),
        ]
    } else {
        Seq::empty()
    }
}

/// What a grant writes.
pub open spec fn approve_writes(owner: Seq<u8>, spender: Seq<u8>, value: i64) -> Seq<
    (Seq<u8>, Seq<u8>),
> {
    seq![(allowance_key(owner, spender), amount_bytes(value as int))]
}

/// What a delegated transfer writes, in order: the allowance, then the
/// debit, then the credit; nothing where it is refused.
pub open spec fn transfer_from_writes(
    state: State,
    spender: Seq<u8>,
    from: Seq<u8>,
    to: Seq<u8>,
    value: i64,
) -> Seq<(Seq<u8>, Seq<u8>)> {
    if transfer_from_error(state, spender, from, to, value) is None {
        seq![
            (
                allowance_key(from, spender),
                amount_bytes(allowance_of(state, from, spender) - value),
            ),
        ] + transfer_writes(state, from, to, value)
    } else {
        Seq::empty()
    }
}

} // verus!
