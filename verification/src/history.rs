//! The ledger over time: what holds after any sequence of calls that
//! follows the crediting of the supply.

use crate::amount::{amount_bytes, lemma_amount_round_trip};
use crate::keys::{allowance_key, balance_key, lemma_allowance_key_layout, ADDRESS_LEN};
use crate::laws::{
    lemma_approve_never_negative, lemma_init_never_negative, lemma_transfer_conserves,
    lemma_transfer_from_conserves, lemma_transfer_from_never_negative,
    lemma_transfer_never_negative, never_negative,
};
use crate::model::{
    amount_at, approve_state, balance_of, init_state, transfer_fits, transfer_from_fits,
    transfer_from_state, transfer_state, TOTAL_SUPPLY,
};
use crate::store::State;
use crate::supply::{
    lemma_balance_within_total, lemma_total_after_write, lemma_total_of_empty, total_balance,
};
use vstd::prelude::*;

verus! {

/// One call that changes the ledger after it was initialised.
pub enum Call {
    /// `sender` pays `amount` to `to`.
    Transfer { sender: Seq<u8>, to: Seq<u8>, amount: i64 },
    /// `sender` grants `spender` an allowance of `value`.
    Approve { sender: Seq<u8>, spender: Seq<u8>, value: i64 },
    /// `sender` moves `value` from `from` to `to` on an allowance.
    TransferFrom { sender: Seq<u8>, from: Seq<u8>, to: Seq<u8>, value: i64 },
}

/// Every account that the call names is an address.
pub open spec fn addressed(call: Call) -> bool {
    match call {
        Call::Transfer { sender, to, .. } => sender.len() == ADDRESS_LEN && to.len()
            == ADDRESS_LEN,
        Call::Approve { sender, spender, .. } => sender.len() == ADDRESS_LEN && spender.len()
            == ADDRESS_LEN,
        Call::TransferFrom { sender, from, to, .. } => sender.len() == ADDRESS_LEN && from.len()
            == ADDRESS_LEN && to.len() == ADDRESS_LEN,
    }
}

/// The amount that the call moves or grants.
pub open spec fn call_amount(call: Call) -> i64 {
    match call {
        Call::Transfer { amount, .. } => amount,
        Call::Approve { value, .. } => value,
        Call::TransferFrom { value, .. } => value,
    }
}

/// What the call would write is representable.
pub open spec fn call_fits(state: State, call: Call) -> bool {
    match call {
        Call::Transfer { sender, to, amount } => transfer_fits(state, sender, to, amount),
        Call::Approve { .. } => true,
        Call::TransferFrom { sender, from, to, value } => transfer_from_fits(
            state,
            sender,
            from,
            to,
            value,
        ),
    }
}

/// The state after the call, made or refused.
pub open spec fn apply(state: State, call: Call) -> State {
    match call {
        Call::Transfer { sender, to, amount } => transfer_state(state, sender, to, amount),
        Call::Approve { sender, spender, value } => approve_state(state, sender, spender, value),
        Call::TransferFrom { sender, from, to, value } => transfer_from_state(
            state,
            sender,
            from,
            to,
            value,
        ),
    }
}

/// The state after the calls, one after the other.
pub open spec fn run(state: State, calls: Seq<Call>) -> State
    decreases calls.len(),
{
    if calls.len() == 0 {
        state
    } else {
        apply(run(state, calls.drop_last()), calls.last())
    }
}

/// Each call, in the state that it meets, writes only what is
/// representable.
pub open spec fn runs_in_range(state: State, calls: Seq<Call>) -> bool
    decreases calls.len(),
{
    calls.len() > 0 ==> runs_in_range(state, calls.drop_last()) && call_fits(
        run(state, calls.drop_last()),
        calls.last(),
    )
}

/// The state in which `deployer` alone holds the whole supply.
pub open spec fn genesis(deployer: Seq<u8>) -> State {
    init_state(State::empty(), deployer)
}

/// At the start the sum of all balances is the supply.
pub proof fn lemma_genesis_total(deployer: Seq<u8>)
    requires
        deployer.len() == ADDRESS_LEN,
    ensures
        genesis(deployer).dom().finite(),
        total_balance(genesis(deployer)) == TOTAL_SUPPLY,
        never_negative(genesis(deployer)),
{
    lemma_total_of_empty();
    lemma_amount_round_trip(TOTAL_SUPPLY as int);
    lemma_total_after_write(
        State::empty(),
        balance_key(deployer),
        amount_bytes(TOTAL_SUPPLY as int),
    );
    assert(never_negative(State::empty()));
    lemma_init_never_negative(State::empty(), deployer);
}

/// One call leaves the sum of all balances as it was.
pub proof fn lemma_call_conserves(state: State, call: Call)
    requires
        state.dom().finite(),
        addressed(call),
        call_fits(state, call),
    ensures
        apply(state, call).dom().finite(),
        total_balance(apply(state, call)) == total_balance(state),
{
    match call {
        Call::Transfer { sender, to, amount } => {
            lemma_transfer_conserves(state, sender, to, amount);
        },
        Call::Approve { sender, spender, value } => {
            lemma_allowance_key_layout(sender, spender);
            lemma_total_after_write(
                state,
                allowance_key(sender, spender),
                amount_bytes(value as int),
            );
        },
        Call::TransferFrom { sender, from, to, value } => {
            lemma_transfer_from_conserves(state, sender, from, to, value);
        },
    }
}

/// After the supply was credited once, whatever transfers, grants and
/// delegated transfers follow, the sum of all balances is the supply.
pub proof fn lemma_supply_conserved(deployer: Seq<u8>, calls: Seq<Call>)
    requires
        deployer.len() == ADDRESS_LEN,
        forall|i: int| 0 <= i < calls.len() ==> addressed(#[trigger] calls[i]),
        runs_in_range(genesis(deployer), calls),
    ensures
        run(genesis(deployer), calls).dom().finite(),
        total_balance(run(genesis(deployer), calls)) == TOTAL_SUPPLY,
    decreases calls.len(),
{
    if calls.len() == 0 {
        lemma_genesis_total(deployer);
    } else {
        let front = calls.drop_last();
        assert forall|i: int| 0 <= i < front.len() implies addressed(#[trigger] front[i]) by {
            assert(front[i] == calls[i]);
        }
        lemma_supply_conserved(deployer, front);
        lemma_call_conserves(run(genesis(deployer), front), calls.last());
    }
}

/// Where the sum of all balances is the supply and no amount is negative, a
/// call with an amount that is not negative writes only what is
/// representable, and leaves no amount negative.
pub proof fn lemma_call_never_negative(state: State, call: Call)
    requires
        state.dom().finite(),
        total_balance(state) == TOTAL_SUPPLY,
        never_negative(state),
        addressed(call),
        call_amount(call) >= 0,
    ensures
        call_fits(state, call),
        never_negative(apply(state, call)),
{
    match call {
        Call::Transfer { sender, to, amount } => {
            lemma_transfer_in_range(state, sender, to, amount);
            lemma_transfer_never_negative(state, sender, to, amount);
        },
        Call::Approve { sender, spender, value } => {
            lemma_approve_never_negative(state, sender, spender, value);
        },
        Call::TransferFrom { sender, from, to, value } => {
            lemma_transfer_in_range(state, from, to, value);
            assert(amount_at(state, allowance_key(from, sender)) >= 0);
            lemma_transfer_from_never_negative(state, sender, from, to, value);
        },
    }
}

/// Where no amount is negative and the balances sum to the supply, a
/// transfer of an amount that is not negative cannot leave the range.
proof fn lemma_transfer_in_range(state: State, from: Seq<u8>, to: Seq<u8>, amount: i64)
    requires
        state.dom().finite(),
        total_balance(state) == TOTAL_SUPPLY,
        never_negative(state),
        from.len() == ADDRESS_LEN,
        to.len() == ADDRESS_LEN,
        amount >= 0,
    ensures
        transfer_fits(state, from, to, amount),
{
    assert forall|key: Seq<u8>| balance_of(state, key) >= 0 by {
        assert(amount_at(state, balance_key(key)) >= 0);
    }
    lemma_balance_within_total(state, from);
    lemma_balance_within_total(state, to);
}

/// After the supply was credited once, whatever calls with amounts that
/// are not negative follow, no balance and no allowance is negative; nor
/// does any of these calls leave the range, so the sum of all balances is
/// the supply.
pub proof fn lemma_never_negative(deployer: Seq<u8>, calls: Seq<Call>)
    requires
        deployer.len() == ADDRESS_LEN,
        forall|i: int|
            0 <= i < calls.len() ==> addressed(#[trigger] calls[i]) && call_amount(calls[i]) >= 0,
    ensures
        runs_in_range(genesis(deployer), calls),
        never_negative(run(genesis(deployer), calls)),
        total_balance(run(genesis(deployer), calls)) == TOTAL_SUPPLY,
    decreases calls.len(),
{
    if calls.len() == 0 {
        lemma_genesis_total(deployer);
    } else {
        let front = calls.drop_last();
        assert forall|i: int| 0 <= i < front.len() implies addressed(#[trigger] front[i])
            && call_amount(front[i]) >= 0 by {
            assert(front[i] == calls[i]);
        }
        lemma_never_negative(deployer, front);
        lemma_supply_conserved(deployer, front);
        lemma_call_never_negative(run(genesis(deployer), front), calls.last());
        lemma_supply_conserved(deployer, calls);
    }
}

} // verus!
