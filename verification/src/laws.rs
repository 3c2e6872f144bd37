//! Laws of the single operations, proved of the model of the ledger.

use crate::amount::{amount_bytes, fits_i64, lemma_amount_round_trip, lemma_bytes_round_trip};
use crate::keys::{
    allowance_key, balance_key, lemma_allowance_key_layout, lemma_namespaces_disjoint, ADDRESS_LEN,
};
use crate::model::{
    allowance_of, amount_at, approve_state, balance_of, balance_read, credited, debited,
    init_state, move_funds, replay, transfer_error, transfer_fits, transfer_from_error,
    transfer_from_fits, transfer_from_state, transfer_from_writes, transfer_state,
    transfer_writes, TOTAL_SUPPLY,
};
use crate::store::State;
use crate::supply::{lemma_total_after_write, total_balance};
use vstd::prelude::*;

verus! {

/// A transfer leaves the sum of all balances as it was.
pub proof fn lemma_transfer_conserves(state: State, from: Seq<u8>, to: Seq<u8>, amount: i64)
    requires
        state.dom().finite(),
        from.len() == ADDRESS_LEN,
        to.len() == ADDRESS_LEN,
        transfer_fits(state, from, to, amount),
    ensures
        total_balance(transfer_state(state, from, to, amount)) == total_balance(state),
{
    if transfer_error(state, from, to, amount) is None {
        let rest = debited(state, from, amount);
        let credit = credited(state, from, to, amount);
        let between = state.insert(balance_key(from), amount_bytes(rest));
        lemma_amount_round_trip(rest);
        lemma_amount_round_trip(credit);
        lemma_total_after_write(state, balance_key(from), amount_bytes(rest));
        lemma_total_after_write(between, balance_key(to), amount_bytes(credit));
    }
}

/// A transfer from an account to itself leaves the state as it was, made
/// or refused.
pub proof fn lemma_transfer_to_self(state: State, who: Seq<u8>, amount: i64)
    requires
        transfer_fits(state, who, who, amount),
    ensures
        transfer_state(state, who, who, amount) == state,
{
    if transfer_error(state, who, who, amount) is None {
        lemma_bytes_round_trip(state[balance_key(who)]);
        assert(move_funds(state, who, who, amount) =~= state);
    }
}

/// An account that pays itself an amount that it holds succeeds, is told
/// its balance, and is left as it was.
pub proof fn lemma_self_transfer(state: State, who: Seq<u8>, amount: i64)
    requires
        balance_read(state, who) is Ok,
        amount <= balance_of(state, who),
        fits_i64(balance_of(state, who) - amount),
    ensures
        transfer_error(state, who, who, amount) is None,
        credited(state, who, who, amount) == balance_of(state, who),
        transfer_state(state, who, who, amount) == state,
{
    lemma_transfer_to_self(state, who, amount);
}

/// A delegated transfer leaves the sum of all balances as it was.
pub proof fn lemma_transfer_from_conserves(
    state: State,
    spender: Seq<u8>,
    from: Seq<u8>,
    to: Seq<u8>,
    value: i64,
)
    requires
        state.dom().finite(),
        from.len() == ADDRESS_LEN,
        to.len() == ADDRESS_LEN,
        transfer_from_fits(state, spender, from, to, value),
    ensures
        total_balance(transfer_from_state(state, spender, from, to, value)) == total_balance(
            state,
        ),
{
    if transfer_from_error(state, spender, from, to, value) is None {
        let moved = transfer_state(state, from, to, value);
        lemma_transfer_conserves(state, from, to, value);
        lemma_allowance_key_layout(from, spender);
        assert(moved.dom().finite());
        lemma_total_after_write(
            moved,
            allowance_key(from, spender),
            amount_bytes(allowance_of(state, from, spender) - value),
        );
    }
}

/// A delegated transfer of `value` that succeeds lowers the allowance it
/// draws on by exactly `value`, and not below zero.
pub proof fn lemma_spend_lowers_allowance(
    state: State,
    spender: Seq<u8>,
    from: Seq<u8>,
    to: Seq<u8>,
    value: i64,
)
    requires
        transfer_from_fits(state, spender, from, to, value),
        transfer_from_error(state, spender, from, to, value) is None,
    ensures
        allowance_of(transfer_from_state(state, spender, from, to, value), from, spender)
            == allowance_of(state, from, spender) - value,
        allowance_of(transfer_from_state(state, spender, from, to, value), from, spender) >= 0,
{
    lemma_amount_round_trip(allowance_of(state, from, spender) - value);
}

/// Two grants in a row leave the second: a grant replaces, it does not add.
pub proof fn lemma_approve_overwrites(
    state: State,
    owner: Seq<u8>,
    spender: Seq<u8>,
    first: i64,
    second: i64,
)
    ensures
        approve_state(approve_state(state, owner, spender, first), owner, spender, second)
            == approve_state(state, owner, spender, second),
        allowance_of(
            approve_state(approve_state(state, owner, spender, first), owner, spender, second),
            owner,
            spender,
        ) == second,
{
    lemma_amount_round_trip(second as int);
    assert(approve_state(approve_state(state, owner, spender, first), owner, spender, second)
        =~= approve_state(state, owner, spender, second));
}

/// No amount that the state holds is negative, balance or allowance.
pub open spec fn never_negative(state: State) -> bool {
    forall|key: Seq<u8>| #[trigger] amount_at(state, key) >= 0
}

/// Writing an amount that is not negative keeps every amount so.
pub proof fn lemma_write_never_negative(state: State, key: Seq<u8>, v: int)
    requires
        never_negative(state),
        fits_i64(v),
        v >= 0,
    ensures
        never_negative(state.insert(key, amount_bytes(v))),
{
    let after = state.insert(key, amount_bytes(v));
    lemma_amount_round_trip(v);
    assert forall|other: Seq<u8>| #[trigger] amount_at(after, other) >= 0 by {
        if other != key {
            assert(amount_at(after, other) == amount_at(state, other));
        }
    }
}

/// Crediting the supply leaves no amount negative.
pub proof fn lemma_init_never_negative(state: State, who: Seq<u8>)
    requires
        never_negative(state),
    ensures
        never_negative(init_state(state, who)),
{
    lemma_write_never_negative(state, balance_key(who), TOTAL_SUPPLY as int);
}

/// A transfer of an amount that is not negative leaves no amount negative.
pub proof fn lemma_transfer_never_negative(state: State, from: Seq<u8>, to: Seq<u8>, amount: i64)
    requires
        never_negative(state),
        amount >= 0,
        transfer_fits(state, from, to, amount),
    ensures
        never_negative(transfer_state(state, from, to, amount)),
{
    if transfer_error(state, from, to, amount) is None {
        let rest = debited(state, from, amount);
        let between = state.insert(balance_key(from), amount_bytes(rest));
        assert(amount_at(state, balance_key(from)) >= 0);
        assert(amount_at(state, balance_key(to)) >= 0);
        lemma_write_never_negative(state, balance_key(from), rest);
        lemma_write_never_negative(between, balance_key(to), credited(state, from, to, amount));
    }
}

/// A grant of an amount that is not negative leaves no amount negative.
pub proof fn lemma_approve_never_negative(
    state: State,
    owner: Seq<u8>,
    spender: Seq<u8>,
    value: i64,
)
    requires
        never_negative(state),
        value >= 0,
    ensures
        never_negative(approve_state(state, owner, spender, value)),
{
    lemma_write_never_negative(state, allowance_key(owner, spender), value as int);
}

/// A delegated transfer of an amount that is not negative leaves no amount
/// negative.
pub proof fn lemma_transfer_from_never_negative(
    state: State,
    spender: Seq<u8>,
    from: Seq<u8>,
    to: Seq<u8>,
    value: i64,
)
    requires
        never_negative(state),
        value >= 0,
        transfer_from_fits(state, spender, from, to, value),
    ensures
        never_negative(transfer_from_state(state, spender, from, to, value)),
{
    if transfer_from_error(state, spender, from, to, value) is None {
        lemma_transfer_never_negative(state, from, to, value);
        lemma_write_never_negative(
            transfer_state(state, from, to, value),
            allowance_key(from, spender),
            allowance_of(state, from, spender) - value,
        );
    }
}

/// Replaying what a transfer wrote, on the state that it met, gives the
/// state that it left.
pub proof fn lemma_transfer_replays(state: State, from: Seq<u8>, to: Seq<u8>, amount: i64)
    ensures
        replay(state, transfer_writes(state, from, to, amount)) == transfer_state(
            state,
            from,
            to,
            amount,
        ),
{
    let writes = transfer_writes(state, from, to, amount);
    if transfer_error(state, from, to, amount) is None {
        assert(writes.drop_last().drop_last() =~= Seq::empty());
        assert(replay(state, writes.drop_last().drop_last()) == state);
        assert(replay(state, writes.drop_last()) == state.insert(writes[0].0, writes[0].1));
    }
}

/// The debit comes first: where a transfer breaks off between its two
/// writes, the amount is missing from the sum of all balances, and nothing
/// was spent twice.
pub proof fn lemma_debit_comes_first(state: State, from: Seq<u8>, to: Seq<u8>, amount: i64)
    requires
        state.dom().finite(),
        from.len() == ADDRESS_LEN,
        transfer_error(state, from, to, amount) is None,
        transfer_fits(state, from, to, amount),
    ensures
        total_balance(replay(state, transfer_writes(state, from, to, amount).take(1)))
            == total_balance(state) - amount,
{
    let first = transfer_writes(state, from, to, amount).take(1);
    let rest = debited(state, from, amount);
    assert(first.drop_last() =~= Seq::empty());
    assert(replay(state, first.drop_last()) == state);
    assert(replay(state, first) == state.insert(balance_key(from), amount_bytes(rest)));
    lemma_amount_round_trip(rest);
    lemma_total_after_write(state, balance_key(from), amount_bytes(rest));
}

/// Replaying what a delegated transfer wrote, on the state that it met,
/// gives the state that it left.
pub proof fn lemma_transfer_from_replays(
    state: State,
    spender: Seq<u8>,
    from: Seq<u8>,
    to: Seq<u8>,
    value: i64,
)
    requires
        from.len() == ADDRESS_LEN,
        to.len() == ADDRESS_LEN,
    ensures
        replay(state, transfer_from_writes(state, spender, from, to, value))
            == transfer_from_state(state, spender, from, to, value),
{
    let writes = transfer_from_writes(state, spender, from, to, value);
    if transfer_from_error(state, spender, from, to, value) is None {
        let two = writes.drop_last();
        let one = two.drop_last();
        assert(writes.len() == 3);
        assert(one.drop_last() =~= Seq::empty());
        assert(replay(state, one.drop_last()) == state);
        assert(replay(state, one) == state.insert(writes[0].0, writes[0].1));
        assert(replay(state, two) == replay(state, one).insert(writes[1].0, writes[1].1));
        lemma_namespaces_disjoint(from, spender, from);
        lemma_namespaces_disjoint(from, spender, to);
        assert(replay(state, writes) =~= transfer_from_state(state, spender, from, to, value));
    }
}

} // verus!
