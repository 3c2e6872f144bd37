//! The sum of all balances, and how a write changes it.

use crate::keys::ADDRESS_LEN;
use crate::model::balance_of;
use crate::store::State;
use vstd::prelude::*;
use vstd::set::fold::{is_fun_commutative, lemma_fold_empty, lemma_fold_insert};

verus! {

/// The step of a sum: adds the weight of one key.
pub open spec fn add_weight(weight: spec_fn(Seq<u8>) -> int) -> spec_fn(int, Seq<u8>) -> int {
    |acc: int, key: Seq<u8>| acc + weight(key)
}

/// The sum of `weight` over a finite set of keys.
pub open spec fn sum_over(keys: Set<Seq<u8>>, weight: spec_fn(Seq<u8>) -> int) -> int {
    keys.fold(0int, add_weight(weight))
}

/// The accounts of a state: its keys of address length.
pub open spec fn accounts(state: State) -> Set<Seq<u8>> {
    state.dom().filter(|key: Seq<u8>| key.len() == ADDRESS_LEN)
}

/// The balance of each account of `state`.
pub open spec fn balances(state: State) -> spec_fn(Seq<u8>) -> int {
    |who: Seq<u8>| balance_of(state, who)
}

/// The sum of the balances of all accounts.
pub open spec fn total_balance(state: State) -> int {
    sum_over(accounts(state), balances(state))
}

/// The sum over no keys is zero.
pub proof fn lemma_sum_empty(weight: spec_fn(Seq<u8>) -> int)
    ensures
        sum_over(Set::empty(), weight) == 0,
{
    lemma_fold_empty::<Seq<u8>, int>(0int, add_weight(weight));
}

/// A new key adds its weight to the sum.
pub proof fn lemma_sum_insert(keys: Set<Seq<u8>>, weight: spec_fn(Seq<u8>) -> int, key: Seq<u8>)
    requires
        keys.finite(),
        !keys.contains(key),
    ensures
        sum_over(keys.insert(key), weight) == sum_over(keys, weight) + weight(key),
{
    assert(is_fun_commutative(add_weight(weight)));
    lemma_fold_insert(keys, 0int, add_weight(weight), key);
}

/// The sum is the weight of any one key plus the sum over the rest.
pub proof fn lemma_sum_remove(keys: Set<Seq<u8>>, weight: spec_fn(Seq<u8>) -> int, key: Seq<u8>)
    requires
        keys.finite(),
        keys.contains(key),
    ensures
        sum_over(keys, weight) == sum_over(keys.remove(key), weight) + weight(key),
{
    lemma_sum_insert(keys.remove(key), weight, key);
    assert(keys.remove(key).insert(key) =~= keys);
}

/// Weights that agree on every key of the set have the same sum.
pub proof fn lemma_sum_agree(
    keys: Set<Seq<u8>>,
    first: spec_fn(Seq<u8>) -> int,
    second: spec_fn(Seq<u8>) -> int,
)
    requires
        keys.finite(),
        forall|key: Seq<u8>| keys.contains(key) ==> first(key) == second(key),
    ensures
        sum_over(keys, first) == sum_over(keys, second),
    decreases keys.len(),
{
    if keys.is_empty() {
        assert(keys =~= Set::empty());
        lemma_sum_empty(first);
        lemma_sum_empty(second);
    } else {
        let key = keys.choose();
        lemma_sum_remove(keys, first, key);
        lemma_sum_remove(keys, second, key);
        lemma_sum_agree(keys.remove(key), first, second);
    }
}

/// A sum of weights that are not negative is not negative.
pub proof fn lemma_sum_not_negative(keys: Set<Seq<u8>>, weight: spec_fn(Seq<u8>) -> int)
    requires
        keys.finite(),
        forall|key: Seq<u8>| keys.contains(key) ==> weight(key) >= 0,
    ensures
        sum_over(keys, weight) >= 0,
    decreases keys.len(),
{
    if keys.is_empty() {
        assert(keys =~= Set::empty());
        lemma_sum_empty(weight);
    } else {
        let key = keys.choose();
        lemma_sum_remove(keys, weight, key);
        lemma_sum_not_negative(keys.remove(key), weight);
    }
}

/// A state with finitely many keys has finitely many accounts.
pub proof fn lemma_accounts_finite(state: State)
    requires
        state.dom().finite(),
    ensures
        accounts(state).finite(),
{
    state.dom().lemma_len_filter(|key: Seq<u8>| key.len() == ADDRESS_LEN);
}

/// A state without keys holds nothing.
pub proof fn lemma_total_of_empty()
    ensures
        total_balance(State::empty()) == 0,
{
    assert(accounts(State::empty()) =~= Set::empty());
    lemma_sum_empty(balances(State::empty()));
}

/// A write changes the total by what it changes of the balance under its
/// key; a write under a key that is no address changes nothing of it.
pub proof fn lemma_total_after_write(state: State, key: Seq<u8>, value: Seq<u8>)
    requires
        state.dom().finite(),
    ensures
        key.len() == ADDRESS_LEN ==> total_balance(state.insert(key, value)) == total_balance(state)
            - balance_of(state, key) + balance_of(state.insert(key, value), key),
        key.len() != ADDRESS_LEN ==> total_balance(state.insert(key, value)) == total_balance(
            state,
        ),
{
    let after = state.insert(key, value);
    lemma_accounts_finite(state);
    lemma_accounts_finite(after);
    if key.len() == ADDRESS_LEN {
        let others = accounts(after).remove(key);
        assert(accounts(after).contains(key));
        lemma_sum_remove(accounts(after), balances(after), key);
        lemma_sum_agree(others, balances(after), balances(state));
        if accounts(state).contains(key) {
            assert(accounts(state).remove(key) =~= others);
            lemma_sum_remove(accounts(state), balances(state), key);
        } else {
            assert(accounts(state) =~= others);
        }
    } else {
        assert(accounts(after) =~= accounts(state));
        lemma_sum_agree(accounts(state), balances(after), balances(state));
    }
}

/// Where no balance is negative, no balance exceeds the total.
pub proof fn lemma_balance_within_total(state: State, who: Seq<u8>)
    requires
        state.dom().finite(),
        who.len() == ADDRESS_LEN,
        forall|key: Seq<u8>| balance_of(state, key) >= 0,
    ensures
        balance_of(state, who) <= total_balance(state),
{
    lemma_accounts_finite(state);
    lemma_sum_not_negative(accounts(state), balances(state));
    if accounts(state).contains(who) {
        lemma_sum_remove(accounts(state), balances(state), who);
        lemma_sum_not_negative(accounts(state).remove(who), balances(state));
    }
}

} // verus!
