//! The ledger and its operations.
//!
//! A ledger is a key-value store of balances and allowances, the journal of
//! the writes made to it, and the log of the transfers made on it. Every
//! operation tests all its conditions before it writes, so a refused
//! operation leaves the ledger as it was.

use crate::amount::{amount_bytes, decode_amount, encode_amount, lemma_amount_round_trip};
use crate::error::Error;
use crate::event::TransferEvent;
use crate::keys::{lemma_namespaces_disjoint, make_approve_key, Address};
use crate::laws::{
    lemma_spend_lowers_allowance, lemma_transfer_conserves, lemma_transfer_from_conserves,
    lemma_transfer_to_self,
};
use crate::model::{
    allowance_of, allowance_read, approve_state, approve_writes, balance_of, balance_read,
    credited, debited, init_state, init_writes, slot, transfer_error, transfer_fits,
    transfer_from_error, transfer_from_fits, transfer_from_state, transfer_from_writes,
    transfer_state, transfer_writes, Slot, TOTAL_SUPPLY,
};
use crate::store::{bytes_equal, Store};
use crate::supply::total_balance;
use vstd::prelude::*;
use vstd::slice::slice_to_vec;

verus! {

/// One write to the store.
pub struct Write {
    /// The key written.
    pub key: Vec<u8>,
    /// The value stored under it.
    pub value: Vec<u8>,
}

/// The state of the token: what is stored, what the operations wrote, and
/// the transfers they made.
pub struct Ledger {
    /// Balances and allowances, by key.
    pub store: Store,
    /// Every write that an operation made, oldest first.
    pub writes: Vec<Write>,
    /// One record for each transfer, oldest first.
    pub events: Vec<TransferEvent>,
}

impl Ledger {
    /// The writes that the operations made, oldest first, each as its key
    /// and its value.
    pub open spec fn journal(&self) -> Seq<(Seq<u8>, Seq<u8>)> {
        Seq::new(self.writes@.len(), |i: int| (self.writes@[i].key@, self.writes@[i].value@))
    }

    /// A ledger that holds nothing and has seen no operation.
    pub fn new() -> (ledger: Ledger)
        ensures
            ledger.store@ == Map::<Seq<u8>, Seq<u8>>::empty(),
            ledger.journal() == Seq::<(Seq<u8>, Seq<u8>)>::empty(),
            ledger.events@ == Seq::<TransferEvent>::empty(),
    {
        let ledger = Ledger { store: Store::new(), writes: Vec::new(), events: Vec::new() };
        assert(ledger.journal() =~= Seq::<(Seq<u8>, Seq<u8>)>::empty());
        ledger
    }

    /// Takes over what the persistent store holds under `key`. This is no
    /// write of an operation: the journal stays as it is.
    pub fn load(&mut self, key: &[u8], value: &[u8])
        ensures
            final(self).store@ == old(self).store@.insert(key@, value@),
            final(self).journal() == old(self).journal(),
            final(self).events@ == old(self).events@,
    {
        self.store.write(key, value);
    }

    /// Stores `value` under `key` and enters the write in the journal.
    pub fn write(&mut self, key: &[u8], value: &[u8])
        ensures
            final(self).store@ == old(self).store@.insert(key@, value@),
            final(self).journal() == old(self).journal().push((key@, value@)),
            final(self).events@ == old(self).events@,
    {
        self.store.write(key, value);
        self.writes.push(Write { key: slice_to_vec(key), value: slice_to_vec(value) });
        assert(self.journal() =~= old(self).journal().push((key@, value@)));
    }
}

/// Reads `key` as an amount.
fn read_slot(store: &Store, key: &[u8]) -> (found: Slot)
    ensures
        found == slot(store@, key@),
{
    match store.read(key) {
        None => Slot::Vacant,
        Some(bytes) => match decode_amount(bytes.as_slice()) {
            None => Slot::Corrupt,
            Some(v) => Slot::Holds(v),
        },
    }
}

/// The balance of `addr`. An account that was never credited is not found;
/// a stored value that is no amount is a read failure.
pub fn _balance_of(ledger: &Ledger, addr: &Address) -> (r: Result<i64, Error>)
    ensures
        r == balance_read(ledger.store@, addr@),
{
    match read_slot(&ledger.store, addr.as_slice()) {
        Slot::Vacant => Err(Error::AccountNotFound),
        Slot::Corrupt => Err(Error::StoreReadFailure),
        Slot::Holds(v) => Ok(v),
    }
}

/// Stores `value` as the balance of `addr`.
pub fn set_balance(ledger: &mut Ledger, addr: &Address, value: i64)
    ensures
        final(ledger).store@ == old(ledger).store@.insert(addr@, amount_bytes(value as int)),
        final(ledger).journal() == old(ledger).journal().push(
            (addr@, amount_bytes(value as int)),
        ),
        final(ledger).events@ == old(ledger).events@,
        balance_of(final(ledger).store@, addr@) == value,
{
    let bytes = encode_amount(value);
    ledger.write(addr.as_slice(), bytes.as_slice());
    proof {
        lemma_amount_round_trip(value as int);
    }
}

/// What `spender` may still move out of the balance of `owner`: zero where
/// nothing was granted; a stored value that is no amount is a read failure.
pub fn get_allowance(ledger: &Ledger, owner: &Address, spender: &Address) -> (r: Result<
    i64,
    Error,
>)
    ensures
        r == allowance_read(ledger.store@, owner@, spender@),
{
    let key = make_approve_key(owner, spender);
    match read_slot(&ledger.store, key.as_slice()) {
        Slot::Vacant => Ok(0),
        Slot::Corrupt => Err(Error::StoreReadFailure),
        Slot::Holds(v) => Ok(v),
    }
}

/// Stores `value` as the allowance that `owner` grants to `spender`,
/// replacing the one before.
pub fn set_allowance(ledger: &mut Ledger, owner: &Address, spender: &Address, value: i64)
    ensures
        final(ledger).store@ == approve_state(old(ledger).store@, owner@, spender@, value),
        final(ledger).journal() == old(ledger).journal() + approve_writes(owner@, spender@, value),
        final(ledger).events@ == old(ledger).events@,
        allowance_of(final(ledger).store@, owner@, spender@) == value,
{
    let key = make_approve_key(owner, spender);
    let bytes = encode_amount(value);
    ledger.write(key.as_slice(), bytes.as_slice());
    assert(ledger.journal() =~= old(ledger).journal() + approve_writes(owner@, spender@, value));
    proof {
        lemma_amount_round_trip(value as int);
    }
}

/// Tests every condition of a transfer, with no write made, and returns
/// the balance of the source and what the recipient holds.
fn check_transfer(ledger: &Ledger, from: &Address, to: &Address, amount: i64) -> (r: Result<
    (i64, i64),
    Error,
>)
    ensures
        match r {
            Ok((balance, held)) => {
                &&& transfer_error(ledger.store@, from@, to@, amount) is None
                &&& balance == balance_of(ledger.store@, from@)
                &&& held == balance_of(ledger.store@, to@)
            },
            Err(e) => transfer_error(ledger.store@, from@, to@, amount) == Some(e),
        },
{
    let balance = match _balance_of(ledger, from) {
        Ok(balance) => balance,
        Err(e) => {
            return Err(e);
        },
    };
    if balance < amount {
        return Err(Error::InsufficientBalance { balance, amount });
    }
    match read_slot(&ledger.store, to.as_slice()) {
        Slot::Vacant => Ok((balance, 0)),
        Slot::Corrupt => Err(Error::StoreReadFailure),
        Slot::Holds(held) => Ok((balance, held)),
    }
}

/// Whether the balances that a transfer would write are representable. A
/// transfer that would be refused writes none.
pub fn transfer_in_range(ledger: &Ledger, sender: &Address, to: &Address, amount: i64) -> (ok:
    bool)
    ensures
        ok == transfer_fits(ledger.store@, sender@, to@, amount),
{
    match check_transfer(ledger, sender, to, amount) {
        Err(_) => true,
        Ok((balance, held)) => match balance.checked_sub(amount) {
            None => false,
            Some(_) => bytes_equal(sender.as_slice(), to.as_slice()) || held.checked_add(
                amount,
            ).is_some(),
        },
    }
}

/// Tests every condition of a transfer, with no write made, and returns
/// the two balances to write: that of the source, then that of the
/// recipient.
fn plan_transfer(ledger: &Ledger, from: &Address, to: &Address, amount: i64) -> (r: Result<
    (i64, i64),
    Error,
>)
    requires
        transfer_fits(ledger.store@, from@, to@, amount),
    ensures
        match r {
            Ok((rest, credit)) => {
                &&& transfer_error(ledger.store@, from@, to@, amount) is None
                &&& rest == debited(ledger.store@, from@, amount)
                &&& credit == credited(ledger.store@, from@, to@, amount)
            },
            Err(e) => transfer_error(ledger.store@, from@, to@, amount) == Some(e),
        },
{
    match check_transfer(ledger, from, to, amount) {
        Err(e) => Err(e),
        Ok((balance, held)) => {
            let rest = balance - amount;
            let base = if bytes_equal(from.as_slice(), to.as_slice()) {
                rest
            } else {
                held
            };
            Ok((rest, base + amount))
        },
    }
}

/// Writes the balance of the source, then that of the recipient, and
/// records the transfer.
fn settle(ledger: &mut Ledger, from: &Address, to: &Address, amount: i64, rest: i64, credit: i64)
    ensures
        final(ledger).store@ == old(ledger).store@.insert(from@, amount_bytes(rest as int)).insert(
            to@,
            amount_bytes(credit as int),
        ),
        final(ledger).journal() == old(ledger).journal() + seq![
            (from@, amount_bytes(rest as int)),
            (to@, amount_bytes(credit as int)),
        ],
        final(ledger).events@ == old(ledger).events@.push(
            TransferEvent { from: *from, to: *to, amount },
        ),
{
    set_balance(ledger, from, rest);
    set_balance(ledger, to, credit);
    ledger.events.push(TransferEvent { from: *from, to: *to, amount });
    assert(ledger.journal() =~= old(ledger).journal() + seq![
        (from@, amount_bytes(rest as int)),
        (to@, amount_bytes(credit as int)),
    ]);
}

/// Credits the whole supply to `sender`. Nothing is checked and no event
/// is recorded.
pub fn init(ledger: &mut Ledger, sender: &Address)
    ensures
        final(ledger).store@ == init_state(old(ledger).store@, sender@),
        final(ledger).journal() == old(ledger).journal() + init_writes(sender@),
        final(ledger).events@ == old(ledger).events@,
        balance_of(final(ledger).store@, sender@) == TOTAL_SUPPLY,
{
    set_balance(ledger, sender, TOTAL_SUPPLY);
    assert(ledger.journal() =~= old(ledger).journal() + init_writes(sender@));
}

/// Moves `amount` from `sender` to `to` and returns the new balance of
/// `to`.
///
/// The source must exist and hold at least `amount`; an absent recipient
/// counts as holding zero. On success both balances are written, the debit
/// first, and one event is recorded. On failure nothing changes. The sum of
/// all balances is the same before and after, and an account that pays
/// itself keeps its balance.
pub fn _transfer(ledger: &mut Ledger, sender: &Address, to: &Address, amount: i64) -> (r: Result<
    i64,
    Error,
>)
    requires
        transfer_fits(old(ledger).store@, sender@, to@, amount),
    ensures
        match r {
            Ok(credit) => {
                &&& transfer_error(old(ledger).store@, sender@, to@, amount) is None
                &&& credit == credited(old(ledger).store@, sender@, to@, amount)
            },
            Err(e) => transfer_error(old(ledger).store@, sender@, to@, amount) == Some(e),
        },
        final(ledger).store@ == transfer_state(old(ledger).store@, sender@, to@, amount),
        final(ledger).journal() == old(ledger).journal() + transfer_writes(
            old(ledger).store@,
            sender@,
            to@,
            amount,
        ),
        r is Err ==> final(ledger).store@ == old(ledger).store@ && final(ledger).journal() == old(
            ledger,
        ).journal(),
        final(ledger).events@ == if r is Ok {
            old(ledger).events@.push(TransferEvent { from: *sender, to: *to, amount })
        } else {
            old(ledger).events@
        },
        total_balance(final(ledger).store@) == total_balance(old(ledger).store@),
        sender@ == to@ ==> final(ledger).store@ == old(ledger).store@,
{
    proof {
        ledger.store.lemma_finite();
        lemma_transfer_conserves(ledger.store@, sender@, to@, amount);
        if sender@ == to@ {
            lemma_transfer_to_self(ledger.store@, sender@, amount);
        }
    }
    match plan_transfer(ledger, sender, to, amount) {
        Err(e) => {
            assert(ledger.journal() + Seq::<(Seq<u8>, Seq<u8>)>::empty() =~= ledger.journal());
            Err(e)
        },
        Ok((rest, credit)) => {
            settle(ledger, sender, to, amount, rest, credit);
            Ok(credit)
        },
    }
}

/// Moves `amount` from `sender` to `to`: see [`_transfer`].
pub fn transfer(ledger: &mut Ledger, sender: &Address, to: &Address, amount: i64) -> (r: Result<
    i64,
    Error,
>)
    requires
        transfer_fits(old(ledger).store@, sender@, to@, amount),
    ensures
        match r {
            Ok(credit) => {
                &&& transfer_error(old(ledger).store@, sender@, to@, amount) is None
                &&& credit == credited(old(ledger).store@, sender@, to@, amount)
            },
            Err(e) => transfer_error(old(ledger).store@, sender@, to@, amount) == Some(e),
        },
        final(ledger).store@ == transfer_state(old(ledger).store@, sender@, to@, amount),
        final(ledger).journal() == old(ledger).journal() + transfer_writes(
            old(ledger).store@,
            sender@,
            to@,
            amount,
        ),
        r is Err ==> final(ledger).store@ == old(ledger).store@ && final(ledger).journal() == old(
            ledger,
        ).journal(),
        final(ledger).events@ == if r is Ok {
            old(ledger).events@.push(TransferEvent { from: *sender, to: *to, amount })
        } else {
            old(ledger).events@
        },
        total_balance(final(ledger).store@) == total_balance(old(ledger).store@),
        sender@ == to@ ==> final(ledger).store@ == old(ledger).store@,
{
    _transfer(ledger, sender, to, amount)
}

/// Moves `amount` from `sender` to `to` where the balances to write are
/// representable, as [`transfer`] does; where they are not, does nothing
/// and returns `None`.
pub fn try_transfer(ledger: &mut Ledger, sender: &Address, to: &Address, amount: i64) -> (r: Option<
    Result<i64, Error>,
>)
    ensures
        r is Some <==> transfer_fits(old(ledger).store@, sender@, to@, amount),
        match r {
            Some(Ok(credit)) => {
                &&& transfer_error(old(ledger).store@, sender@, to@, amount) is None
                &&& credit == credited(old(ledger).store@, sender@, to@, amount)
                &&& final(ledger).store@ == transfer_state(
                    old(ledger).store@,
                    sender@,
                    to@,
                    amount,
                )
                &&& final(ledger).journal() == old(ledger).journal() + transfer_writes(
                    old(ledger).store@,
                    sender@,
                    to@,
                    amount,
                )
                &&& final(ledger).events@ == old(ledger).events@.push(
                    TransferEvent { from: *sender, to: *to, amount },
                )
            },
            Some(Err(e)) => {
                &&& transfer_error(old(ledger).store@, sender@, to@, amount) == Some(e)
                &&& final(ledger).store@ == old(ledger).store@
                &&& final(ledger).journal() == old(ledger).journal()
                &&& final(ledger).events@ == old(ledger).events@
            },
            None => {
                &&& final(ledger).store@ == old(ledger).store@
                &&& final(ledger).journal() == old(ledger).journal()
                &&& final(ledger).events@ == old(ledger).events@
            },
        },
        total_balance(final(ledger).store@) == total_balance(old(ledger).store@),
{
    if transfer_in_range(ledger, sender, to, amount) {
        Some(_transfer(ledger, sender, to, amount))
    } else {
        None
    }
}

/// Grants `spender` the right to move `value` out of the balance of
/// `sender`. The grant replaces the one before and is not held against the
/// balance. Always succeeds.
pub fn approve(ledger: &mut Ledger, sender: &Address, spender: &Address, value: i64) -> (ok: bool)
    ensures
        ok,
        final(ledger).store@ == approve_state(old(ledger).store@, sender@, spender@, value),
        final(ledger).journal() == old(ledger).journal() + approve_writes(
            sender@,
            spender@,
            value,
        ),
        final(ledger).events@ == old(ledger).events@,
        allowance_of(final(ledger).store@, sender@, spender@) == value,
{
    set_allowance(ledger, sender, spender, value);
    true
}

/// What `spender` may still move out of the balance of `owner`.
pub fn allowance(ledger: &Ledger, owner: &Address, spender: &Address) -> (r: Result<i64, Error>)
    ensures
        r == allowance_read(ledger.store@, owner@, spender@),
{
    get_allowance(ledger, owner, spender)
}

/// The balance of `sender`, who must hold one.
#[allow(non_snake_case)]
pub fn balanceOf(ledger: &Ledger, sender: &Address) -> (r: Result<i64, Error>)
    ensures
        r == balance_read(ledger.store@, sender@),
{
    _balance_of(ledger, sender)
}

/// Whether the allowance and the balances that a delegated transfer would
/// write are representable. One that would be refused writes none.
pub fn transfer_from_in_range(
    ledger: &Ledger,
    sender: &Address,
    from: &Address,
    to: &Address,
    value: i64,
) -> (ok: bool)
    ensures
        ok == transfer_from_fits(ledger.store@, sender@, from@, to@, value),
{
    match get_allowance(ledger, from, sender) {
        Err(_) => true,
        Ok(allowed) => if value > allowed {
            true
        } else {
            match check_transfer(ledger, from, to, value) {
                Err(_) => true,
                Ok(_) => allowed.checked_sub(value).is_some() && transfer_in_range(
                    ledger,
                    from,
                    to,
                    value,
                ),
            }
        },
    }
}

/// Moves `value` from `from` to `to` on the strength of the allowance that
/// `from` granted to `sender`, and returns the new balance of `to`.
///
/// The allowance must cover `value`, and the transfer must be possible as
/// for [`_transfer`]. On success the allowance is lowered by `value` and the
/// transfer is made and recorded. On failure nothing changes.
#[allow(non_snake_case)]
pub fn transferFrom(
    ledger: &mut Ledger,
    sender: &Address,
    from: &Address,
    to: &Address,
    value: i64,
) -> (r: Result<i64, Error>)
    requires
        transfer_from_fits(old(ledger).store@, sender@, from@, to@, value),
    ensures
        match r {
            Ok(credit) => {
                &&& transfer_from_error(old(ledger).store@, sender@, from@, to@, value) is None
                &&& credit == credited(old(ledger).store@, from@, to@, value)
            },
            Err(e) => transfer_from_error(old(ledger).store@, sender@, from@, to@, value) == Some(
                e,
            ),
        },
        final(ledger).store@ == transfer_from_state(
            old(ledger).store@,
            sender@,
            from@,
            to@,
            value,
        ),
        final(ledger).journal() == old(ledger).journal() + transfer_from_writes(
            old(ledger).store@,
            sender@,
            from@,
            to@,
            value,
        ),
        r is Err ==> final(ledger).store@ == old(ledger).store@ && final(ledger).journal() == old(
            ledger,
        ).journal(),
        final(ledger).events@ == if r is Ok {
            old(ledger).events@.push(TransferEvent { from: *from, to: *to, amount: value })
        } else {
            old(ledger).events@
        },
        r is Ok ==> allowance_of(final(ledger).store@, from@, sender@) == allowance_of(
            old(ledger).store@,
            from@,
            sender@,
        ) - value,
        r is Ok ==> allowance_of(final(ledger).store@, from@, sender@) >= 0,
        total_balance(final(ledger).store@) == total_balance(old(ledger).store@),
{
    proof {
        ledger.store.lemma_finite();
        lemma_transfer_from_conserves(ledger.store@, sender@, from@, to@, value);
        if transfer_from_error(ledger.store@, sender@, from@, to@, value) is None {
            lemma_spend_lowers_allowance(ledger.store@, sender@, from@, to@, value);
        }
    }
    assert(ledger.journal() + Seq::<(Seq<u8>, Seq<u8>)>::empty() =~= ledger.journal());
    let allowed = match get_allowance(ledger, from, sender) {
        Ok(allowed) => allowed,
        Err(e) => {
            return Err(e);
        },
    };
    if value > allowed {
        return Err(Error::InsufficientAllowance { allowed, amount: value });
    }
    match plan_transfer(ledger, from, to, value) {
        Err(e) => Err(e),
        Ok((rest, credit)) => {
            proof {
                lemma_namespaces_disjoint(from@, sender@, from@);
                lemma_namespaces_disjoint(from@, sender@, to@);
            }
            set_allowance(ledger, from, sender, allowed - value);
            settle(ledger, from, to, value, rest, credit);
            assert(ledger.store@ =~= transfer_from_state(
                old(ledger).store@,
                sender@,
                from@,
                to@,
                value,
            ));
            assert(ledger.journal() =~= old(ledger).journal() + transfer_from_writes(
                old(ledger).store@,
                sender@,
                from@,
                to@,
                value,
            ));
            Ok(credit)
        },
    }
}

/// Moves `value` from `from` to `to` on an allowance where the amounts to
/// write are representable, as [`transferFrom`] does; where they are not,
/// does nothing and returns `None`.
pub fn try_transfer_from(
    ledger: &mut Ledger,
    sender: &Address,
    from: &Address,
    to: &Address,
    value: i64,
) -> (r: Option<Result<i64, Error>>)
    ensures
        r is Some <==> transfer_from_fits(old(ledger).store@, sender@, from@, to@, value),
        match r {
            Some(Ok(credit)) => {
                &&& transfer_from_error(old(ledger).store@, sender@, from@, to@, value) is None
                &&& credit == credited(old(ledger).store@, from@, to@, value)
                &&& final(ledger).store@ == transfer_from_state(
                    old(ledger).store@,
                    sender@,
                    from@,
                    to@,
                    value,
                )
                &&& final(ledger).journal() == old(ledger).journal() + transfer_from_writes(
                    old(ledger).store@,
                    sender@,
                    from@,
                    to@,
                    value,
                )
                &&& final(ledger).events@ == old(ledger).events@.push(
                    TransferEvent { from: *from, to: *to, amount: value },
                )
            },
            Some(Err(e)) => {
                &&& transfer_from_error(old(ledger).store@, sender@, from@, to@, value) == Some(e)
                &&& final(ledger).store@ == old(ledger).store@
                &&& final(ledger).journal() == old(ledger).journal()
                &&& final(ledger).events@ == old(ledger).events@
            },
            None => {
                &&& final(ledger).store@ == old(ledger).store@
                &&& final(ledger).journal() == old(ledger).journal()
                &&& final(ledger).events@ == old(ledger).events@
            },
        },
        total_balance(final(ledger).store@) == total_balance(old(ledger).store@),
{
    if transfer_from_in_range(ledger, sender, from, to, value) {
        Some(transferFrom(ledger, sender, from, to, value))
    } else {
        None
    }
}

} // verus!
