use token_ledger::amount::decode_amount;
use token_ledger::error::Error;
use token_ledger::keys::{make_approve_key, Address};
use token_ledger::ledger::{
    _balance_of, _transfer, allowance, approve, balanceOf, get_allowance, init, set_allowance,
    set_balance, transfer, transferFrom, transfer_from_in_range, transfer_in_range, try_transfer,
    try_transfer_from, Ledger,
};
use token_ledger::model::TOTAL_SUPPLY;

const SENDER1_ADDR: Address = *b"00000000000000000001";
const SENDER2_ADDR: Address = *b"00000000000000000002";
const SENDER3_ADDR: Address = *b"00000000000000000003";

fn started() -> Ledger {
    let mut ledger = Ledger::new();
    init(&mut ledger, &SENDER1_ADDR);
    ledger
}

#[test]
fn test_init() {
    let mut ledger = Ledger::new();
    init(&mut ledger, &SENDER1_ADDR);
    let stored = ledger.store.read(&SENDER1_ADDR).unwrap();
    let v: i64 = decode_amount(stored).unwrap();
    assert_eq!(TOTAL_SUPPLY, v);
}

#[test]
fn test_transfer() {
    let mut ledger = started();

    let balance: i64 = transfer(&mut ledger, &SENDER1_ADDR, &SENDER2_ADDR, 100i64).unwrap();
    assert_eq!(100, balance);

    let b1: i64 = balanceOf(&ledger, &SENDER1_ADDR).unwrap();
    assert_eq!(TOTAL_SUPPLY - 100, b1);
    let b2: i64 = balanceOf(&ledger, &SENDER2_ADDR).unwrap();
    assert_eq!(100, b2);

    let balance: i64 = transfer(&mut ledger, &SENDER2_ADDR, &SENDER1_ADDR, 100i64).unwrap();
    assert_eq!(TOTAL_SUPPLY, balance);

    let b1: i64 = balanceOf(&ledger, &SENDER1_ADDR).unwrap();
    assert_eq!(TOTAL_SUPPLY, b1);
    let b2: i64 = balanceOf(&ledger, &SENDER2_ADDR).unwrap();
    assert_eq!(0, b2);
}

#[test]
fn test_approve() {
    let mut ledger = started();
    assert_eq!(true, approve(&mut ledger, &SENDER1_ADDR, &SENDER2_ADDR, 100i64));
    assert_eq!(Ok(100), allowance(&ledger, &SENDER1_ADDR, &SENDER2_ADDR));
}

#[test]
fn test_transfer_from() {
    let mut ledger = started();
    assert_eq!(true, approve(&mut ledger, &SENDER1_ADDR, &SENDER2_ADDR, 100i64));

    transferFrom(&mut ledger, &SENDER2_ADDR, &SENDER1_ADDR, &SENDER2_ADDR, 100i64).unwrap();

    let b1: i64 = balanceOf(&ledger, &SENDER1_ADDR).unwrap();
    assert_eq!(TOTAL_SUPPLY - 100, b1);
    let b2: i64 = balanceOf(&ledger, &SENDER2_ADDR).unwrap();
    assert_eq!(100, b2);
}

#[test]
fn total_supply_is_one_million() {
    assert_eq!(TOTAL_SUPPLY, 1_000_000);
}

#[test]
fn init_records_one_write_and_no_event() {
    let ledger = started();
    assert_eq!(ledger.writes.len(), 1);
    assert_eq!(ledger.writes[0].key, SENDER1_ADDR.to_vec());
    assert_eq!(ledger.writes[0].value, vec![0, 0, 0, 0, 0, 0x0f, 0x42, 0x40]);
    assert!(ledger.events.is_empty());
}

#[test]
fn init_twice_credits_the_supply_again() {
    let mut ledger = started();
    transfer(&mut ledger, &SENDER1_ADDR, &SENDER2_ADDR, 250).unwrap();
    init(&mut ledger, &SENDER1_ADDR);
    assert_eq!(balanceOf(&ledger, &SENDER1_ADDR), Ok(TOTAL_SUPPLY));
    assert_eq!(balanceOf(&ledger, &SENDER2_ADDR), Ok(250));
}

#[test]
fn scenario_transfer_there_and_back() {
    let mut ledger = started();
    assert_eq!(transfer(&mut ledger, &SENDER1_ADDR, &SENDER2_ADDR, 100), Ok(100));
    assert_eq!(balanceOf(&ledger, &SENDER1_ADDR), Ok(999_900));
    assert_eq!(balanceOf(&ledger, &SENDER2_ADDR), Ok(100));
    assert_eq!(transfer(&mut ledger, &SENDER2_ADDR, &SENDER1_ADDR, 100), Ok(1_000_000));
    assert_eq!(balanceOf(&ledger, &SENDER1_ADDR), Ok(1_000_000));
    assert_eq!(balanceOf(&ledger, &SENDER2_ADDR), Ok(0));
}

#[test]
fn scenario_approve_spend_then_refused() {
    let mut ledger = started();
    assert!(approve(&mut ledger, &SENDER1_ADDR, &SENDER2_ADDR, 100));
    assert_eq!(
        transferFrom(&mut ledger, &SENDER2_ADDR, &SENDER1_ADDR, &SENDER2_ADDR, 100),
        Ok(100)
    );
    assert_eq!(allowance(&ledger, &SENDER1_ADDR, &SENDER2_ADDR), Ok(0));
    assert_eq!(balanceOf(&ledger, &SENDER1_ADDR), Ok(TOTAL_SUPPLY - 100));
    assert_eq!(balanceOf(&ledger, &SENDER2_ADDR), Ok(100));
    assert_eq!(
        transferFrom(&mut ledger, &SENDER2_ADDR, &SENDER1_ADDR, &SENDER2_ADDR, 1),
        Err(Error::InsufficientAllowance { allowed: 0, amount: 1 })
    );
    assert_eq!(balanceOf(&ledger, &SENDER1_ADDR), Ok(TOTAL_SUPPLY - 100));
    assert_eq!(balanceOf(&ledger, &SENDER2_ADDR), Ok(100));
}

#[test]
fn transfer_writes_debit_before_credit_and_records_one_event() {
    let mut ledger = started();
    let before = ledger.writes.len();
    assert_eq!(_transfer(&mut ledger, &SENDER1_ADDR, &SENDER2_ADDR, 7), Ok(7));
    assert_eq!(ledger.writes.len(), before + 2);
    assert_eq!(ledger.writes[before].key, SENDER1_ADDR.to_vec());
    assert_eq!(decode_amount(&ledger.writes[before].value), Some(TOTAL_SUPPLY - 7));
    assert_eq!(ledger.writes[before + 1].key, SENDER2_ADDR.to_vec());
    assert_eq!(decode_amount(&ledger.writes[before + 1].value), Some(7));
    assert_eq!(ledger.events.len(), 1);
    assert_eq!(ledger.events[0].from, SENDER1_ADDR);
    assert_eq!(ledger.events[0].to, SENDER2_ADDR);
    assert_eq!(ledger.events[0].amount, 7);
}

#[test]
fn transfer_from_an_unknown_account_is_refused() {
    let mut ledger = started();
    assert_eq!(
        transfer(&mut ledger, &SENDER2_ADDR, &SENDER1_ADDR, 1),
        Err(Error::AccountNotFound)
    );
    assert_eq!(ledger.writes.len(), 1);
    assert!(ledger.events.is_empty());
    assert_eq!(balanceOf(&ledger, &SENDER1_ADDR), Ok(TOTAL_SUPPLY));
}

#[test]
fn transfer_of_more_than_the_balance_changes_nothing() {
    let mut ledger = started();
    transfer(&mut ledger, &SENDER1_ADDR, &SENDER2_ADDR, 40).unwrap();
    let writes = ledger.writes.len();
    assert_eq!(
        transfer(&mut ledger, &SENDER2_ADDR, &SENDER1_ADDR, 41),
        Err(Error::InsufficientBalance { balance: 40, amount: 41 })
    );
    assert_eq!(balanceOf(&ledger, &SENDER1_ADDR), Ok(TOTAL_SUPPLY - 40));
    assert_eq!(balanceOf(&ledger, &SENDER2_ADDR), Ok(40));
    assert_eq!(ledger.writes.len(), writes);
    assert_eq!(ledger.events.len(), 1);
}

#[test]
fn transfer_of_zero_succeeds_and_records_an_event() {
    let mut ledger = started();
    assert_eq!(transfer(&mut ledger, &SENDER1_ADDR, &SENDER2_ADDR, 0), Ok(0));
    assert_eq!(balanceOf(&ledger, &SENDER1_ADDR), Ok(TOTAL_SUPPLY));
    assert_eq!(balanceOf(&ledger, &SENDER2_ADDR), Ok(0));
    assert_eq!(ledger.events.len(), 1);
    assert_eq!(ledger.events[0].amount, 0);
}

#[test]
fn transfer_of_the_whole_balance_leaves_zero() {
    let mut ledger = started();
    assert_eq!(transfer(&mut ledger, &SENDER1_ADDR, &SENDER2_ADDR, TOTAL_SUPPLY), Ok(TOTAL_SUPPLY));
    assert_eq!(balanceOf(&ledger, &SENDER1_ADDR), Ok(0));
}

#[test]
fn transfer_to_oneself_keeps_the_balance_and_records_one_event() {
    let mut ledger = started();
    assert_eq!(transfer(&mut ledger, &SENDER1_ADDR, &SENDER1_ADDR, 300), Ok(TOTAL_SUPPLY));
    assert_eq!(balanceOf(&ledger, &SENDER1_ADDR), Ok(TOTAL_SUPPLY));
    assert_eq!(ledger.events.len(), 1);
    assert_eq!(ledger.events[0].from, SENDER1_ADDR);
    assert_eq!(ledger.events[0].to, SENDER1_ADDR);
    assert_eq!(ledger.events[0].amount, 300);
    assert_eq!(ledger.writes.len(), 3);
    assert_eq!(decode_amount(&ledger.writes[1].value), Some(TOTAL_SUPPLY - 300));
    assert_eq!(decode_amount(&ledger.writes[2].value), Some(TOTAL_SUPPLY));
}

#[test]
fn transfer_to_oneself_of_more_than_the_balance_is_refused() {
    let mut ledger = started();
    assert_eq!(
        transfer(&mut ledger, &SENDER1_ADDR, &SENDER1_ADDR, TOTAL_SUPPLY + 1),
        Err(Error::InsufficientBalance { balance: TOTAL_SUPPLY, amount: TOTAL_SUPPLY + 1 })
    );
    assert!(ledger.events.is_empty());
}

#[test]
fn transfer_to_a_corrupt_recipient_is_refused_before_any_write() {
    let mut ledger = started();
    ledger.load(&SENDER2_ADDR, &[1, 2, 3]);
    assert_eq!(
        transfer(&mut ledger, &SENDER1_ADDR, &SENDER2_ADDR, 5),
        Err(Error::StoreReadFailure)
    );
    assert_eq!(balanceOf(&ledger, &SENDER1_ADDR), Ok(TOTAL_SUPPLY));
    assert_eq!(ledger.writes.len(), 1);
    assert!(ledger.events.is_empty());
}

#[test]
fn transfer_from_a_corrupt_source_is_a_read_failure() {
    let mut ledger = Ledger::new();
    ledger.load(&SENDER1_ADDR, &[0; 9]);
    assert_eq!(
        transfer(&mut ledger, &SENDER1_ADDR, &SENDER2_ADDR, 0),
        Err(Error::StoreReadFailure)
    );
}

#[test]
fn balance_of_tells_absent_from_zero_and_from_corrupt() {
    let mut ledger = started();
    assert_eq!(balanceOf(&ledger, &SENDER2_ADDR), Err(Error::AccountNotFound));
    assert_eq!(_balance_of(&ledger, &SENDER2_ADDR), Err(Error::AccountNotFound));
    set_balance(&mut ledger, &SENDER2_ADDR, 0);
    assert_eq!(balanceOf(&ledger, &SENDER2_ADDR), Ok(0));
    ledger.load(&SENDER3_ADDR, &[]);
    assert_eq!(balanceOf(&ledger, &SENDER3_ADDR), Err(Error::StoreReadFailure));
}

#[test]
fn allowance_never_granted_is_zero() {
    let ledger = started();
    assert_eq!(allowance(&ledger, &SENDER1_ADDR, &SENDER2_ADDR), Ok(0));
    assert_eq!(get_allowance(&ledger, &SENDER2_ADDR, &SENDER1_ADDR), Ok(0));
}

#[test]
fn allowance_is_kept_by_direction() {
    let mut ledger = started();
    approve(&mut ledger, &SENDER1_ADDR, &SENDER2_ADDR, 5);
    assert_eq!(allowance(&ledger, &SENDER1_ADDR, &SENDER2_ADDR), Ok(5));
    assert_eq!(allowance(&ledger, &SENDER2_ADDR, &SENDER1_ADDR), Ok(0));
    assert_eq!(allowance(&ledger, &SENDER1_ADDR, &SENDER3_ADDR), Ok(0));
}

#[test]
fn allowance_that_is_corrupt_is_a_read_failure() {
    let mut ledger = started();
    let key = make_approve_key(&SENDER1_ADDR, &SENDER2_ADDR);
    ledger.load(&key, &[0xff; 7]);
    assert_eq!(allowance(&ledger, &SENDER1_ADDR, &SENDER2_ADDR), Err(Error::StoreReadFailure));
    assert_eq!(
        transferFrom(&mut ledger, &SENDER2_ADDR, &SENDER1_ADDR, &SENDER3_ADDR, 1),
        Err(Error::StoreReadFailure)
    );
}

#[test]
fn approve_twice_leaves_the_second_value() {
    let mut ledger = started();
    assert!(approve(&mut ledger, &SENDER1_ADDR, &SENDER2_ADDR, 70));
    assert!(approve(&mut ledger, &SENDER1_ADDR, &SENDER2_ADDR, 30));
    assert_eq!(allowance(&ledger, &SENDER1_ADDR, &SENDER2_ADDR), Ok(30));
}

#[test]
fn approve_may_exceed_the_balance_and_needs_no_account() {
    let mut ledger = Ledger::new();
    assert!(approve(&mut ledger, &SENDER2_ADDR, &SENDER3_ADDR, i64::MAX));
    assert_eq!(allowance(&ledger, &SENDER2_ADDR, &SENDER3_ADDR), Ok(i64::MAX));
    assert!(ledger.events.is_empty());
    assert_eq!(ledger.writes.len(), 1);
    assert_eq!(ledger.writes[0].key, make_approve_key(&SENDER2_ADDR, &SENDER3_ADDR));
}

#[test]
fn set_allowance_overwrites() {
    let mut ledger = Ledger::new();
    set_allowance(&mut ledger, &SENDER1_ADDR, &SENDER2_ADDR, 9);
    set_allowance(&mut ledger, &SENDER1_ADDR, &SENDER2_ADDR, 4);
    assert_eq!(get_allowance(&ledger, &SENDER1_ADDR, &SENDER2_ADDR), Ok(4));
}

#[test]
fn transfer_from_lowers_the_allowance_by_the_amount() {
    let mut ledger = started();
    approve(&mut ledger, &SENDER1_ADDR, &SENDER2_ADDR, 100);
    assert_eq!(
        transferFrom(&mut ledger, &SENDER2_ADDR, &SENDER1_ADDR, &SENDER3_ADDR, 30),
        Ok(30)
    );
    assert_eq!(allowance(&ledger, &SENDER1_ADDR, &SENDER2_ADDR), Ok(70));
    assert_eq!(balanceOf(&ledger, &SENDER1_ADDR), Ok(TOTAL_SUPPLY - 30));
    assert_eq!(balanceOf(&ledger, &SENDER3_ADDR), Ok(30));
    assert_eq!(balanceOf(&ledger, &SENDER2_ADDR), Err(Error::AccountNotFound));
    assert_eq!(ledger.events.len(), 1);
    assert_eq!(ledger.events[0].from, SENDER1_ADDR);
    assert_eq!(ledger.events[0].to, SENDER3_ADDR);
    assert_eq!(ledger.events[0].amount, 30);
}

#[test]
fn transfer_from_writes_allowance_then_debit_then_credit() {
    let mut ledger = started();
    approve(&mut ledger, &SENDER1_ADDR, &SENDER2_ADDR, 100);
    let before = ledger.writes.len();
    transferFrom(&mut ledger, &SENDER2_ADDR, &SENDER1_ADDR, &SENDER3_ADDR, 30).unwrap();
    assert_eq!(ledger.writes.len(), before + 3);
    assert_eq!(ledger.writes[before].key, make_approve_key(&SENDER1_ADDR, &SENDER2_ADDR));
    assert_eq!(decode_amount(&ledger.writes[before].value), Some(70));
    assert_eq!(ledger.writes[before + 1].key, SENDER1_ADDR.to_vec());
    assert_eq!(decode_amount(&ledger.writes[before + 1].value), Some(TOTAL_SUPPLY - 30));
    assert_eq!(ledger.writes[before + 2].key, SENDER3_ADDR.to_vec());
    assert_eq!(decode_amount(&ledger.writes[before + 2].value), Some(30));
}

#[test]
fn transfer_from_beyond_the_allowance_changes_nothing() {
    let mut ledger = started();
    approve(&mut ledger, &SENDER1_ADDR, &SENDER2_ADDR, 10);
    let writes = ledger.writes.len();
    assert_eq!(
        transferFrom(&mut ledger, &SENDER2_ADDR, &SENDER1_ADDR, &SENDER2_ADDR, 11),
        Err(Error::InsufficientAllowance { allowed: 10, amount: 11 })
    );
    assert_eq!(allowance(&ledger, &SENDER1_ADDR, &SENDER2_ADDR), Ok(10));
    assert_eq!(balanceOf(&ledger, &SENDER1_ADDR), Ok(TOTAL_SUPPLY));
    assert_eq!(ledger.writes.len(), writes);
    assert!(ledger.events.is_empty());
}

#[test]
fn transfer_from_without_a_grant_is_refused() {
    let mut ledger = started();
    assert_eq!(
        transferFrom(&mut ledger, &SENDER2_ADDR, &SENDER1_ADDR, &SENDER2_ADDR, 1),
        Err(Error::InsufficientAllowance { allowed: 0, amount: 1 })
    );
}

#[test]
fn transfer_from_beyond_the_balance_keeps_the_allowance() {
    let mut ledger = started();
    transfer(&mut ledger, &SENDER1_ADDR, &SENDER2_ADDR, 50).unwrap();
    approve(&mut ledger, &SENDER2_ADDR, &SENDER3_ADDR, 80);
    let writes = ledger.writes.len();
    assert_eq!(
        transferFrom(&mut ledger, &SENDER3_ADDR, &SENDER2_ADDR, &SENDER1_ADDR, 60),
        Err(Error::InsufficientBalance { balance: 50, amount: 60 })
    );
    assert_eq!(allowance(&ledger, &SENDER2_ADDR, &SENDER3_ADDR), Ok(80));
    assert_eq!(balanceOf(&ledger, &SENDER2_ADDR), Ok(50));
    assert_eq!(ledger.writes.len(), writes);
    assert_eq!(ledger.events.len(), 1);
}

#[test]
fn transfer_from_an_unknown_source_keeps_the_allowance() {
    let mut ledger = started();
    approve(&mut ledger, &SENDER2_ADDR, &SENDER3_ADDR, 80);
    assert_eq!(
        transferFrom(&mut ledger, &SENDER3_ADDR, &SENDER2_ADDR, &SENDER1_ADDR, 1),
        Err(Error::AccountNotFound)
    );
    assert_eq!(allowance(&ledger, &SENDER2_ADDR, &SENDER3_ADDR), Ok(80));
}

#[test]
fn in_range_accepts_what_the_scenarios_use() {
    let mut ledger = started();
    assert!(transfer_in_range(&ledger, &SENDER1_ADDR, &SENDER2_ADDR, 100));
    assert!(transfer_in_range(&ledger, &SENDER2_ADDR, &SENDER1_ADDR, 100));
    assert!(transfer_in_range(&ledger, &SENDER1_ADDR, &SENDER2_ADDR, TOTAL_SUPPLY + 1));
    approve(&mut ledger, &SENDER1_ADDR, &SENDER2_ADDR, 100);
    assert!(transfer_from_in_range(&ledger, &SENDER2_ADDR, &SENDER1_ADDR, &SENDER2_ADDR, 100));
    assert!(transfer_from_in_range(&ledger, &SENDER2_ADDR, &SENDER1_ADDR, &SENDER2_ADDR, 101));
}

#[test]
fn in_range_refuses_what_would_overflow() {
    let mut ledger = started();
    set_balance(&mut ledger, &SENDER2_ADDR, i64::MAX);
    assert!(!transfer_in_range(&ledger, &SENDER1_ADDR, &SENDER2_ADDR, 1));
    assert!(transfer_in_range(&ledger, &SENDER1_ADDR, &SENDER2_ADDR, 0));
    assert!(transfer_in_range(&ledger, &SENDER2_ADDR, &SENDER2_ADDR, i64::MAX));
    assert!(!transfer_in_range(&ledger, &SENDER1_ADDR, &SENDER3_ADDR, i64::MIN));
    approve(&mut ledger, &SENDER1_ADDR, &SENDER3_ADDR, 5);
    assert!(!transfer_from_in_range(&ledger, &SENDER3_ADDR, &SENDER1_ADDR, &SENDER2_ADDR, 1));
    assert!(!transfer_from_in_range(
        &ledger,
        &SENDER3_ADDR,
        &SENDER1_ADDR,
        &SENDER3_ADDR,
        i64::MIN
    ));
    assert!(transfer_from_in_range(&ledger, &SENDER3_ADDR, &SENDER1_ADDR, &SENDER3_ADDR, 5));
}

#[test]
fn sum_of_balances_stays_the_supply_over_a_run() {
    let mut ledger = started();
    let accounts = [SENDER1_ADDR, SENDER2_ADDR, SENDER3_ADDR];
    approve(&mut ledger, &SENDER1_ADDR, &SENDER3_ADDR, 500);
    let _ = transfer(&mut ledger, &SENDER1_ADDR, &SENDER2_ADDR, 1_000);
    let _ = transfer(&mut ledger, &SENDER2_ADDR, &SENDER3_ADDR, 999);
    let _ = transfer(&mut ledger, &SENDER2_ADDR, &SENDER3_ADDR, 2);
    let _ = transferFrom(&mut ledger, &SENDER3_ADDR, &SENDER1_ADDR, &SENDER2_ADDR, 400);
    let _ = transferFrom(&mut ledger, &SENDER3_ADDR, &SENDER1_ADDR, &SENDER2_ADDR, 101);
    let _ = transfer(&mut ledger, &SENDER3_ADDR, &SENDER3_ADDR, 10);
    let mut sum: i64 = 0;
    for who in accounts.iter() {
        let held = balanceOf(&ledger, who).unwrap();
        assert!(held >= 0);
        sum += held;
    }
    assert_eq!(sum, TOTAL_SUPPLY);
    assert_eq!(balanceOf(&ledger, &SENDER1_ADDR), Ok(TOTAL_SUPPLY - 1_400));
    assert_eq!(balanceOf(&ledger, &SENDER2_ADDR), Ok(401));
    assert_eq!(balanceOf(&ledger, &SENDER3_ADDR), Ok(999));
    assert_eq!(allowance(&ledger, &SENDER1_ADDR, &SENDER3_ADDR), Ok(100));
    assert!(allowance(&ledger, &SENDER1_ADDR, &SENDER3_ADDR).unwrap() >= 0);
    assert_eq!(ledger.events.len(), 4);
}

#[test]
fn try_transfer_does_what_transfer_does() {
    let mut ledger = started();
    assert_eq!(try_transfer(&mut ledger, &SENDER1_ADDR, &SENDER2_ADDR, 100), Some(Ok(100)));
    assert_eq!(balanceOf(&ledger, &SENDER1_ADDR), Ok(TOTAL_SUPPLY - 100));
    assert_eq!(balanceOf(&ledger, &SENDER2_ADDR), Ok(100));
    assert_eq!(ledger.events.len(), 1);
    assert_eq!(
        try_transfer(&mut ledger, &SENDER2_ADDR, &SENDER1_ADDR, 101),
        Some(Err(Error::InsufficientBalance { balance: 100, amount: 101 }))
    );
    assert_eq!(
        try_transfer(&mut ledger, &SENDER3_ADDR, &SENDER1_ADDR, 1),
        Some(Err(Error::AccountNotFound))
    );
    assert_eq!(ledger.events.len(), 1);
}

#[test]
fn try_transfer_leaves_alone_what_would_overflow() {
    let mut ledger = started();
    set_balance(&mut ledger, &SENDER2_ADDR, i64::MAX);
    let writes = ledger.writes.len();
    assert_eq!(try_transfer(&mut ledger, &SENDER1_ADDR, &SENDER2_ADDR, 1), None);
    assert_eq!(try_transfer(&mut ledger, &SENDER1_ADDR, &SENDER3_ADDR, i64::MIN), None);
    assert_eq!(balanceOf(&ledger, &SENDER1_ADDR), Ok(TOTAL_SUPPLY));
    assert_eq!(balanceOf(&ledger, &SENDER2_ADDR), Ok(i64::MAX));
    assert_eq!(ledger.writes.len(), writes);
    assert!(ledger.events.is_empty());
}

#[test]
fn try_transfer_from_does_what_transfer_from_does() {
    let mut ledger = started();
    approve(&mut ledger, &SENDER1_ADDR, &SENDER2_ADDR, 100);
    assert_eq!(
        try_transfer_from(&mut ledger, &SENDER2_ADDR, &SENDER1_ADDR, &SENDER3_ADDR, 60),
        Some(Ok(60))
    );
    assert_eq!(allowance(&ledger, &SENDER1_ADDR, &SENDER2_ADDR), Ok(40));
    assert_eq!(
        try_transfer_from(&mut ledger, &SENDER2_ADDR, &SENDER1_ADDR, &SENDER3_ADDR, 41),
        Some(Err(Error::InsufficientAllowance { allowed: 40, amount: 41 }))
    );
    assert_eq!(balanceOf(&ledger, &SENDER3_ADDR), Ok(60));
}

#[test]
fn try_transfer_from_leaves_alone_what_would_overflow() {
    let mut ledger = started();
    approve(&mut ledger, &SENDER1_ADDR, &SENDER3_ADDR, 5);
    set_balance(&mut ledger, &SENDER2_ADDR, i64::MAX);
    let writes = ledger.writes.len();
    assert_eq!(
        try_transfer_from(&mut ledger, &SENDER3_ADDR, &SENDER1_ADDR, &SENDER2_ADDR, 1),
        None
    );
    assert_eq!(
        try_transfer_from(&mut ledger, &SENDER3_ADDR, &SENDER1_ADDR, &SENDER3_ADDR, i64::MIN),
        None
    );
    assert_eq!(allowance(&ledger, &SENDER1_ADDR, &SENDER3_ADDR), Ok(5));
    assert_eq!(ledger.writes.len(), writes);
    assert!(ledger.events.is_empty());
}

#[test]
fn negative_amount_moves_funds_the_other_way() {
    let mut ledger = started();
    transfer(&mut ledger, &SENDER1_ADDR, &SENDER2_ADDR, 10).unwrap();
    assert_eq!(transfer(&mut ledger, &SENDER1_ADDR, &SENDER2_ADDR, -4), Ok(6));
    assert_eq!(balanceOf(&ledger, &SENDER1_ADDR), Ok(TOTAL_SUPPLY - 6));
    assert_eq!(balanceOf(&ledger, &SENDER2_ADDR), Ok(6));
}

#[test]
fn a_transfer_cut_short_after_the_debit_spends_nothing_twice() {
    let mut ledger = started();
    transfer(&mut ledger, &SENDER1_ADDR, &SENDER2_ADDR, 300).unwrap();
    let writes = ledger.writes.len();
    transfer(&mut ledger, &SENDER1_ADDR, &SENDER2_ADDR, 50).unwrap();

    let mut cut = Ledger::new();
    for write in ledger.writes[..writes + 1].iter() {
        cut.load(&write.key, &write.value);
    }
    let first = balanceOf(&cut, &SENDER1_ADDR).unwrap();
    let second = balanceOf(&cut, &SENDER2_ADDR).unwrap();
    assert_eq!(first, TOTAL_SUPPLY - 350);
    assert_eq!(second, 300);
    assert_eq!(first + second, TOTAL_SUPPLY - 50);
}

#[test]
fn replaying_the_journal_gives_the_state() {
    let mut ledger = started();
    approve(&mut ledger, &SENDER1_ADDR, &SENDER2_ADDR, 500);
    transfer(&mut ledger, &SENDER1_ADDR, &SENDER3_ADDR, 20).unwrap();
    transferFrom(&mut ledger, &SENDER2_ADDR, &SENDER1_ADDR, &SENDER2_ADDR, 120).unwrap();
    transfer(&mut ledger, &SENDER3_ADDR, &SENDER3_ADDR, 5).unwrap();

    let mut copy = Ledger::new();
    for write in ledger.writes.iter() {
        copy.load(&write.key, &write.value);
    }
    assert!(copy.writes.is_empty());
    for who in [SENDER1_ADDR, SENDER2_ADDR, SENDER3_ADDR].iter() {
        assert_eq!(balanceOf(&copy, who), balanceOf(&ledger, who));
    }
    assert_eq!(balanceOf(&copy, &SENDER1_ADDR), Ok(TOTAL_SUPPLY - 140));
    assert_eq!(allowance(&copy, &SENDER1_ADDR, &SENDER2_ADDR), Ok(380));
}
