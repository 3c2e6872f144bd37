use token_ledger::{allowance, approve, balanceOf, init, transfer, transferFrom};
use token_ledger::{Address, Error, Ledger, TOTAL_SUPPLY};

const DEPLOYER: Address = *b"00000000000000000001";
const FRIEND: Address = *b"00000000000000000002";

#[test]
fn operations_are_at_hand_from_the_crate_root() {
    let mut ledger = Ledger::new();
    init(&mut ledger, &DEPLOYER);
    assert_eq!(balanceOf(&ledger, &DEPLOYER), Ok(TOTAL_SUPPLY));
    assert_eq!(balanceOf(&ledger, &FRIEND), Err(Error::AccountNotFound));
    assert!(approve(&mut ledger, &DEPLOYER, &FRIEND, 3));
    assert_eq!(transferFrom(&mut ledger, &FRIEND, &DEPLOYER, &FRIEND, 2), Ok(2));
    assert_eq!(transfer(&mut ledger, &FRIEND, &DEPLOYER, 1), Ok(TOTAL_SUPPLY - 1));
    assert_eq!(allowance(&ledger, &DEPLOYER, &FRIEND), Ok(1));
}
