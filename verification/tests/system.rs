use state_machine::system::Pallet;

#[test]
fn init_system() {
    let mut system = Pallet::new();

    assert_eq!(system.block_number(), 0);
    assert_eq!(system.nonce(&"dev0".to_string()), 0);

    system.inc_block_number();
    system.inc_nonce(&"dev0".to_string());

    assert_eq!(system.block_number(), 1);
    assert_eq!(system.nonce(&"dev0".to_string()), 1);

    system.inc_block_number();
    system.inc_nonce(&"dev0".to_string());
    system.inc_nonce(&"dev1".to_string());

    assert_eq!(system.block_number(), 2);
    assert_eq!(system.nonce(&"dev0".to_string()), 2);
    assert_eq!(system.nonce(&"dev1".to_string()), 1);
}
