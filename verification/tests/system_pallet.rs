use ledger_runtime::system::Pallet;

#[test]
fn init_system() {
    let mut system = Pallet::new();
    system.inc_block_number();
    system.inc_nonce(&"alice".to_string());

    assert_eq!(system.block_number(), 1);
    assert_eq!(system.nonce(&"alice".to_string()), 1);
    assert_eq!(system.nonce(&"bob".to_string()), 0);
}

#[test]
fn fresh_system_starts_at_zero() {
    let system = Pallet::new();
    assert_eq!(system.block_number(), 0);
    assert_eq!(system.nonce(&"alice".to_string()), 0);
}

#[test]
fn block_number_counts_calls() {
    let mut system = Pallet::new();
    for expected in 1..=5u32 {
        system.inc_block_number();
        assert_eq!(system.block_number(), expected);
    }
}

#[test]
fn nonce_counts_calls_per_account() {
    let mut system = Pallet::new();
    let alice = "alice".to_string();
    let bob = "bob".to_string();
    for expected in 1..=4u32 {
        system.inc_nonce(&alice);
        assert_eq!(system.nonce(&alice), expected);
        assert_eq!(system.nonce(&bob), 0);
    }
    system.inc_nonce(&bob);
    assert_eq!(system.nonce(&alice), 4);
    assert_eq!(system.nonce(&bob), 1);
}

#[test]
fn inc_nonce_leaves_block_number() {
    let mut system = Pallet::new();
    system.inc_nonce(&"alice".to_string());
    assert_eq!(system.block_number(), 0);
}
