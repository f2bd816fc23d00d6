use ledger_runtime::render::decimal_of;
use ledger_runtime::Runtime;

#[test]
fn end_to_end() {
    let mut runtime = Runtime::new();
    let alice = "alice".to_string();
    let bob = "bob".to_string();
    let charlie = "charlie".to_string();

    runtime.balances.set_balance(&alice, 100);

    runtime.system.inc_block_number();
    assert_eq!(runtime.system.block_number(), 1);

    runtime.system.inc_nonce(&alice);
    assert_eq!(runtime.system.nonce(&alice), 1);
    let res = runtime.balances.transfer(alice.clone(), bob.clone(), 30);
    assert_eq!(res, Ok(()));
    assert_eq!(runtime.balances.balance(&alice), 70);
    assert_eq!(runtime.balances.balance(&bob), 30);

    runtime.system.inc_nonce(&alice);
    assert_eq!(runtime.system.nonce(&alice), 2);
    let res = runtime.balances.transfer(alice.clone(), charlie.clone(), 20);
    assert_eq!(res, Ok(()));
    assert_eq!(runtime.balances.balance(&alice), 50);
    assert_eq!(runtime.balances.balance(&charlie), 20);
}

#[test]
fn fresh_runtime_is_empty() {
    let runtime = Runtime::new();
    assert_eq!(runtime.system.block_number(), 0);
    assert_eq!(runtime.system.nonce(&"alice".to_string()), 0);
    assert_eq!(runtime.balances.balance(&"alice".to_string()), 0);
    assert_eq!(runtime.dump(), "block_number: 0\n");
}

#[test]
fn dump_renders_state() {
    let mut runtime = Runtime::new();
    let alice = "alice".to_string();
    let bob = "bob".to_string();
    runtime.balances.set_balance(&alice, 100);
    runtime.system.inc_block_number();
    runtime.system.inc_nonce(&alice);
    let res = runtime.balances.transfer(alice.clone(), bob.clone(), 30);
    assert_eq!(res, Ok(()));
    assert_eq!(
        runtime.dump(),
        "block_number: 1\n  nonce alice: 1\n  balance alice: 70\n  balance bob: 30\n"
    );
}

#[test]
fn decimal_rendering() {
    assert_eq!(decimal_of(0), "0");
    assert_eq!(decimal_of(9), "9");
    assert_eq!(decimal_of(10), "10");
    assert_eq!(decimal_of(105), "105");
    assert_eq!(decimal_of(u128::MAX), "340282366920938463463374607431768211455");
}
