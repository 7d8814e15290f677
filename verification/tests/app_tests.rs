//! End-to-end tests of the harness: funding, the chain clock, and
//! atomic transaction submission.

use osmosis_test_tube::coin::Coin;
use osmosis_test_tube::error::RunnerError;
use osmosis_test_tube::fee::FeeSetting;
use osmosis_test_tube::msg::{Msg, Transfer};
use osmosis_test_tube::OsmosisTestApp;

#[test]
fn test_init_accounts() {
    let mut app = OsmosisTestApp::default();
    let accounts = app
        .init_accounts(&vec![Coin::new(100_000_000_000, "orai")], 3)
        .unwrap();

    assert!(accounts.get(0).is_some());
    assert!(accounts.get(1).is_some());
    assert!(accounts.get(2).is_some());
    assert!(accounts.get(3).is_none());
}

#[test]
fn test_get_and_set_block_timestamp() {
    let mut app = OsmosisTestApp::default();

    let block_time_nanos = app.get_block_time_nanos();
    let block_time_seconds = app.get_block_time_seconds();

    app.increase_time(10u64);

    assert_eq!(
        app.get_block_time_nanos(),
        block_time_nanos + 10_000_000_000
    );
    assert_eq!(app.get_block_time_seconds(), block_time_seconds + 10);
}

#[test]
fn test_get_block_height() {
    let mut app = OsmosisTestApp::default();

    assert_eq!(app.get_block_height(), 1i64);

    app.increase_time(10u64);

    assert_eq!(app.get_block_height(), 2i64);
}

#[test]
fn test_block_timestamp_matches_nanos() {
    let mut app = OsmosisTestApp::default();
    let ts = app.get_block_timestamp();
    assert_eq!(ts.nanos(), app.get_block_time_nanos() as u64);
    app.increase_time(3);
    let ts = app.get_block_timestamp();
    assert_eq!(ts.nanos(), app.get_block_time_nanos() as u64);
    assert_eq!(ts.seconds(), app.get_block_time_seconds() as u64);
}

#[test]
fn test_fresh_harness_clock() {
    let mut app = OsmosisTestApp::new(None);
    assert_eq!(app.get_block_height(), 1);
    let t0 = app.get_block_time_nanos();
    app.increase_time(10);
    assert_eq!(app.get_block_height(), 2);
    assert_eq!(app.get_block_time_nanos(), t0 + 10_000_000_000);
}

#[test]
fn test_three_funded_accounts() {
    let mut app = OsmosisTestApp::default();
    let accounts = app
        .init_accounts(&vec![Coin::new(100_000_000_000, "orai")], 3)
        .unwrap();
    assert_eq!(accounts.len(), 3);
    assert_ne!(accounts[0].address(), accounts[1].address());
    assert_ne!(accounts[1].address(), accounts[2].address());
    assert_ne!(accounts[0].address(), accounts[2].address());
    let denom = "orai".as_bytes().to_vec();
    for account in &accounts {
        let balance = app.query_balance(account.account_id(), &denom).unwrap();
        assert_eq!(balance, 100_000_000_000);
    }
}

#[test]
fn test_atomic_rollback() {
    let mut app = OsmosisTestApp::default();
    let alice = app
        .init_account(&vec![
            Coin::new(1_000_000_000_000, "uatom"),
            Coin::new(1_000_000_000_000, "orai"),
        ])
        .unwrap();
    let bob = app.init_account(&vec![Coin::new(1_000_000_000_000, "orai")]).unwrap();

    // Pay a fixed fee so the rejection comes from execution, not from
    // the fee-sizing simulation.
    let alice = alice.with_fee_setting(FeeSetting::Custom {
        amount: Coin::new(1_000_000, "orai"),
        gas_limit: 100_000_000,
    });

    let good = Msg {
        type_url: "/cosmos.bank.v1beta1.MsgSend".to_string(),
        value: Transfer {
            to: bob.account_id(),
            denom: "uatom".as_bytes().to_vec(),
            amount: 5,
        }
        .encode(),
    };
    let bad = Msg {
        type_url: "/unknown.Msg".to_string(),
        value: vec![],
    };

    let err = app.execute_multiple_raw(vec![good, bad], &alice).unwrap_err();
    match err {
        RunnerError::ExecutionError { code, log } => {
            assert_eq!(code, 2);
            assert_eq!(log, "invalid message");
        }
        other => panic!("unexpected error: {:?}", other),
    }

    // Rolled back: no message applied and no fee was kept.
    let uatom = "uatom".as_bytes().to_vec();
    let orai = "orai".as_bytes().to_vec();
    assert_eq!(app.query_balance(bob.account_id(), &uatom).unwrap(), 0);
    assert_eq!(
        app.query_balance(alice.account_id(), &uatom).unwrap(),
        1_000_000_000_000
    );
    assert_eq!(
        app.query_balance(alice.account_id(), &orai).unwrap(),
        1_000_000_000_000
    );
}

#[test]
fn test_custom_fee() {
    let mut app = OsmosisTestApp::default();
    let initial_balance = 1_000_000_000_000;
    let alice = app
        .init_account(&vec![
            Coin::new(initial_balance, "orai"),
            Coin::new(initial_balance, "uatom"),
        ])
        .unwrap();
    let bob = app
        .init_account(&vec![
            Coin::new(initial_balance, "orai"),
            Coin::new(initial_balance, "uatom"),
        ])
        .unwrap();

    let amount = Coin::new(1_000_000, "orai");
    let gas_limit = 100_000_000;

    // Alice keeps the default automatic fee setting, so her gas
    // allowance comes from simulation and must differ from the custom
    // limit below.
    let transfer = Transfer {
        to: bob.account_id(),
        denom: "uatom".as_bytes().to_vec(),
        amount: 7,
    };
    let res = app.execute_multiple(&vec![transfer], &alice).unwrap();
    assert_ne!(res.gas_info.gas_wanted, gas_limit);
    // One message: 50_000 base + 10_000, scaled by the default
    // adjustment of 1.2.
    assert_eq!(res.gas_info.gas_wanted, 72_000);
    assert_eq!(res.gas_info.gas_used, 60_000);
    let orai = "orai".as_bytes().to_vec();
    assert_eq!(
        app.query_balance(alice.account_id(), &orai).unwrap(),
        initial_balance - 72_000 * 2_500
    );

    // Bob pays a fixed custom fee: the reported allowance is exactly
    // the custom limit and the balance falls by exactly the amount.
    let bob = bob.with_fee_setting(FeeSetting::Custom {
        amount: amount.clone(),
        gas_limit,
    });
    let transfer = Transfer {
        to: alice.account_id(),
        denom: "uatom".as_bytes().to_vec(),
        amount: 7,
    };
    let res = app.execute_multiple(&vec![transfer], &bob).unwrap();
    assert_eq!(res.gas_info.gas_wanted, gas_limit);
    assert_eq!(res.data, vec![7]);
    assert_eq!(
        app.query_balance(bob.account_id(), &orai).unwrap(),
        initial_balance - 1_000_000
    );
}
