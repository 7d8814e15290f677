//! Unit tests: the wire codec, fee resolution, the parameter store,
//! and each error variant.

use osmosis_test_tube::coin::Coin;
use osmosis_test_tube::error::RunnerError;
use osmosis_test_tube::fee::{resolve_fee, FeeSetting, GasInfo};
use osmosis_test_tube::msg::{Msg, Transfer};
use osmosis_test_tube::OsmosisTestApp;

#[test]
fn test_transfer_wire_exact() {
    let t = Transfer {
        to: 1,
        denom: "ab".as_bytes().to_vec(),
        amount: 2,
    };
    let mut expected = vec![1u8, 0, 0, 0, 0, 0, 0, 0];
    expected.extend_from_slice(&[2u8, 0, 0, 0, 0, 0, 0, 0, 0, 0, 0, 0, 0, 0, 0, 0]);
    expected.extend_from_slice("ab".as_bytes());
    assert_eq!(t.encode(), expected);
}

#[test]
fn test_transfer_parse_round_trip() {
    let t = Transfer {
        to: 42,
        denom: "uatom".as_bytes().to_vec(),
        amount: 340_282_366_920_938_463_463,
    };
    let parsed = Transfer::parse(&t.encode()).unwrap();
    assert_eq!(parsed.to, 42);
    assert_eq!(parsed.denom, "uatom".as_bytes().to_vec());
    assert_eq!(parsed.amount, 340_282_366_920_938_463_463);
}

#[test]
fn test_transfer_parse_too_short() {
    assert!(Transfer::parse(&vec![0u8; 23]).is_none());
}

#[test]
fn test_resolve_fee_auto_formula() {
    let fee = resolve_fee(
        &FeeSetting::Auto {
            gas_adjustment_centi: 120,
        },
        GasInfo {
            gas_wanted: 60_000,
            gas_used: 60_000,
        },
    )
    .unwrap();
    assert_eq!(fee.gas_limit, 72_000);
    assert_eq!(fee.amount.len(), 1);
    assert_eq!(fee.amount[0].denom, "orai".as_bytes().to_vec());
    assert_eq!(fee.amount[0].amount, 72_000 * 2_500);
}

#[test]
fn test_resolve_fee_rounds_up() {
    let fee = resolve_fee(
        &FeeSetting::Auto {
            gas_adjustment_centi: 150,
        },
        GasInfo {
            gas_wanted: 0,
            gas_used: 3,
        },
    )
    .unwrap();
    // ceil(3 * 1.5) = 5
    assert_eq!(fee.gas_limit, 5);
}

#[test]
fn test_invalid_fee_setting_rejected() {
    let err = resolve_fee(
        &FeeSetting::Custom {
            amount: Coin::new(5, "orai"),
            gas_limit: 0,
        },
        GasInfo {
            gas_wanted: 0,
            gas_used: 0,
        },
    )
    .unwrap_err();
    assert!(matches!(err, RunnerError::InvalidFeeSetting));

    let err = resolve_fee(
        &FeeSetting::Custom {
            amount: Coin::new(5, ""),
            gas_limit: 10,
        },
        GasInfo {
            gas_wanted: 0,
            gas_used: 0,
        },
    )
    .unwrap_err();
    assert!(matches!(err, RunnerError::InvalidFeeSetting));
}

#[test]
fn test_funding_error() {
    let mut app = OsmosisTestApp::default();
    // A zero amount is no funding.
    let err = app.init_account(&vec![Coin::new(0, "orai")]).unwrap_err();
    assert!(matches!(err, RunnerError::FundingError));
    // A repeated denomination is no funding either.
    let err = app
        .init_account(&vec![Coin::new(1, "orai"), Coin::new(2, "orai")])
        .unwrap_err();
    assert!(matches!(err, RunnerError::FundingError));
    // Nothing was created.
    assert_eq!(app.engine.accounts.len(), 1);
}

#[test]
fn test_param_set_round_trip() {
    let mut app = OsmosisTestApp::default();
    let pset = Msg {
        type_url: "/cosmos.staking.v1beta1.Params".to_string(),
        value: vec![8, 1, 16, 2],
    };
    app.set_param_set("staking", pset).unwrap();

    let got = app
        .get_param_set("staking", "/cosmos.staking.v1beta1.Params")
        .unwrap();
    assert_eq!(got.type_url, "/cosmos.staking.v1beta1.Params");
    assert_eq!(got.value, vec![8, 1, 16, 2]);

    // Replacement is whole-value, not a merge.
    let pset2 = Msg {
        type_url: "/cosmos.staking.v1beta1.Params".to_string(),
        value: vec![8, 9],
    };
    app.set_param_set("staking", pset2).unwrap();
    let got = app
        .get_param_set("staking", "/cosmos.staking.v1beta1.Params")
        .unwrap();
    assert_eq!(got.value, vec![8, 9]);
}

#[test]
fn test_param_set_errors() {
    let mut app = OsmosisTestApp::default();
    let err = app.get_param_set("staking", "/cosmos.staking.v1beta1.Params").unwrap_err();
    assert!(matches!(err, RunnerError::NotFound));

    let pset = Msg {
        type_url: "/cosmos.staking.v1beta1.Params".to_string(),
        value: vec![1],
    };
    app.set_param_set("staking", pset).unwrap();
    let err = app.get_param_set("staking", "/other.Type").unwrap_err();
    assert!(matches!(err, RunnerError::DecodeError));
}

#[test]
fn test_simulate_gas() {
    let mut app = OsmosisTestApp::default();
    let alice = app.init_account(&vec![Coin::new(1_000, "orai")]).unwrap();
    let msg = Msg {
        type_url: "/cosmos.bank.v1beta1.MsgSend".to_string(),
        value: Transfer {
            to: alice.account_id(),
            denom: "orai".as_bytes().to_vec(),
            amount: 1,
        }
        .encode(),
    };
    let gas = app.simulate_tx(&vec![msg], &alice).unwrap();
    assert_eq!(gas.gas_used, 60_000);
    assert_eq!(gas.gas_wanted, 60_000);
    // Simulation moves nothing.
    assert_eq!(app.get_block_height(), 1);
}

#[test]
fn test_simulate_checks_current_state() {
    let mut app = OsmosisTestApp::default();
    let alice = app.init_account(&vec![Coin::new(1_000, "orai")]).unwrap();

    // A well-formed transfer to an account that does not exist could
    // not execute against current state, so simulation rejects it.
    let msg = Msg {
        type_url: "/cosmos.bank.v1beta1.MsgSend".to_string(),
        value: Transfer {
            to: 7,
            denom: "orai".as_bytes().to_vec(),
            amount: 1,
        }
        .encode(),
    };
    let err = app.simulate_tx(&vec![msg], &alice).unwrap_err();
    match err {
        RunnerError::SimulationError { log } => assert_eq!(log, "unknown recipient"),
        other => panic!("unexpected error: {:?}", other),
    }

    // So is a transfer exceeding the signer's balance.
    let msg = Msg {
        type_url: "/cosmos.bank.v1beta1.MsgSend".to_string(),
        value: Transfer {
            to: alice.account_id(),
            denom: "orai".as_bytes().to_vec(),
            amount: 2_000,
        }
        .encode(),
    };
    let err = app.simulate_tx(&vec![msg], &alice).unwrap_err();
    match err {
        RunnerError::SimulationError { log } => assert_eq!(log, "insufficient funds"),
        other => panic!("unexpected error: {:?}", other),
    }

    // Simulation committed nothing.
    let orai = "orai".as_bytes().to_vec();
    assert_eq!(app.query_balance(alice.account_id(), &orai).unwrap(), 1_000);
}

#[test]
fn test_auto_fee_simulation_failure() {
    let mut app = OsmosisTestApp::default();
    let alice = app
        .init_account(&vec![Coin::new(1_000_000_000_000, "orai")])
        .unwrap();
    // Under the default automatic fee policy the fee-sizing simulation
    // runs first, so a batch that cannot apply surfaces as a
    // simulation rejection carrying the engine's reason.
    let transfer = Transfer {
        to: alice.account_id(),
        denom: "uatom".as_bytes().to_vec(),
        amount: 1,
    };
    let err = app.execute_multiple(&vec![transfer], &alice).unwrap_err();
    match err {
        RunnerError::SimulationError { log } => assert_eq!(log, "insufficient funds"),
        other => panic!("unexpected error: {:?}", other),
    }
}

#[test]
fn test_chain_id() {
    assert_eq!(osmosis_test_tube::app::chain_id(), "Oraichain");
}

#[test]
fn test_simulate_rejects_unknown_message() {
    let mut app = OsmosisTestApp::default();
    let alice = app.init_account(&vec![Coin::new(1_000, "orai")]).unwrap();
    let msg = Msg {
        type_url: "/unknown.Msg".to_string(),
        value: vec![],
    };
    let err = app.simulate_tx(&vec![msg], &alice).unwrap_err();
    assert!(matches!(err, RunnerError::SimulationError { .. }));
}

#[test]
fn test_insufficient_funds() {
    let mut app = OsmosisTestApp::default();
    let alice = app
        .init_account(&vec![Coin::new(1_000_000_000_000, "orai")])
        .unwrap();
    let bob = app.init_account(&vec![Coin::new(1_000_000_000_000, "orai")]).unwrap();
    let alice = alice.with_fee_setting(FeeSetting::Custom {
        amount: Coin::new(1, "orai"),
        gas_limit: 100_000_000,
    });
    let transfer = Transfer {
        to: bob.account_id(),
        denom: "uatom".as_bytes().to_vec(),
        amount: 1,
    };
    let err = app.execute_multiple(&vec![transfer], &alice).unwrap_err();
    match err {
        RunnerError::ExecutionError { code, log } => {
            assert_eq!(code, 5);
            assert_eq!(log, "insufficient funds");
        }
        other => panic!("unexpected error: {:?}", other),
    }
}

#[test]
fn test_out_of_gas() {
    let mut app = OsmosisTestApp::default();
    let alice = app
        .init_account(&vec![Coin::new(1_000_000_000_000, "orai")])
        .unwrap();
    let bob = app.init_account(&vec![Coin::new(1_000_000_000_000, "orai")]).unwrap();
    let alice = alice.with_fee_setting(FeeSetting::Custom {
        amount: Coin::new(1, "orai"),
        gas_limit: 1,
    });
    let orai = "orai".as_bytes().to_vec();
    let before = app.query_balance(alice.account_id(), &orai).unwrap();
    let transfer = Transfer {
        to: bob.account_id(),
        denom: "orai".as_bytes().to_vec(),
        amount: 1,
    };
    let err = app.execute_multiple(&vec![transfer], &alice).unwrap_err();
    match err {
        RunnerError::ExecutionError { code, log } => {
            assert_eq!(code, 11);
            assert_eq!(log, "out of gas");
        }
        other => panic!("unexpected error: {:?}", other),
    }
    // The failed transaction kept nothing, not even the fee.
    assert_eq!(app.query_balance(alice.account_id(), &orai).unwrap(), before);
}

#[test]
fn test_query_unknown_path() {
    let app = OsmosisTestApp::default();
    let err = app.query("/unknown.Query/Path", &vec![0u8; 12]).unwrap_err();
    assert!(matches!(err, RunnerError::QueryError));
    let err = app
        .query("/cosmos.bank.v1beta1.Query/Balance", &vec![0u8; 4])
        .unwrap_err();
    assert!(matches!(err, RunnerError::QueryError));
}

#[test]
fn test_validator_account() {
    let app = OsmosisTestApp::default();
    let address = app.get_first_validator_address().unwrap();
    let validator = app.get_first_validator_signing_account().unwrap();
    assert_eq!(address, validator.address());
    assert_eq!(validator.account_id(), 0);
    // The genesis validator is funded in the fee denomination.
    let orai = "orai".as_bytes().to_vec();
    assert_eq!(
        app.query_balance(0, &orai).unwrap(),
        1_000_000_000_000_000_000
    );
}

#[test]
fn test_with_fee_setting_is_pure() {
    let mut app = OsmosisTestApp::default();
    let alice = app.init_account(&vec![Coin::new(1_000, "orai")]).unwrap();
    let height = app.get_block_height();
    let address = alice.address();
    let alice = alice.with_fee_setting(FeeSetting::Custom {
        amount: Coin::new(1, "orai"),
        gas_limit: 7,
    });
    assert_eq!(alice.address(), address);
    assert_eq!(app.get_block_height(), height);
    assert!(matches!(
        alice.fee_setting(),
        FeeSetting::Custom { .. }
    ));
}

#[test]
fn test_send_to_self() {
    let mut app = OsmosisTestApp::default();
    let alice = app
        .init_account(&vec![Coin::new(1_000_000_000_000, "orai")])
        .unwrap();
    let alice = alice.with_fee_setting(FeeSetting::Custom {
        amount: Coin::new(1_000, "orai"),
        gas_limit: 100_000_000,
    });
    let transfer = Transfer {
        to: alice.account_id(),
        denom: "orai".as_bytes().to_vec(),
        amount: 500,
    };
    app.execute_multiple(&vec![transfer], &alice).unwrap();
    let orai = "orai".as_bytes().to_vec();
    // Only the fee left the account.
    assert_eq!(
        app.query_balance(alice.account_id(), &orai).unwrap(),
        1_000_000_000_000 - 1_000
    );
}
