//! Laws of the harness that span several functions.
//!
//! Each proof function here states, over the same spec functions the
//! public contracts use, a property the harness keeps.  The round-trip
//! law of the parameter store is [`crate::engine::lemma_param_round_trip`].

use vstd::prelude::*;

verus! {

use crate::app::{ExecOutcome, execute_outcome};
use crate::coin::CoinView;
use crate::engine::{bals, spec_run, spec_charge, gas_for};
use crate::fee::{FeeSettingView, auto_gas_limit, cap_u64};
use crate::msg::TransferView;

/// A run whose messages never touch a denomination leaves every
/// balance of that denomination alone.
pub proof fn lemma_run_preserves_denom(
    b: Map<(int, Seq<u8>), int>,
    n: int,
    from: int,
    ms: Seq<Option<TransferView>>,
    key: (int, Seq<u8>),
)
    requires
        spec_run(b, n, from, ms) is Ok,
        forall|i: int|
            0 <= i < ms.len() ==> ((#[trigger] ms[i]) matches Some(t) ==> t.denom != key.1),
    ensures
        spec_run(b, n, from, ms)->Ok_0[key] == b[key],
    decreases ms.len(),
{
    if ms.len() > 0 {
        let t = ms[0]->Some_0;
        let b1 = b.insert((from, t.denom), b[(from, t.denom)] - t.amount);
        let b2 = b1.insert((t.to as int, t.denom), b1[(t.to as int, t.denom)] + t.amount);
        assert(b2[key] == b[key]);
        assert(forall|i: int|
            0 <= i < ms.skip(1).len() ==> (#[trigger] ms.skip(1)[i]) == ms[i + 1]);
        lemma_run_preserves_denom(b2, n, from, ms.skip(1), key);
    }
}

/// A transaction under a custom fee setting that commits reports the
/// custom gas limit as its gas allowance, and — when no message moves
/// the fee coin's denomination — the signer's balance of it falls by
/// exactly the custom amount, never by an automatically derived fee.
pub proof fn lemma_custom_fee_exact(
    pre: crate::engine::Engine,
    parsed: Seq<Option<TransferView>>,
    amount: CoinView,
    gas_limit: u64,
    signer: u64,
    b: Map<(int, Seq<u8>), int>,
    gw: u64,
)
    requires
        execute_outcome(
            pre,
            parsed,
            FeeSettingView::Custom { amount, gas_limit },
            signer,
        ) == (ExecOutcome::Committed { balances: b, gas_wanted: gw }),
        forall|i: int|
            0 <= i < parsed.len() ==> ((#[trigger] parsed[i]) matches Some(t) ==> t.denom
                != amount.denom),
    ensures
        gw == gas_limit,
        b[(signer as int, amount.denom)] == bals(pre.accounts@)[(signer as int, amount.denom)]
            - amount.amount,
{
    let b0 = bals(pre.accounts@);
    let key = (signer as int, amount.denom);
    let fees = seq![amount];
    assert(fees[0] == amount);
    assert(fees.skip(1) =~= Seq::<CoinView>::empty());
    let b1 = b0.insert(key, b0[key] - amount.amount);
    assert(crate::engine::deliver_outcome(pre, parsed, fees, gas_limit, signer) is Ok);
    assert(spec_charge(b0, signer as int, fees) is Some);
    assert(amount.amount <= b0[key]);
    assert(spec_charge(b1, signer as int, Seq::<CoinView>::empty()) == Some(b1));
    assert(spec_charge(b0, signer as int, fees) == Some(b1));
    lemma_run_preserves_denom(b1, pre.accounts@.len() as int, signer as int, parsed, key);
}

/// The two fee paths are independent: a committed transaction under
/// the automatic policy is allowed exactly the adjusted simulated gas,
/// and one under a custom policy exactly its fixed limit — neither
/// formula mentions the other policy's inputs.
pub proof fn lemma_fee_paths_independent(
    pre: crate::engine::Engine,
    parsed: Seq<Option<TransferView>>,
    centi: u64,
    amount: CoinView,
    gas_limit: u64,
    signer: u64,
    b_auto: Map<(int, Seq<u8>), int>,
    gw_auto: u64,
    b_custom: Map<(int, Seq<u8>), int>,
    gw_custom: u64,
)
    requires
        execute_outcome(pre, parsed, FeeSettingView::Auto { gas_adjustment_centi: centi }, signer)
            == (ExecOutcome::Committed { balances: b_auto, gas_wanted: gw_auto }),
        execute_outcome(
            pre,
            parsed,
            FeeSettingView::Custom { amount, gas_limit },
            signer,
        ) == (ExecOutcome::Committed { balances: b_custom, gas_wanted: gw_custom }),
    ensures
        gw_auto == cap_u64(auto_gas_limit(cap_u64(gas_for(parsed.len() as int)), centi)),
        gw_custom == gas_limit,
{
}

} // verus!
