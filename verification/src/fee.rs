//! Fee policies and fee resolution.
//!
//! A signer carries a [`FeeSetting`]: automatic, where the gas limit is
//! the simulated gas use scaled by an adjustment factor and the fee is
//! bought at the chain's gas price in the fee denomination; or custom,
//! where the given amount and gas limit pass through verbatim.  The
//! adjustment factor is kept in hundredths, so the default factor of
//! one and one fifth is `120`.

use vstd::prelude::*;

verus! {

use vstd::string::StringSliceAdditionalSpecFns;
use crate::coin::{Coin, CoinView, bytes_of_slice, coins_v, coins_wf};
use crate::error::RunnerError;

/// Price of one unit of gas, in the fee denomination.
pub const GAS_PRICE: u128 = 2500;

/// Default automatic gas adjustment, in hundredths.
pub const DEFAULT_GAS_ADJUSTMENT_CENTI: u64 = 120;

/// The fee denomination's byte string.
pub open spec fn fee_denom_bytes() -> Seq<u8> {
    "orai".spec_bytes()
}

/// The fee denomination.
pub fn fee_denom() -> (r: Vec<u8>)
    ensures
        r@ == fee_denom_bytes(),
        r@.len() > 0,
{
    let r = bytes_of_slice("orai".as_bytes());
    proof {
        assert("orai"@.len() == 4) by {
            reveal_strlit("orai");
        }
    }
    r
}

/// Gas used and gas allowed, as reported by simulation and execution.
#[derive(Clone, Copy, Debug, PartialEq, Eq, Structural)]
pub struct GasInfo {
    /// Gas the transaction was allowed to use.
    pub gas_wanted: u64,
    /// Gas the transaction used.
    pub gas_used: u64,
}

/// A signer's fee policy.
#[derive(Debug)]
pub enum FeeSetting {
    /// Fee from simulated gas use, scaled by an adjustment in hundredths.
    Auto { gas_adjustment_centi: u64 },
    /// A fixed fee amount and gas limit, passed through verbatim.
    Custom { amount: Coin, gas_limit: u64 },
}

/// The mathematical value of a [`FeeSetting`].
pub ghost enum FeeSettingView {
    Auto { gas_adjustment_centi: u64 },
    Custom { amount: CoinView, gas_limit: u64 },
}

impl View for FeeSetting {
    type V = FeeSettingView;

    open spec fn view(&self) -> FeeSettingView {
        match self {
            FeeSetting::Auto { gas_adjustment_centi } => FeeSettingView::Auto {
                gas_adjustment_centi: *gas_adjustment_centi,
            },
            FeeSetting::Custom { amount, gas_limit } => FeeSettingView::Custom {
                amount: amount@,
                gas_limit: *gas_limit,
            },
        }
    }
}

impl Clone for FeeSetting {
    fn clone(&self) -> (r: FeeSetting)
        ensures
            r@ == self@,
    {
        match self {
            FeeSetting::Auto { gas_adjustment_centi } => FeeSetting::Auto {
                gas_adjustment_centi: *gas_adjustment_centi,
            },
            FeeSetting::Custom { amount, gas_limit } => FeeSetting::Custom {
                amount: amount.clone(),
                gas_limit: *gas_limit,
            },
        }
    }
}

/// A concrete fee: coins to pay and the gas budget.
#[derive(Debug)]
pub struct Fee {
    /// The coins paid.
    pub amount: Vec<Coin>,
    /// The gas budget of the transaction.
    pub gas_limit: u64,
}

/// The mathematical value of a [`Fee`].
pub ghost struct FeeView {
    pub amount: Seq<CoinView>,
    pub gas_limit: u64,
}

impl View for Fee {
    type V = FeeView;

    open spec fn view(&self) -> FeeView {
        FeeView { amount: coins_v(self.amount@), gas_limit: self.gas_limit }
    }
}

/// Clamp to the machine range of `u64`.
pub open spec fn cap_u64(x: int) -> u64 {
    if x > u64::MAX {
        u64::MAX
    } else if x < 0 {
        0
    } else {
        x as u64
    }
}

/// Gas limit the automatic policy derives from simulated gas use:
/// the use scaled by the adjustment, rounded up.
pub open spec fn auto_gas_limit(gas_used: u64, centi: u64) -> int {
    (gas_used * centi + 99) / 100
}

/// The fee coin bought for a gas limit at the chain's gas price.
pub open spec fn fee_coin(gas_limit: u64) -> CoinView {
    CoinView { denom: fee_denom_bytes(), amount: (gas_limit * GAS_PRICE) as u128 }
}

/// What fee resolution yields: the concrete fee, or rejection of the
/// setting itself.
pub open spec fn resolve_fee_spec(s: FeeSettingView, gas_used: u64) -> Option<FeeView> {
    match s {
        FeeSettingView::Auto { gas_adjustment_centi } => {
            if gas_adjustment_centi == 0 {
                None
            } else {
                let limit = cap_u64(auto_gas_limit(gas_used, gas_adjustment_centi));
                Some(FeeView { amount: seq![fee_coin(limit)], gas_limit: limit })
            }
        },
        FeeSettingView::Custom { amount, gas_limit } => {
            if amount.denom.len() == 0 || gas_limit == 0 {
                None
            } else {
                Some(FeeView { amount: seq![amount], gas_limit })
            }
        },
    }
}

/// Resolve a fee policy into a concrete fee.
///
/// The automatic policy needs the gas use reported by a simulation;
/// the custom policy ignores it.  Fails with `InvalidFeeSetting`
/// exactly when the setting is degenerate: a zero adjustment, an empty
/// fee denomination, or a zero gas limit.
pub fn resolve_fee(setting: &FeeSetting, sim: GasInfo) -> (r: Result<Fee, RunnerError>)
    ensures
        match r {
            Ok(f) => resolve_fee_spec(setting@, sim.gas_used) == Some(f@),
            Err(e) => resolve_fee_spec(setting@, sim.gas_used) is None && e
                matches RunnerError::InvalidFeeSetting,
        },
        r is Ok ==> coins_wf(r->Ok_0@.amount) && forall|i: int|
            0 <= i < r->Ok_0@.amount.len() ==> (#[trigger] r->Ok_0@.amount[i].denom).len() > 0,
{
    match setting {
        FeeSetting::Auto { gas_adjustment_centi } => {
            let centi = *gas_adjustment_centi;
            if centi == 0 {
                return Err(RunnerError::InvalidFeeSetting);
            }
            proof {
                assert((sim.gas_used as int) * (centi as int) + 99 <= u128::MAX)
                    by (nonlinear_arith)
                    requires
                        sim.gas_used <= u64::MAX,
                        centi <= u64::MAX,
                ;
            }
            let g: u128 = (sim.gas_used as u128) * (centi as u128);
            let limit128: u128 = (g + 99) / 100;
            let limit: u64 = if limit128 > u64::MAX as u128 {
                u64::MAX
            } else {
                limit128 as u64
            };
            proof {
                assert(limit == cap_u64(auto_gas_limit(sim.gas_used, centi)));
                assert((limit as int) * (GAS_PRICE as int) <= u128::MAX) by (nonlinear_arith)
                    requires
                        limit <= u64::MAX,
                ;
            }
            let amount: u128 = (limit as u128) * GAS_PRICE;
            let coin = Coin { denom: fee_denom(), amount };
            let fee = Fee { amount: vec![coin], gas_limit: limit };
            proof {
                assert(fee@.amount =~= seq![fee_coin(limit)]);
            }
            Ok(fee)
        },
        FeeSetting::Custom { amount, gas_limit } => {
            if amount.denom.len() == 0 || *gas_limit == 0 {
                return Err(RunnerError::InvalidFeeSetting);
            }
            let fee = Fee { amount: vec![amount.clone()], gas_limit: *gas_limit };
            proof {
                assert(fee@.amount =~= seq![amount@]);
            }
            Ok(fee)
        },
    }
}

} // verus!
