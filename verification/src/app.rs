//! The application facade test code talks to.
//!
//! [`OsmosisTestApp`] composes the chain-state engine with fee
//! resolution, the account registry, the chain clock, the transaction
//! runner and the parameter-store accessor behind one handle.  Every
//! ledger-mutating call takes the handle exclusively (`&mut self`), so
//! no two mutating calls can interleave; reads take it shared.

use vstd::prelude::*;

verus! {

use crate::account::SigningAccount;
use crate::coin::{Coin, coin_list_valid, coins_v, amount_of};
use crate::engine::{
    Engine, TxResponse, bals, deliver_outcome, gas_for, parsed_of, parse_msg, log_of, sim_fails,
    sim_fail_code, INITIAL_TIME_NANOS, VALIDATOR_BALANCE,
};
use crate::error::RunnerError;
use crate::fee::{
    DEFAULT_GAS_ADJUSTMENT_CENTI, FeeSetting, FeeSettingView, GasInfo, auto_gas_limit, cap_u64,
    fee_coin, resolve_fee,
};
use crate::msg::{Msg, MsgView, Transfer, TransferView, lemma_transfer_round_trip, slice_range};
use vstd::bytes::{
    spec_u128_to_le_bytes, spec_u64_from_le_bytes, u128_from_le_bytes, u64_to_le_bytes,
    u128_to_le_bytes,
};

/// The timestamp type of the contract API, declared so that the block
/// time can be handed out in it.
#[verifier::external_type_specification]
#[verifier::external_body]
pub struct ExTimestamp(cosmwasm_std::Timestamp);

/// The nanoseconds a timestamp holds.  A `cosmwasm_std::Timestamp` is
/// a plain wrapper around one integer, so this is a function of the
/// value alone.
pub uninterp spec fn ts_nanos_of(t: cosmwasm_std::Timestamp) -> u64;

/// Relies on cosmwasm_std::Timestamp::nanos: it returns the wrapped
/// nanosecond count.
pub assume_specification[ cosmwasm_std::Timestamp::nanos ](t: &cosmwasm_std::Timestamp) -> (r:
    u64)
    ensures
        r == ts_nanos_of(*t),
;

/// Relies on cosmwasm_std::Timestamp::from_nanos: it wraps exactly the
/// given nanosecond count.
pub assume_specification[ cosmwasm_std::Timestamp::from_nanos ](n: u64) -> (r:
    cosmwasm_std::Timestamp)
    ensures
        ts_nanos_of(r) == n,
;

/// What submitting a transaction can come to.
pub ghost enum ExecOutcome {
    /// The signer's fee setting is degenerate.
    InvalidFee,
    /// The fee-sizing simulation rejected a message.
    SimulationRejected,
    /// The engine rejected or reverted the transaction.
    Rejected { code: u32 },
    /// The transaction committed: the balance map it left, and the
    /// gas it was allowed.
    Committed { balances: Map<(int, Seq<u8>), int>, gas_wanted: u64 },
}

/// Delivery under a concrete fee, folded into an [`ExecOutcome`].
pub open spec fn outcome_of(
    pre: Engine,
    parsed: Seq<Option<TransferView>>,
    fee_coins: Seq<crate::coin::CoinView>,
    gas_limit: u64,
    signer: u64,
) -> ExecOutcome {
    match deliver_outcome(pre, parsed, fee_coins, gas_limit, signer) {
        Result::Ok(b) => ExecOutcome::Committed { balances: b, gas_wanted: gas_limit },
        Result::Err(c) => ExecOutcome::Rejected { code: c },
    }
}

/// What submitting the given messages under the given fee policy
/// comes to.  The automatic policy sizes its fee by simulating first,
/// so a batch that cannot apply against current state rejects the
/// simulation before anything else; the custom policy skips
/// simulation and its amount and gas limit pass through verbatim.
pub open spec fn execute_outcome(
    pre: Engine,
    parsed: Seq<Option<TransferView>>,
    fs: FeeSettingView,
    signer: u64,
) -> ExecOutcome {
    let gas_used = cap_u64(gas_for(parsed.len() as int));
    match fs {
        FeeSettingView::Auto { gas_adjustment_centi } => {
            if sim_fails(pre, parsed, signer) {
                ExecOutcome::SimulationRejected
            } else if gas_adjustment_centi == 0 {
                ExecOutcome::InvalidFee
            } else {
                let limit = cap_u64(auto_gas_limit(gas_used, gas_adjustment_centi));
                outcome_of(pre, parsed, seq![fee_coin(limit)], limit, signer)
            }
        },
        FeeSettingView::Custom { amount, gas_limit } => {
            if amount.denom.len() == 0 || gas_limit == 0 {
                ExecOutcome::InvalidFee
            } else {
                outcome_of(pre, parsed, seq![amount], gas_limit, signer)
            }
        },
    }
}

/// The query path under which balances are served.
pub open spec fn balance_query_path() -> Seq<char> {
    "/cosmos.bank.v1beta1.Query/Balance"@
}

/// The chain identifier of the harness.
pub open spec fn chain_id_chars() -> Seq<char> {
    "Oraichain"@
}

/// The chain identifier of the harness, a process-wide constant.
pub fn chain_id() -> (r: String)
    ensures
        r@ == chain_id_chars(),
{
    "Oraichain".to_owned()
}

/// A committed transaction with its per-message responses decoded as
/// the transferred amounts.
#[derive(Debug)]
pub struct ExecuteResponse {
    /// The transferred amount of each message, in order.
    pub data: Vec<u128>,
    /// Gas allowed and gas used.
    pub gas_info: GasInfo,
}

/// The meaning the engine gives to each typed transfer.
pub open spec fn transfers_parsed(ts: Seq<Transfer>) -> Seq<Option<TransferView>> {
    ts.map_values(|t: Transfer| Some(t@))
}

/// The in-process chain harness: one exclusive handle to the engine,
/// with account funding, fee resolution, transaction submission,
/// parameter access and the chain clock behind it.
pub struct OsmosisTestApp {
    /// The chain-state engine, the system of record.
    pub engine: Engine,
}

impl OsmosisTestApp {
    /// Spin up a fresh chain: height one, the genesis time, a genesis
    /// validator funded in the fee denomination, nothing else.  The
    /// chain identifier is [`chain_id`]; the engine state lives in
    /// memory, so the working-directory argument is accepted and
    /// unused.
    pub fn new(node_home: Option<&str>) -> (r: OsmosisTestApp)
        ensures
            r.engine.wf(),
            r.engine.height == 1,
            r.engine.time_nanos == INITIAL_TIME_NANOS,
            r.engine.accounts@.len() == 1,
            forall|d: Seq<u8>| #[trigger] r.engine.bal(0, d) == if d
                == crate::fee::fee_denom_bytes() {
                VALIDATOR_BALANCE as int
            } else {
                0
            },
            r.engine.params@.len() == 0,
    {
        let _ = node_home;
        OsmosisTestApp { engine: Engine::genesis() }
    }

    /// Current block time, as a timestamp of the contract API.
    pub fn get_block_timestamp(&self) -> (r: cosmwasm_std::Timestamp)
        requires
            self.engine.wf(),
        ensures
            ts_nanos_of(r) == self.engine.time_nanos,
    {
        cosmwasm_std::Timestamp::from_nanos(self.engine.time_nanos as u64)
    }

    /// Current block time in nanoseconds.
    pub fn get_block_time_nanos(&self) -> (r: i64)
        ensures
            r == self.engine.time_nanos,
    {
        self.engine.time_nanos
    }

    /// Current block time in whole seconds.
    pub fn get_block_time_seconds(&self) -> (r: i64)
        requires
            self.engine.wf(),
        ensures
            r == self.engine.time_nanos / 1_000_000_000,
    {
        self.engine.time_nanos / 1_000_000_000
    }

    /// Current block height.
    pub fn get_block_height(&self) -> (r: i64)
        ensures
            r == self.engine.height,
    {
        self.engine.height
    }

    /// Address of the genesis validator, which exists from genesis.
    pub fn get_first_validator_address(&self) -> (r: Result<String, RunnerError>)
        requires
            self.engine.wf(),
        ensures
            r is Ok && r->Ok_0@ == crate::account::address_chars(0),
    {
        Ok(crate::account::derive_address(0))
    }

    /// Signing handle of the genesis validator, under the default
    /// automatic fee policy.
    pub fn get_first_validator_signing_account(&self) -> (r: Result<SigningAccount, RunnerError>)
        requires
            self.engine.wf(),
        ensures
            r is Ok,
            r->Ok_0.wf(),
            r->Ok_0@.account_id == 0,
            r->Ok_0@.fee_setting == (FeeSettingView::Auto {
                gas_adjustment_centi: DEFAULT_GAS_ADJUSTMENT_CENTI,
            }),
    {
        Ok(
            SigningAccount::create(
                0,
                FeeSetting::Auto { gas_adjustment_centi: DEFAULT_GAS_ADJUSTMENT_CENTI },
            ),
        )
    }

    /// Produce exactly one new block: height advances by exactly one
    /// and the block time by exactly `seconds`, whatever `seconds` is.
    /// This is the only way height advances.  Ledger and parameters do
    /// not move.
    pub fn increase_time(&mut self, seconds: u64)
        requires
            old(self).engine.wf(),
            old(self).engine.time_nanos + seconds * 1_000_000_000 <= i64::MAX,
            old(self).engine.height < i64::MAX,
        ensures
            final(self).engine.wf(),
            final(self).engine.height == old(self).engine.height + 1,
            final(self).engine.time_nanos == old(self).engine.time_nanos + seconds
                * 1_000_000_000,
            final(self).engine.accounts == old(self).engine.accounts,
            final(self).engine.params == old(self).engine.params,
    {
        self.engine.advance_block(seconds);
    }

    /// Mint `coins` out of thin air and credit them to a freshly
    /// created account; the handle comes back under the default
    /// automatic fee policy.  Fails with `FundingError`, touching
    /// nothing, exactly when the coin list is not a valid funding.
    pub fn init_account(&mut self, coins: &Vec<Coin>) -> (r: Result<SigningAccount, RunnerError>)
        requires
            old(self).engine.wf(),
            old(self).engine.accounts@.len() < u64::MAX,
        ensures
            final(self).engine.wf(),
            r is Ok <==> coin_list_valid(coins_v(coins@)),
            r is Err ==> *final(self) == *old(self) && r->Err_0
                matches RunnerError::FundingError,
            r is Ok ==> {
                &&& r->Ok_0.wf()
                &&& r->Ok_0@.account_id == old(self).engine.accounts@.len()
                &&& r->Ok_0@.fee_setting == (FeeSettingView::Auto {
                    gas_adjustment_centi: DEFAULT_GAS_ADJUSTMENT_CENTI,
                })
                &&& final(self).engine.accounts@.len() == old(self).engine.accounts@.len() + 1
                &&& forall|d: Seq<u8>| #[trigger] final(self).engine.bal(
                    r->Ok_0@.account_id as int,
                    d,
                ) == amount_of(coins_v(coins@), d)
                &&& forall|a: int, d: Seq<u8>|
                    0 <= a < old(self).engine.accounts@.len()
                        ==> #[trigger] final(self).engine.bal(a, d) == old(self).engine.bal(a, d)
                &&& final(self).engine.height == old(self).engine.height
                &&& final(self).engine.time_nanos == old(self).engine.time_nanos
                &&& final(self).engine.params == old(self).engine.params
            },
    {
        match self.engine.init_account(coins) {
            Ok(id) => Ok(
                SigningAccount::create(
                    id,
                    FeeSetting::Auto { gas_adjustment_centi: DEFAULT_GAS_ADJUSTMENT_CENTI },
                ),
            ),
            Err(e) => Err(e),
        }
    }

    /// Create `count` accounts, each independently funded with exactly
    /// `coins`.  All or nothing: on failure no account is created and
    /// nothing is touched.
    pub fn init_accounts(&mut self, coins: &Vec<Coin>, count: u64) -> (r: Result<
        Vec<SigningAccount>,
        RunnerError,
    >)
        requires
            old(self).engine.wf(),
            count <= usize::MAX,
            old(self).engine.accounts@.len() + count < u64::MAX,
        ensures
            final(self).engine.wf(),
            r is Ok <==> coin_list_valid(coins_v(coins@)),
            r is Err ==> *final(self) == *old(self) && r->Err_0
                matches RunnerError::FundingError,
            r is Ok ==> {
                &&& r->Ok_0@.len() == count
                &&& forall|i: int|
                    0 <= i < count ==> (#[trigger] r->Ok_0@[i]@.account_id) == old(
                        self,
                    ).engine.accounts@.len() + i
                &&& forall|i: int| 0 <= i < count ==> (#[trigger] r->Ok_0@[i]).wf()
                &&& forall|i: int|
                    0 <= i < count ==> (#[trigger] r->Ok_0@[i]@.fee_setting)
                        == (FeeSettingView::Auto {
                        gas_adjustment_centi: DEFAULT_GAS_ADJUSTMENT_CENTI,
                    })
                &&& forall|i: int, d: Seq<u8>|
                    0 <= i < count ==> #[trigger] final(self).engine.bal(
                        old(self).engine.accounts@.len() + i,
                        d,
                    ) == amount_of(coins_v(coins@), d)
                &&& forall|a: int, d: Seq<u8>|
                    0 <= a < old(self).engine.accounts@.len()
                        ==> #[trigger] final(self).engine.bal(a, d) == old(self).engine.bal(a, d)
                &&& final(self).engine.accounts@.len() == old(self).engine.accounts@.len()
                    + count
                &&& final(self).engine.height == old(self).engine.height
                &&& final(self).engine.time_nanos == old(self).engine.time_nanos
                &&& final(self).engine.params == old(self).engine.params
            },
    {
        if !crate::coin::check_coin_list(coins) {
            return Err(RunnerError::FundingError);
        }
        let ghost base = self.engine.accounts@.len() as int;
        let mut out: Vec<SigningAccount> = Vec::new();
        let mut k: u64 = 0;
        while k < count
            invariant
                old(self).engine.wf(),
                coin_list_valid(coins_v(coins@)),
                k <= count,
                base == old(self).engine.accounts@.len(),
                base + count < u64::MAX,
                self.engine.wf(),
                self.engine.accounts@.len() == base + k,
                out@.len() == k,
                forall|i: int|
                    0 <= i < k ==> (#[trigger] out@[i]@.account_id) == base + i,
                forall|i: int| 0 <= i < k ==> (#[trigger] out@[i]).wf(),
                forall|i: int|
                    0 <= i < k ==> (#[trigger] out@[i]@.fee_setting) == (FeeSettingView::Auto {
                        gas_adjustment_centi: DEFAULT_GAS_ADJUSTMENT_CENTI,
                    }),
                forall|i: int, d: Seq<u8>|
                    0 <= i < k ==> #[trigger] self.engine.bal(base + i, d) == amount_of(
                        coins_v(coins@),
                        d,
                    ),
                forall|a: int, d: Seq<u8>|
                    0 <= a < base ==> #[trigger] self.engine.bal(a, d) == old(self).engine.bal(
                        a,
                        d,
                    ),
                self.engine.height == old(self).engine.height,
                self.engine.time_nanos == old(self).engine.time_nanos,
                self.engine.params == old(self).engine.params,
            decreases count - k,
        {
            match self.init_account(coins) {
                Ok(acct) => {
                    out.push(acct);
                },
                Err(e) => {
                    proof {
                        assert(false);
                    }
                    return Err(e);
                },
            }
            k = k + 1;
        }
        Ok(out)
    }

    /// Execute the message batch from the signer's account against
    /// current state without committing, and report the gas it would
    /// consume.  Mutates nothing — the batch runs on a scratch copy of
    /// the ledger, with the same per-message checks delivery makes and
    /// no fee taken.  Fails with `SimulationError`, carrying the
    /// engine's rejection reason, exactly when the signer is unknown
    /// or some message cannot apply in order.
    pub fn simulate_tx(&self, msgs: &Vec<Msg>, signer: &SigningAccount) -> (r: Result<
        GasInfo,
        RunnerError,
    >)
        requires
            self.engine.wf(),
        ensures
            match r {
                Ok(g) => {
                    &&& !sim_fails(self.engine, parsed_of(msgs@), signer@.account_id)
                    &&& g == (GasInfo {
                        gas_wanted: cap_u64(gas_for(msgs@.len() as int)),
                        gas_used: cap_u64(gas_for(msgs@.len() as int)),
                    })
                },
                Err(e) => {
                    &&& sim_fails(self.engine, parsed_of(msgs@), signer@.account_id)
                    &&& e matches RunnerError::SimulationError { log } && log@ == log_of(
                        sim_fail_code(self.engine, parsed_of(msgs@), signer@.account_id),
                    )
                },
            },
    {
        self.engine.simulate(msgs, signer.account_id())
    }

    /// Replace (whole, never merged) the parameter set stored for a
    /// subspace.  Takes effect for the next read; clock and ledger do
    /// not move.
    pub fn set_param_set(&mut self, subspace: &str, pset: Msg) -> (r: Result<(), RunnerError>)
        requires
            old(self).engine.wf(),
        ensures
            final(self).engine.wf(),
            r is Ok,
            crate::engine::params_v(final(self).engine.params@) == crate::engine::params_set(
                crate::engine::params_v(old(self).engine.params@),
                crate::engine::ParamView { subspace: subspace@, pset: pset@ },
            ),
            final(self).engine.accounts == old(self).engine.accounts,
            final(self).engine.height == old(self).engine.height,
            final(self).engine.time_nanos == old(self).engine.time_nanos,
    {
        self.engine.set_param(subspace, pset)
    }

    /// Read the parameter set stored for a subspace as the expected
    /// type.  `NotFound` exactly when the subspace has nothing stored;
    /// `DecodeError` exactly when the stored blob is of another type.
    pub fn get_param_set(&self, subspace: &str, type_url: &str) -> (r: Result<Msg, RunnerError>)
        requires
            self.engine.wf(),
        ensures
            match r {
                Ok(m) => crate::engine::param_of(
                    crate::engine::params_v(self.engine.params@),
                    subspace@,
                ) == Some(m@) && m@.type_url == type_url@,
                Err(e) => match crate::engine::param_of(
                    crate::engine::params_v(self.engine.params@),
                    subspace@,
                ) {
                    Option::None => e matches RunnerError::NotFound,
                    Option::Some(m) => m.type_url != type_url@ && e
                        matches RunnerError::DecodeError,
                },
            },
    {
        self.engine.get_param(subspace, type_url)
    }

    /// Submit already-encoded messages as one atomic transaction
    /// signed by `signer`: the fee is resolved from the signer's
    /// policy (simulating first under the automatic one), the signer
    /// pays it, and either every message applies or the state is
    /// exactly what it was and the error says why.  A batch whose
    /// fee-sizing simulation fails under the automatic policy
    /// surfaces as `SimulationError`, carrying the engine's rejection
    /// reason; a batch rejected at delivery surfaces as
    /// `ExecutionError` with the engine's status code and log
    /// verbatim.
    pub fn execute_multiple_raw(&mut self, msgs: Vec<Msg>, signer: &SigningAccount) -> (r: Result<
        TxResponse,
        RunnerError,
    >)
        requires
            old(self).engine.wf(),
        ensures
            final(self).engine.wf(),
            final(self).engine.height == old(self).engine.height,
            final(self).engine.time_nanos == old(self).engine.time_nanos,
            final(self).engine.params == old(self).engine.params,
            final(self).engine.accounts@.len() == old(self).engine.accounts@.len(),
            match r {
                Ok(resp) => {
                    &&& execute_outcome(
                        old(self).engine,
                        parsed_of(msgs@),
                        signer@.fee_setting,
                        signer@.account_id,
                    ) == (ExecOutcome::Committed {
                        balances: bals(final(self).engine.accounts@),
                        gas_wanted: resp.gas_info.gas_wanted,
                    })
                    &&& resp.gas_info.gas_used == cap_u64(gas_for(msgs@.len() as int))
                    &&& resp.data@.len() == msgs@.len()
                    &&& forall|i: int|
                        0 <= i < msgs@.len() ==> (#[trigger] resp.data@[i]@)
                            == spec_u128_to_le_bytes(parsed_of(msgs@)[i]->Some_0.amount)
                },
                Err(e) => {
                    &&& *final(self) == *old(self)
                    &&& match execute_outcome(
                        old(self).engine,
                        parsed_of(msgs@),
                        signer@.fee_setting,
                        signer@.account_id,
                    ) {
                        ExecOutcome::InvalidFee => e matches RunnerError::InvalidFeeSetting,
                        ExecOutcome::SimulationRejected => e
                            matches RunnerError::SimulationError { log } && log@ == log_of(
                            sim_fail_code(
                                old(self).engine,
                                parsed_of(msgs@),
                                signer@.account_id,
                            ),
                        ),
                        ExecOutcome::Rejected { code } => e
                            matches RunnerError::ExecutionError { code: c, log } && c == code
                            && log@ == log_of(code),
                        ExecOutcome::Committed { .. } => false,
                    }
                },
            },
    {
        let fee = match signer.fee_setting() {
            FeeSetting::Auto { .. } => {
                let sim = match self.engine.simulate(&msgs, signer.account_id()) {
                    Ok(g) => g,
                    Err(e) => {
                        return Err(e);
                    },
                };
                match resolve_fee(signer.fee_setting(), sim) {
                    Ok(f) => f,
                    Err(e) => {
                        return Err(e);
                    },
                }
            },
            FeeSetting::Custom { .. } => {
                match resolve_fee(signer.fee_setting(), GasInfo { gas_wanted: 0, gas_used: 0 }) {
                    Ok(f) => f,
                    Err(e) => {
                        return Err(e);
                    },
                }
            },
        };
        self.engine.deliver_tx(&msgs, &fee, signer.account_id())
    }

    /// Submit typed transfers as one atomic transaction: each is
    /// encoded to its wire form, submitted as with
    /// [`Self::execute_multiple_raw`], and each message's response
    /// bytes are decoded back into the transferred amount.
    pub fn execute_multiple(&mut self, msgs: &Vec<Transfer>, signer: &SigningAccount) -> (r:
        Result<ExecuteResponse, RunnerError>)
        requires
            old(self).engine.wf(),
        ensures
            final(self).engine.wf(),
            final(self).engine.height == old(self).engine.height,
            final(self).engine.time_nanos == old(self).engine.time_nanos,
            final(self).engine.params == old(self).engine.params,
            final(self).engine.accounts@.len() == old(self).engine.accounts@.len(),
            match r {
                Ok(resp) => {
                    &&& execute_outcome(
                        old(self).engine,
                        transfers_parsed(msgs@),
                        signer@.fee_setting,
                        signer@.account_id,
                    ) == (ExecOutcome::Committed {
                        balances: bals(final(self).engine.accounts@),
                        gas_wanted: resp.gas_info.gas_wanted,
                    })
                    &&& resp.gas_info.gas_used == cap_u64(gas_for(msgs@.len() as int))
                    &&& resp.data@.len() == msgs@.len()
                    &&& forall|i: int|
                        0 <= i < msgs@.len() ==> (#[trigger] resp.data@[i]) == msgs@[i]@.amount
                },
                Err(e) => {
                    &&& *final(self) == *old(self)
                    &&& match execute_outcome(
                        old(self).engine,
                        transfers_parsed(msgs@),
                        signer@.fee_setting,
                        signer@.account_id,
                    ) {
                        ExecOutcome::InvalidFee => e matches RunnerError::InvalidFeeSetting,
                        ExecOutcome::SimulationRejected => e
                            matches RunnerError::SimulationError { log } && log@ == log_of(
                            sim_fail_code(
                                old(self).engine,
                                transfers_parsed(msgs@),
                                signer@.account_id,
                            ),
                        ),
                        ExecOutcome::Rejected { code } => e
                            matches RunnerError::ExecutionError { code: c, log } && c == code
                            && log@ == log_of(code),
                        ExecOutcome::Committed { .. } => false,
                    }
                },
            },
    {
        let mut encoded: Vec<Msg> = Vec::new();
        let mut i: usize = 0;
        while i < msgs.len()
            invariant
                i <= msgs@.len(),
                encoded@.len() == i,
                forall|k: int|
                    0 <= k < i ==> (#[trigger] parsed_of(encoded@)[k]) == Some(msgs@[k]@),
            decreases msgs@.len() - i,
        {
            let m = Msg { type_url: crate::engine::transfer_url(), value: msgs[i].encode() };
            proof {
                lemma_transfer_round_trip(msgs@[i as int]@);
                assert(parse_msg(m@) == Some(msgs@[i as int]@));
            }
            let ghost pre = encoded@;
            encoded.push(m);
            proof {
                assert forall|k: int| 0 <= k < i + 1 implies (#[trigger] parsed_of(encoded@)[k])
                    == Some(msgs@[k]@) by {
                    assert(parsed_of(encoded@)[k] == parse_msg(encoded@[k]@));
                    if k < i {
                        assert(encoded@[k] == pre[k]);
                        assert(parsed_of(pre)[k] == parse_msg(pre[k]@));
                    }
                }
            }
            i = i + 1;
        }
        proof {
            assert(parsed_of(encoded@) =~= transfers_parsed(msgs@));
        }
        let raw = match self.execute_multiple_raw(encoded, signer) {
            Ok(resp) => resp,
            Err(e) => {
                return Err(e);
            },
        };
        let mut data: Vec<u128> = Vec::new();
        let mut j: usize = 0;
        while j < raw.data.len()
            invariant
                j <= raw.data@.len(),
                raw.data@.len() == msgs@.len(),
                forall|k: int|
                    0 <= k < raw.data@.len() ==> (#[trigger] raw.data@[k]@)
                        == spec_u128_to_le_bytes(msgs@[k]@.amount),
                data@.len() == j,
                forall|k: int| 0 <= k < j ==> (#[trigger] data@[k]) == msgs@[k]@.amount,
            decreases raw.data@.len() - j,
        {
            proof {
                vstd::bytes::lemma_auto_spec_u128_to_from_le_bytes();
            }
            if raw.data[j].len() != 16 {
                return Err(RunnerError::DecodeError);
            }
            let amt = u128_from_le_bytes(raw.data[j].as_slice());
            data.push(amt);
            j = j + 1;
        }
        Ok(ExecuteResponse { data, gas_info: raw.gas_info })
    }

    /// Answer a read-only query.  The one path served is the balance
    /// path: the request is eight little-endian bytes of account id
    /// followed by the denomination's bytes, and the response is the
    /// sixteen little-endian bytes of that balance.  Consumes no gas
    /// and moves nothing; fails with `QueryError` exactly when the
    /// path has no handler or the request is too short.
    pub fn query(&self, path: &str, req: &Vec<u8>) -> (r: Result<Vec<u8>, RunnerError>)
        requires
            self.engine.wf(),
        ensures
            match r {
                Ok(bytes) => {
                    &&& path@ == balance_query_path()
                    &&& req@.len() >= 8
                    &&& bytes@ == spec_u128_to_le_bytes(
                        self.engine.bal(
                            spec_u64_from_le_bytes(req@.subrange(0, 8)) as int,
                            req@.skip(8),
                        ) as u128,
                    )
                },
                Err(e) => (path@ != balance_query_path() || req@.len() < 8) && e
                    matches RunnerError::QueryError,
            },
    {
        let handled: String = "/cosmos.bank.v1beta1.Query/Balance".to_owned();
        let given: String = path.to_owned();
        if !(given == handled) {
            return Err(RunnerError::QueryError);
        }
        if req.len() < 8 {
            return Err(RunnerError::QueryError);
        }
        let account = vstd::bytes::u64_from_le_bytes(slice_range(req.as_slice(), 0, 8));
        let denom = crate::coin::bytes_of_slice(slice_range(req.as_slice(), 8, req.len()));
        proof {
            assert(req@.skip(8) =~= req@.subrange(8, req@.len() as int));
        }
        let amount = self.engine.balance_of(account, &denom);
        Ok(u128_to_le_bytes(amount))
    }

    /// The balance of one denomination on one account, through the
    /// query path.
    pub fn query_balance(&self, account: u64, denom: &Vec<u8>) -> (r: Result<u128, RunnerError>)
        requires
            self.engine.wf(),
        ensures
            r is Ok,
            r->Ok_0 == self.engine.bal(account as int, denom@),
    {
        let mut req = u64_to_le_bytes(account);
        let mut den = crate::coin::clone_bytes(denom);
        req.append(&mut den);
        proof {
            vstd::bytes::lemma_auto_spec_u64_to_from_le_bytes();
            assert(req@.subrange(0, 8) =~= vstd::bytes::spec_u64_to_le_bytes(account));
            assert(req@.skip(8) =~= denom@);
            if 0 <= account < self.engine.accounts@.len() {
                crate::coin::lemma_amount_bounded(
                    coins_v(self.engine.accounts@[account as int]@),
                    denom@,
                );
            }
        }
        let resp = match self.query("/cosmos.bank.v1beta1.Query/Balance", &req) {
            Ok(b) => b,
            Err(_) => {
                proof {
                    assert(false);
                }
                return Err(RunnerError::QueryError);
            },
        };
        proof {
            vstd::bytes::lemma_auto_spec_u128_to_from_le_bytes();
        }
        if resp.len() != 16 {
            proof {
                assert(false);
            }
            return Err(RunnerError::QueryError);
        }
        Ok(u128_from_le_bytes(resp.as_slice()))
    }
}

impl Default for OsmosisTestApp {
    /// A fresh chain, as [`OsmosisTestApp::new`] with no working
    /// directory.
    fn default() -> (r: OsmosisTestApp)
        ensures
            r.engine.wf(),
            r.engine.height == 1,
            r.engine.time_nanos == INITIAL_TIME_NANOS,
            r.engine.accounts@.len() == 1,
            forall|d: Seq<u8>| #[trigger] r.engine.bal(0, d) == if d
                == crate::fee::fee_denom_bytes() {
                VALIDATOR_BALANCE as int
            } else {
                0
            },
            r.engine.params@.len() == 0,
    {
        OsmosisTestApp::new(None)
    }
}

} // verus!
