//! The deterministic in-process chain-state engine.
//!
//! The engine is the system of record: it holds every account's
//! balances, the chain clock, and each subspace's parameter set.  All
//! ledger mutation goes through it, and a transaction is atomic: either
//! every message's effect is committed, or none is and the state is
//! exactly what it was.
//!
//! Accounts are numbered in order of creation; account `0` is the
//! genesis validator.

use vstd::prelude::*;

verus! {

use crate::coin::{
    Coin, CoinView, amount_of, check_coin_list, clone_coins, coin_list_valid, coins_v, coins_wf,
    credit, debit, lemma_amount_bounded,
};
use crate::msg::{Msg, MsgView, Transfer, TransferView, spec_parse_transfer};
use crate::fee::{Fee, GasInfo, cap_u64};
use crate::error::RunnerError;
use vstd::bytes::{spec_u128_to_le_bytes, u128_to_le_bytes};

/// Block time at genesis, in nanoseconds.
pub const INITIAL_TIME_NANOS: i64 = 1_577_923_200_000_000_000;

/// Fee-denomination balance minted to the genesis validator.
pub const VALIDATOR_BALANCE: u128 = 1_000_000_000_000_000_000;

/// Gas every transaction consumes before its first message.
pub const BASE_GAS: u64 = 50_000;

/// Gas each message consumes.
pub const PER_MSG_GAS: u64 = 10_000;

/// Status code: the signing account is not known to the chain.
pub const CODE_UNKNOWN_ACCOUNT: u32 = 9;

/// Status code: the gas the transaction needs exceeds its gas limit.
pub const CODE_OUT_OF_GAS: u32 = 11;

/// Status code: the signer cannot pay the fee.
pub const CODE_INSUFFICIENT_FEE: u32 = 13;

/// Status code: a message's type path is unknown or its bytes do not
/// parse.
pub const CODE_INVALID_MSG: u32 = 2;

/// Status code: a transfer moves a zero amount or an empty
/// denomination.
pub const CODE_INVALID_COINS: u32 = 10;

/// Status code: a transfer names an account that does not exist.
pub const CODE_UNKNOWN_RECIPIENT: u32 = 18;

/// Status code: a transfer would push a balance over the
/// representable range.
pub const CODE_OVERFLOW: u32 = 19;

/// The engine's log text for a status code.
pub open spec fn log_of(code: u32) -> Seq<char> {
    if code == CODE_UNKNOWN_ACCOUNT {
        "unknown signing account"@
    } else if code == CODE_OUT_OF_GAS {
        "out of gas"@
    } else if code == CODE_INSUFFICIENT_FEE {
        "insufficient funds for fee"@
    } else if code == CODE_INVALID_MSG {
        "invalid message"@
    } else if code == CODE_INSUFFICIENT_FUNDS {
        "insufficient funds"@
    } else if code == CODE_INVALID_COINS {
        "invalid coins"@
    } else if code == CODE_UNKNOWN_RECIPIENT {
        "unknown recipient"@
    } else if code == CODE_OVERFLOW {
        "balance overflow"@
    } else {
        "transaction failed"@
    }
}

/// The engine's log text for a status code.
fn log_text(code: u32) -> (r: String)
    ensures
        r@ == log_of(code),
{
    if code == CODE_UNKNOWN_ACCOUNT {
        "unknown signing account".to_owned()
    } else if code == CODE_OUT_OF_GAS {
        "out of gas".to_owned()
    } else if code == CODE_INSUFFICIENT_FEE {
        "insufficient funds for fee".to_owned()
    } else if code == CODE_INVALID_MSG {
        "invalid message".to_owned()
    } else if code == CODE_INSUFFICIENT_FUNDS {
        "insufficient funds".to_owned()
    } else if code == CODE_INVALID_COINS {
        "invalid coins".to_owned()
    } else if code == CODE_UNKNOWN_RECIPIENT {
        "unknown recipient".to_owned()
    } else if code == CODE_OVERFLOW {
        "balance overflow".to_owned()
    } else {
        "transaction failed".to_owned()
    }
}

/// Build the execution error the engine reports for a status code.
fn execution_error(code: u32) -> (e: RunnerError)
    ensures
        e matches RunnerError::ExecutionError { code: c, log } && c == code && log@ == log_of(
            code,
        ),
{
    RunnerError::ExecutionError { code, log: log_text(code) }
}

/// Build the simulation error the engine reports for a status code.
fn simulation_error(code: u32) -> (e: RunnerError)
    ensures
        e matches RunnerError::SimulationError { log } && log@ == log_of(code),
{
    RunnerError::SimulationError { log: log_text(code) }
}

/// The type path of the transfer message.
pub open spec fn transfer_type_url() -> Seq<char> {
    "/cosmos.bank.v1beta1.MsgSend"@
}

/// The type path of the transfer message.
pub fn transfer_url() -> (r: String)
    ensures
        r@ == transfer_type_url(),
{
    "/cosmos.bank.v1beta1.MsgSend".to_owned()
}

/// What a message means to the engine: a transfer, or nothing it can
/// execute.
pub open spec fn parse_msg(m: MsgView) -> Option<TransferView> {
    if m.type_url == transfer_type_url() {
        spec_parse_transfer(m.value)
    } else {
        None
    }
}

/// Interpret one message.
pub fn parse_msg_exec(m: &Msg) -> (r: Option<Transfer>)
    ensures
        match r {
            Some(t) => parse_msg(m@) == Some(t@),
            None => parse_msg(m@) is None,
        },
{
    let url = transfer_url();
    if m.type_url == url {
        Transfer::parse(&m.value)
    } else {
        None
    }
}

/// Gas a transaction of `n` messages consumes.
pub open spec fn gas_for(n: int) -> int {
    BASE_GAS + PER_MSG_GAS * n
}

/// Gas a transaction of `n` messages consumes, clamped to the machine
/// range.
pub fn tx_gas(n: usize) -> (r: u64)
    ensures
        r == cap_u64(gas_for(n as int)),
{
    proof {
        assert((BASE_GAS as int) + (PER_MSG_GAS as int) * (n as int) <= u128::MAX)
            by (nonlinear_arith)
            requires
                n <= u64::MAX,
        ;
    }
    let g: u128 = (BASE_GAS as u128) + (PER_MSG_GAS as u128) * (n as u128);
    if g > u64::MAX as u128 {
        u64::MAX
    } else {
        g as u64
    }
}

/// Balances of every account and denomination, as one total map.
pub open spec fn bals(accounts: Seq<Vec<Coin>>) -> Map<(int, Seq<u8>), int> {
    Map::total(
        |k: (int, Seq<u8>)|
            if 0 <= k.0 < accounts.len() {
                amount_of(coins_v(accounts[k.0]@), k.1)
            } else {
                0
            },
    )
}

/// What one transfer does to the balance map: the step fails on an
/// unknown recipient, a degenerate coin, an insufficient balance, or a
/// balance that would overflow; otherwise it moves the amount.
pub open spec fn spec_transfer(
    b: Map<(int, Seq<u8>), int>,
    n: int,
    from: int,
    t: TransferView,
) -> Result<Map<(int, Seq<u8>), int>, u32> {
    if t.to >= n {
        Err(CODE_UNKNOWN_RECIPIENT)
    } else if t.denom.len() == 0 || t.amount == 0 {
        Err(CODE_INVALID_COINS)
    } else if b[(from, t.denom)] < t.amount {
        Err(CODE_INSUFFICIENT_FUNDS)
    } else {
        let b1 = b.insert((from, t.denom), b[(from, t.denom)] - t.amount);
        if b1[(t.to as int, t.denom)] + t.amount > u128::MAX {
            Err(CODE_OVERFLOW)
        } else {
            Ok(b1.insert((t.to as int, t.denom), b1[(t.to as int, t.denom)] + t.amount))
        }
    }
}

/// Status code: a transfer exceeds the sender's balance.
pub const CODE_INSUFFICIENT_FUNDS: u32 = 5;

/// What paying a fee, coin by coin in order, does to the balance map;
/// `None` when some coin exceeds the payer's balance at its turn.
pub open spec fn spec_charge(
    b: Map<(int, Seq<u8>), int>,
    from: int,
    fees: Seq<CoinView>,
) -> Option<Map<(int, Seq<u8>), int>>
    decreases fees.len(),
{
    if fees.len() <= 0 {
        Some(b)
    } else {
        let c = fees[0];
        if c.amount <= b[(from, c.denom)] {
            spec_charge(
                b.insert((from, c.denom), b[(from, c.denom)] - c.amount),
                from,
                fees.skip(1),
            )
        } else {
            None
        }
    }
}

/// What executing the messages in order does to the balance map:
/// either every message applies, or the index and status code of the
/// first that does not.
pub open spec fn spec_run(
    b: Map<(int, Seq<u8>), int>,
    n: int,
    from: int,
    ms: Seq<Option<TransferView>>,
) -> Result<Map<(int, Seq<u8>), int>, (int, u32)>
    decreases ms.len(),
{
    if ms.len() <= 0 {
        Ok(b)
    } else {
        match ms[0] {
            Option::None => Err((0, CODE_INVALID_MSG)),
            Option::Some(t) => match spec_transfer(b, n, from, t) {
                Result::Err(c) => Err((0, c)),
                Result::Ok(b2) => match spec_run(b2, n, from, ms.skip(1)) {
                    Result::Ok(b3) => Ok(b3),
                    Result::Err((i, c)) => Err((i + 1, c)),
                },
            },
        }
    }
}

/// The meaning of each message of a transaction.
pub open spec fn parsed_of(msgs: Seq<Msg>) -> Seq<Option<TransferView>> {
    msgs.map_values(|m: Msg| parse_msg(m@))
}

/// Changing the balances of one account by a delta in one
/// denomination is one insertion into the balance map.
pub proof fn lemma_bals_one_account(
    acc1: Seq<Vec<Coin>>,
    acc2: Seq<Vec<Coin>>,
    a: int,
    d: Seq<u8>,
    delta: int,
)
    requires
        acc1.len() == acc2.len(),
        0 <= a < acc1.len(),
        forall|x: int| 0 <= x < acc1.len() && x != a ==> acc2[x] == acc1[x],
        forall|d2: Seq<u8>| #[trigger] amount_of(coins_v(acc2[a]@), d2) == amount_of(
            coins_v(acc1[a]@),
            d2,
        ) + (if d2 == d {
            delta
        } else {
            0
        }),
    ensures
        bals(acc2) == bals(acc1).insert((a, d), bals(acc1)[(a, d)] + delta),
{
    let m1 = bals(acc1).insert((a, d), bals(acc1)[(a, d)] + delta);
    let m2 = bals(acc2);
    assert forall|k: (int, Seq<u8>)| #[trigger] m2[k] == m1[k] by {
        if k.0 == a {
            if k.1 == d {
                assert(m2[k] == amount_of(coins_v(acc2[a]@), d));
            } else {
                assert(amount_of(coins_v(acc2[a]@), k.1) == amount_of(coins_v(acc1[a]@), k.1));
            }
        } else if 0 <= k.0 < acc1.len() {
            assert(acc2[k.0] == acc1[k.0]);
        }
    }
    assert(m2 =~= m1);
}

/// One committed transaction's response: the engine's raw bytes for
/// each message, and the gas accounting.
#[derive(Debug)]
pub struct TxResponse {
    /// The engine's response bytes, one entry per message.
    pub data: Vec<Vec<u8>>,
    /// Gas allowed and gas used.
    pub gas_info: GasInfo,
}

/// What delivering a transaction yields: the balance map after every
/// message, or the status code of the first failure.  The checks run
/// in order: the signer must exist, the gas the transaction needs must
/// fit its limit, the fee is paid, then every message applies.
pub open spec fn deliver_outcome(
    pre: Engine,
    parsed: Seq<Option<TransferView>>,
    fee_coins: Seq<CoinView>,
    gas_limit: u64,
    signer: u64,
) -> Result<Map<(int, Seq<u8>), int>, u32> {
    let n = pre.accounts@.len() as int;
    if signer >= n {
        Err(CODE_UNKNOWN_ACCOUNT)
    } else if cap_u64(gas_for(parsed.len() as int)) > gas_limit {
        Err(CODE_OUT_OF_GAS)
    } else {
        match spec_charge(bals(pre.accounts@), signer as int, fee_coins) {
            Option::None => Err(CODE_INSUFFICIENT_FEE),
            Option::Some(b1) => match spec_run(b1, n, signer as int, parsed) {
                Result::Ok(b2) => Ok(b2),
                Result::Err((i, c)) => Err(c),
            },
        }
    }
}

/// Whether simulating the batch from `signer` fails against the
/// engine's current state: the signer is unknown, or some message
/// cannot apply in order.  No fee is sized yet when a batch is
/// simulated, so the fee plays no part here.
pub open spec fn sim_fails(pre: Engine, parsed: Seq<Option<TransferView>>, signer: u64) -> bool {
    ||| signer >= pre.accounts@.len()
    ||| spec_run(
        bals(pre.accounts@),
        pre.accounts@.len() as int,
        signer as int,
        parsed,
    ) is Err
}

/// The status code whose log a failing simulation reports.
pub open spec fn sim_fail_code(
    pre: Engine,
    parsed: Seq<Option<TransferView>>,
    signer: u64,
) -> u32 {
    if signer >= pre.accounts@.len() {
        CODE_UNKNOWN_ACCOUNT
    } else {
        spec_run(
            bals(pre.accounts@),
            pre.accounts@.len() as int,
            signer as int,
            parsed,
        )->Err_0.1
    }
}

/// One subspace's stored parameter set.
pub struct Param {
    /// The subspace the set belongs to.
    pub subspace: String,
    /// The stored parameter set, an opaque typed blob.
    pub pset: Msg,
}

/// The mathematical value of a [`Param`].
pub ghost struct ParamView {
    pub subspace: Seq<char>,
    pub pset: MsgView,
}

impl View for Param {
    type V = ParamView;

    open spec fn view(&self) -> ParamView {
        ParamView { subspace: self.subspace@, pset: self.pset@ }
    }
}

/// The mathematical value of a parameter store.
pub open spec fn params_v(s: Seq<Param>) -> Seq<ParamView> {
    s.map_values(|p: Param| p@)
}

/// The parameter set stored for a subspace, if any.
pub open spec fn param_of(s: Seq<ParamView>, sub: Seq<char>) -> Option<MsgView>
    decreases s.len(),
{
    if s.len() <= 0 {
        None
    } else if s[0].subspace == sub {
        Some(s[0].pset)
    } else {
        param_of(s.skip(1), sub)
    }
}

/// A parameter store with the set for `p`'s subspace replaced whole by
/// `p` (appended when the subspace had none).
pub open spec fn params_set(s: Seq<ParamView>, p: ParamView) -> Seq<ParamView>
    decreases s.len(),
{
    if s.len() <= 0 {
        seq![p]
    } else if s[0].subspace == p.subspace {
        seq![p] + s.skip(1)
    } else {
        seq![s[0]] + params_set(s.skip(1), p)
    }
}

/// Replacing a subspace's set stores it there and touches no other
/// subspace: reading the subspace back gives the stored value.
pub proof fn lemma_param_round_trip(s: Seq<ParamView>, p: ParamView)
    ensures
        param_of(params_set(s, p), p.subspace) == Some(p.pset),
        forall|sub2: Seq<char>|
            sub2 != p.subspace ==> #[trigger] param_of(params_set(s, p), sub2) == param_of(
                s,
                sub2,
            ),
    decreases s.len(),
{
    let s2 = params_set(s, p);
    if s.len() <= 0 {
        assert(s2 =~= seq![p]);
        assert(s2[0] == p);
        assert(s2.skip(1) =~= Seq::<ParamView>::empty());
        assert forall|sub2: Seq<char>| sub2 != p.subspace implies #[trigger] param_of(s2, sub2)
            == param_of(s, sub2) by {
            assert(param_of(s2, sub2) == param_of(s2.skip(1), sub2));
            assert(param_of(s2.skip(1), sub2) is None);
        }
    } else if s[0].subspace == p.subspace {
        assert(s2[0] == p);
        assert(s2.skip(1) =~= s.skip(1));
        assert forall|sub2: Seq<char>| sub2 != p.subspace implies #[trigger] param_of(s2, sub2)
            == param_of(s, sub2) by {
            assert(param_of(s2, sub2) == param_of(s2.skip(1), sub2));
            assert(param_of(s, sub2) == param_of(s.skip(1), sub2));
        }
    } else {
        assert(s2[0] == s[0]);
        assert(s2.skip(1) =~= params_set(s.skip(1), p));
        lemma_param_round_trip(s.skip(1), p);
        assert(param_of(s2, p.subspace) == param_of(s2.skip(1), p.subspace));
        assert forall|sub2: Seq<char>| sub2 != p.subspace implies #[trigger] param_of(s2, sub2)
            == param_of(s, sub2) by {
            assert(param_of(params_set(s.skip(1), p), sub2) == param_of(s.skip(1), sub2));
            if s[0].subspace != sub2 {
                assert(param_of(s2, sub2) == param_of(s2.skip(1), sub2));
                assert(param_of(s, sub2) == param_of(s.skip(1), sub2));
            }
        }
    }
}

/// When `i` is the first entry of a subspace, reading the store gives
/// that entry.
pub proof fn lemma_param_first(s: Seq<ParamView>, i: int, sub: Seq<char>)
    requires
        0 <= i < s.len(),
        s[i].subspace == sub,
        forall|j: int| 0 <= j < i ==> (#[trigger] s[j].subspace) != sub,
    ensures
        param_of(s, sub) == Some(s[i].pset),
    decreases s.len(),
{
    if i > 0 {
        assert(forall|j: int|
            0 <= j < s.skip(1).len() ==> (#[trigger] s.skip(1)[j]) == s[j + 1]);
        lemma_param_first(s.skip(1), i - 1, sub);
    }
}

/// A subspace no entry names has nothing stored.
pub proof fn lemma_param_absent(s: Seq<ParamView>, sub: Seq<char>)
    requires
        forall|j: int| 0 <= j < s.len() ==> (#[trigger] s[j].subspace) != sub,
    ensures
        param_of(s, sub) is None,
    decreases s.len(),
{
    if s.len() > 0 {
        assert(forall|j: int|
            0 <= j < s.skip(1).len() ==> (#[trigger] s.skip(1)[j]) == s[j + 1]);
        lemma_param_absent(s.skip(1), sub);
    }
}

/// When `i` is the first entry of `p`'s subspace, replacement is the
/// update at `i`.
pub proof fn lemma_params_set_at(s: Seq<ParamView>, i: int, p: ParamView)
    requires
        0 <= i < s.len(),
        s[i].subspace == p.subspace,
        forall|j: int| 0 <= j < i ==> (#[trigger] s[j].subspace) != p.subspace,
    ensures
        params_set(s, p) == s.update(i, p),
    decreases s.len(),
{
    if i == 0 {
        assert(params_set(s, p) =~= s.update(0, p));
    } else {
        assert(forall|j: int|
            0 <= j < s.skip(1).len() ==> (#[trigger] s.skip(1)[j]) == s[j + 1]);
        lemma_params_set_at(s.skip(1), i - 1, p);
        assert(params_set(s, p) =~= s.update(i, p));
    }
}

/// When no entry has `p`'s subspace, replacement is an append.
pub proof fn lemma_params_set_absent(s: Seq<ParamView>, p: ParamView)
    requires
        forall|j: int| 0 <= j < s.len() ==> (#[trigger] s[j].subspace) != p.subspace,
    ensures
        params_set(s, p) == s.push(p),
    decreases s.len(),
{
    if s.len() <= 0 {
        assert(params_set(s, p) =~= s.push(p));
    } else {
        assert(forall|j: int|
            0 <= j < s.skip(1).len() ==> (#[trigger] s.skip(1)[j]) == s[j + 1]);
        lemma_params_set_absent(s.skip(1), p);
        assert(params_set(s, p) =~= s.push(p));
    }
}

/// Copy every account's balance list.
fn clone_accounts(accounts: &Vec<Vec<Coin>>) -> (r: Vec<Vec<Coin>>)
    ensures
        r@.len() == accounts@.len(),
        forall|a: int| 0 <= a < accounts@.len() ==> coins_v(#[trigger] r@[a]@) == coins_v(
            accounts@[a]@,
        ),
{
    let mut r: Vec<Vec<Coin>> = Vec::new();
    let mut i: usize = 0;
    while i < accounts.len()
        invariant
            i <= accounts@.len(),
            r@.len() == i,
            forall|a: int| 0 <= a < i ==> coins_v(#[trigger] r@[a]@) == coins_v(accounts@[a]@),
        decreases accounts@.len() - i,
    {
        r.push(clone_coins(&accounts[i]));
        i = i + 1;
    }
    r
}

/// Apply one transfer from `from` to the working ledger: all its
/// checks first, so that a failing step leaves the ledger untouched.
fn apply_transfer(work: &mut Vec<Vec<Coin>>, from: usize, t: &Transfer) -> (r: Result<(), u32>)
    requires
        from < old(work)@.len(),
        forall|a: int|
            0 <= a < old(work)@.len() ==> coins_wf(coins_v(#[trigger] old(work)@[a]@)),
    ensures
        final(work)@.len() == old(work)@.len(),
        forall|a: int|
            0 <= a < final(work)@.len() ==> coins_wf(coins_v(#[trigger] final(work)@[a]@)),
        match r {
            Ok(u) => spec_transfer(bals(old(work)@), old(work)@.len() as int, from as int, t@)
                == Ok::<_, u32>(bals(final(work)@)),
            Err(c) => spec_transfer(bals(old(work)@), old(work)@.len() as int, from as int, t@)
                == Err::<Map<(int, Seq<u8>), int>, _>(c) && final(work)@ == old(work)@,
        },
{
    let n = work.len();
    let ghost b0 = bals(work@);
    if t.to >= n as u64 {
        return Err(CODE_UNKNOWN_RECIPIENT);
    }
    if t.denom.len() == 0 || t.amount == 0 {
        return Err(CODE_INVALID_COINS);
    }
    let to = t.to as usize;
    let mut fc = clone_coins(&work[from]);
    proof {
        assert(b0[(from as int, t@.denom)] == amount_of(coins_v(work@[from as int]@), t@.denom));
    }
    if let Err(_) = debit(&mut fc, &t.denom, t.amount) {
        return Err(CODE_INSUFFICIENT_FUNDS);
    }
    let ghost b1 = b0.insert(
        (from as int, t@.denom),
        b0[(from as int, t@.denom)] - t@.amount,
    );
    if to == from {
        proof {
            lemma_amount_bounded(coins_v(work@[from as int]@), t@.denom);
        }
        let cr = credit(&mut fc, &t.denom, t.amount);
        proof {
            assert(cr is Ok);
        }
        let ghost pre = work@;
        work[from] = fc;
        proof {
            lemma_bals_one_account(pre, work@, from as int, t@.denom, 0);
            assert(bals(work@) =~= b0);
            assert(b1[(t@.to as int, t@.denom)] + t@.amount <= u128::MAX);
            assert(b1.insert((t@.to as int, t@.denom), b1[(t@.to as int, t@.denom)] + t@.amount)
                =~= b0);
        }
        Ok(())
    } else {
        let mut tc = clone_coins(&work[to]);
        proof {
            assert(b0[(to as int, t@.denom)] == amount_of(coins_v(work@[to as int]@), t@.denom));
        }
        if let Err(_) = credit(&mut tc, &t.denom, t.amount) {
            proof {
                assert(b1[(to as int, t@.denom)] == b0[(to as int, t@.denom)]);
            }
            return Err(CODE_OVERFLOW);
        }
        let ghost pre1 = work@;
        work[from] = fc;
        let ghost pre2 = work@;
        work[to] = tc;
        proof {
            lemma_bals_one_account(pre1, pre2, from as int, t@.denom, -(t@.amount as int));
            assert(bals(pre2) == b1);
            lemma_bals_one_account(
                pre2,
                work@,
                to as int,
                t@.denom,
                t@.amount as int,
            );
            assert(b1[(to as int, t@.denom)] == b0[(to as int, t@.denom)]);
        }
        Ok(())
    }
}

/// Apply the message batch in order to the working ledger, collecting
/// each message's response bytes.  On failure the status code of the
/// first message that cannot apply comes back, and the ledger may be
/// left mid-batch: the caller must discard it.
fn run_msgs(work: &mut Vec<Vec<Coin>>, msgs: &Vec<Msg>, signer: usize) -> (r: Result<
    Vec<Vec<u8>>,
    u32,
>)
    requires
        signer < old(work)@.len(),
        forall|a: int|
            0 <= a < old(work)@.len() ==> coins_wf(coins_v(#[trigger] old(work)@[a]@)),
    ensures
        final(work)@.len() == old(work)@.len(),
        forall|a: int|
            0 <= a < final(work)@.len() ==> coins_wf(coins_v(#[trigger] final(work)@[a]@)),
        match r {
            Ok(data) => {
                &&& spec_run(
                    bals(old(work)@),
                    old(work)@.len() as int,
                    signer as int,
                    parsed_of(msgs@),
                ) == Ok::<_, (int, u32)>(bals(final(work)@))
                &&& data@.len() == msgs@.len()
                &&& forall|i: int|
                    0 <= i < msgs@.len() ==> (#[trigger] data@[i]@) == spec_u128_to_le_bytes(
                        parsed_of(msgs@)[i]->Some_0.amount,
                    )
            },
            Err(c) => spec_run(
                bals(old(work)@),
                old(work)@.len() as int,
                signer as int,
                parsed_of(msgs@),
            ) matches Err(ic) && ic.1 == c,
        },
{
    let n = work.len();
    let ghost b1 = bals(work@);
    let ghost parsed = parsed_of(msgs@);
    proof {
        assert(parsed.skip(0) =~= parsed);
    }
    let mut data: Vec<Vec<u8>> = Vec::new();
    let mut i: usize = 0;
    while i < msgs.len()
        invariant
            n == old(work)@.len(),
            signer < n,
            b1 == bals(old(work)@),
            parsed == parsed_of(msgs@),
            parsed.len() == msgs@.len(),
            i <= parsed.len(),
            work@.len() == n,
            forall|a: int| 0 <= a < n ==> coins_wf(coins_v(#[trigger] work@[a]@)),
            spec_run(b1, n as int, signer as int, parsed) == (match spec_run(
                bals(work@),
                n as int,
                signer as int,
                parsed.skip(i as int),
            ) {
                Result::Ok(b) => Ok::<_, (int, u32)>(b),
                Result::Err((jj, c)) => Err::<Map<(int, Seq<u8>), int>, _>((jj + i, c)),
            }),
            data@.len() == i,
            forall|k: int|
                0 <= k < i ==> (#[trigger] data@[k]@) == spec_u128_to_le_bytes(
                    parsed[k]->Some_0.amount,
                ),
        decreases parsed.len() - i,
    {
        proof {
            assert(parsed.skip(i as int)[0] == parsed[i as int]);
            assert(parsed.skip(i as int).skip(1) =~= parsed.skip(i + 1));
        }
        match parse_msg_exec(&msgs[i]) {
            None => {
                return Err(CODE_INVALID_MSG);
            },
            Some(t) => {
                match apply_transfer(work, signer, &t) {
                    Err(c) => {
                        return Err(c);
                    },
                    Ok(_) => {
                        data.push(u128_to_le_bytes(t.amount));
                    },
                }
            },
        }
        i = i + 1;
    }
    proof {
        assert(parsed.skip(parsed.len() as int) =~= Seq::<Option<TransferView>>::empty());
        assert(spec_run(b1, n as int, signer as int, parsed) == Ok::<_, (int, u32)>(
            bals(work@),
        ));
    }
    Ok(data)
}

/// The chain-state engine.
pub struct Engine {
    /// Balances of each account, indexed by account id.
    pub accounts: Vec<Vec<Coin>>,
    /// Current block height.
    pub height: i64,
    /// Current block time, in nanoseconds.
    pub time_nanos: i64,
    /// Stored parameter sets, one entry per subspace.
    pub params: Vec<Param>,
}

impl Engine {
    /// The engine's internal invariant: the clock started, the genesis
    /// validator exists, every balance list is well formed, and no
    /// subspace is stored twice.
    pub open spec fn wf(self) -> bool {
        &&& self.height >= 1
        &&& self.time_nanos >= 0
        &&& self.accounts@.len() >= 1
        &&& forall|a: int|
            0 <= a < self.accounts@.len() ==> coins_wf(coins_v(#[trigger] self.accounts@[a]@))
        &&& forall|i: int, j: int|
            0 <= i < j < self.params@.len() ==> params_v(self.params@)[i].subspace != params_v(
                self.params@,
            )[j].subspace
    }

    /// Balance of denomination `d` on account `a`; zero for an account
    /// that does not exist.
    pub open spec fn bal(self, a: int, d: Seq<u8>) -> int {
        if 0 <= a < self.accounts@.len() {
            amount_of(coins_v(self.accounts@[a]@), d)
        } else {
            0
        }
    }

    /// The fresh chain at genesis: height one, the genesis time, one
    /// validator account holding the fee denomination, no parameters.
    pub fn genesis() -> (e: Engine)
        ensures
            e.wf(),
            e.height == 1,
            e.time_nanos == INITIAL_TIME_NANOS,
            e.accounts@.len() == 1,
            forall|d: Seq<u8>| #[trigger] e.bal(0, d) == if d == crate::fee::fee_denom_bytes() {
                VALIDATOR_BALANCE as int
            } else {
                0
            },
            e.params@.len() == 0,
    {
        let vcoin = Coin { denom: crate::fee::fee_denom(), amount: VALIDATOR_BALANCE };
        let ghost cv = vcoin@;
        let balances: Vec<Coin> = vec![vcoin];
        let accounts: Vec<Vec<Coin>> = vec![balances];
        let e = Engine { accounts, height: 1, time_nanos: INITIAL_TIME_NANOS, params: Vec::new() };
        proof {
            assert(coins_v(e.accounts@[0]@) =~= seq![cv]);
            assert forall|d: Seq<u8>| #[trigger] e.bal(0, d) == (if d
                == crate::fee::fee_denom_bytes() {
                VALIDATOR_BALANCE as int
            } else {
                0
            }) by {
                let s = coins_v(e.accounts@[0]@);
                assert(s[0] == cv);
                assert(s.skip(1) =~= Seq::<CoinView>::empty());
                assert(amount_of(s.skip(1), d) == 0);
                assert(cv.denom == crate::fee::fee_denom_bytes());
            }
        }
        e
    }

    /// Produce one new block: height advances by exactly one, time by
    /// exactly `seconds`.  Nothing else changes.
    pub fn advance_block(&mut self, seconds: u64)
        requires
            old(self).wf(),
            old(self).time_nanos + seconds * 1_000_000_000 <= i64::MAX,
            old(self).height < i64::MAX,
        ensures
            final(self).wf(),
            final(self).height == old(self).height + 1,
            final(self).time_nanos == old(self).time_nanos + seconds * 1_000_000_000,
            final(self).accounts == old(self).accounts,
            final(self).params == old(self).params,
    {
        self.height = self.height + 1;
        self.time_nanos = self.time_nanos + (seconds as i64) * 1_000_000_000;
    }

    /// Replace (whole, never merged) the parameter set stored for a
    /// subspace.  Takes effect for the next read; the clock and the
    /// ledger do not move.
    pub fn set_param(&mut self, subspace: &str, pset: Msg) -> (r: Result<(), RunnerError>)
        requires
            old(self).wf(),
        ensures
            final(self).wf(),
            r is Ok,
            params_v(final(self).params@) == params_set(
                params_v(old(self).params@),
                ParamView { subspace: subspace@, pset: pset@ },
            ),
            final(self).accounts == old(self).accounts,
            final(self).height == old(self).height,
            final(self).time_nanos == old(self).time_nanos,
    {
        let ghost pre = params_v(self.params@);
        let ghost pv = ParamView { subspace: subspace@, pset: pset@ };
        let sub: String = subspace.to_owned();
        let mut i: usize = 0;
        while i < self.params.len()
            invariant
                *self == *old(self),
                old(self).wf(),
                pre == params_v(self.params@),
                i <= self.params@.len(),
                forall|j: int| 0 <= j < pre.len() ==> (#[trigger] pre[j]) == self.params@[j]@,
                sub@ == subspace@,
                pv == (ParamView { subspace: subspace@, pset: pset@ }),
                forall|j: int| 0 <= j < i ==> (#[trigger] pre[j].subspace) != subspace@,
            decreases self.params@.len() - i,
        {
            if self.params[i].subspace == sub {
                proof {
                    assert(self.params@[i as int].subspace@ == sub@);
                    assert(pre[i as int] == self.params@[i as int]@);
                    assert(pre[i as int].subspace == subspace@);
                    lemma_params_set_at(pre, i as int, pv);
                }
                let p = Param { subspace: sub, pset };
                self.params[i] = p;
                proof {
                    assert forall|k: int| 0 <= k < params_v(self.params@).len() implies (
                    #[trigger] params_v(self.params@)[k]) == pre.update(i as int, pv)[k] by {
                        assert(params_v(self.params@)[k] == self.params@[k]@);
                    }
                    assert(params_v(self.params@) =~= pre.update(i as int, pv));
                    assert forall|a: int, b: int|
                        0 <= a < b < params_v(self.params@).len() implies params_v(
                        self.params@,
                    )[a].subspace != params_v(self.params@)[b].subspace by {
                        assert(pre[a].subspace != pre[b].subspace);
                    }
                }
                return Ok(());
            }
            i = i + 1;
        }
        let p = Param { subspace: sub, pset };
        proof {
            lemma_params_set_absent(pre, pv);
        }
        self.params.push(p);
        proof {
            assert forall|k: int| 0 <= k < params_v(self.params@).len() implies (
            #[trigger] params_v(self.params@)[k]) == pre.push(pv)[k] by {
                assert(params_v(self.params@)[k] == self.params@[k]@);
            }
            assert(params_v(self.params@) =~= pre.push(pv));
            assert forall|a: int, b: int|
                0 <= a < b < params_v(self.params@).len() implies params_v(
                self.params@,
            )[a].subspace != params_v(self.params@)[b].subspace by {
                if b < pre.len() {
                    assert(pre[a].subspace != pre[b].subspace);
                } else {
                    assert(params_v(self.params@)[b] == pv);
                    assert(pre[a].subspace != subspace@);
                }
            }
        }
        Ok(())
    }

    /// Read the parameter set stored for a subspace, checking that it
    /// has the expected type path.  `NotFound` exactly when the
    /// subspace has nothing stored; `DecodeError` exactly when the
    /// stored blob's type path differs from the one asked for.
    pub fn get_param(&self, subspace: &str, type_url: &str) -> (r: Result<Msg, RunnerError>)
        requires
            self.wf(),
        ensures
            match r {
                Ok(m) => param_of(params_v(self.params@), subspace@) == Some(m@) && m@.type_url
                    == type_url@,
                Err(e) => match param_of(params_v(self.params@), subspace@) {
                    Option::None => e matches RunnerError::NotFound,
                    Option::Some(m) => m.type_url != type_url@ && e
                        matches RunnerError::DecodeError,
                },
            },
    {
        let ghost pre = params_v(self.params@);
        let sub: String = subspace.to_owned();
        let url: String = type_url.to_owned();
        let mut i: usize = 0;
        while i < self.params.len()
            invariant
                i <= self.params@.len(),
                pre == params_v(self.params@),
                pre.len() == self.params@.len(),
                forall|j: int| 0 <= j < pre.len() ==> (#[trigger] pre[j]) == self.params@[j]@,
                sub@ == subspace@,
                url@ == type_url@,
                forall|j: int| 0 <= j < i ==> (#[trigger] pre[j].subspace) != subspace@,
            decreases self.params@.len() - i,
        {
            if self.params[i].subspace == sub {
                proof {
                    assert(pre[i as int] == self.params@[i as int]@);
                    lemma_param_first(pre, i as int, subspace@);
                }
                if self.params[i].pset.type_url == url {
                    return Ok(self.params[i].pset.clone());
                } else {
                    return Err(RunnerError::DecodeError);
                }
            }
            i = i + 1;
        }
        proof {
            lemma_param_absent(pre, subspace@);
        }
        Err(RunnerError::NotFound)
    }

    /// Mint `coins` out of thin air and credit them to a freshly
    /// created account, whose id is returned.  All-or-nothing: fails
    /// with `FundingError`, touching nothing, exactly when the coin
    /// list is not a valid funding (an empty or repeated denomination,
    /// or a zero amount).
    pub fn init_account(&mut self, coins: &Vec<Coin>) -> (r: Result<u64, RunnerError>)
        requires
            old(self).wf(),
            old(self).accounts@.len() < u64::MAX,
        ensures
            final(self).wf(),
            r is Ok <==> coin_list_valid(coins_v(coins@)),
            r is Err ==> *final(self) == *old(self) && r->Err_0 matches RunnerError::FundingError,
            r is Ok ==> {
                &&& r->Ok_0 == old(self).accounts@.len()
                &&& final(self).accounts@.len() == old(self).accounts@.len() + 1
                &&& forall|d: Seq<u8>| #[trigger] final(self).bal(r->Ok_0 as int, d) == amount_of(
                    coins_v(coins@),
                    d,
                )
                &&& forall|a: int, d: Seq<u8>|
                    0 <= a < old(self).accounts@.len() ==> #[trigger] final(self).bal(a, d) == old(
                        self,
                    ).bal(a, d)
                &&& final(self).height == old(self).height
                &&& final(self).time_nanos == old(self).time_nanos
                &&& final(self).params == old(self).params
            },
    {
        if !check_coin_list(coins) {
            return Err(RunnerError::FundingError);
        }
        let id = self.accounts.len() as u64;
        let balances = clone_coins(coins);
        let ghost bv = coins_v(balances@);
        self.accounts.push(balances);
        proof {
            assert(forall|a: int|
                0 <= a < old(self).accounts@.len() ==> (#[trigger] self.accounts@[a]) == old(
                    self,
                ).accounts@[a]);
            assert(coins_v(self.accounts@[id as int]@) == bv);
            assert forall|a: int|
                0 <= a < self.accounts@.len() implies coins_wf(
                coins_v(#[trigger] self.accounts@[a]@),
            ) by {
                if a < id {
                    assert(coins_wf(coins_v(old(self).accounts@[a]@)));
                }
            }
        }
        Ok(id)
    }

    /// The balance of one denomination on one account; zero for an
    /// account that does not exist.
    pub fn balance_of(&self, account: u64, denom: &Vec<u8>) -> (r: u128)
        requires
            self.wf(),
        ensures
            r == self.bal(account as int, denom@),
    {
        if account >= self.accounts.len() as u64 {
            return 0;
        }
        let coins = &self.accounts[account as usize];
        match crate::coin::find_denom(coins, denom) {
            Some(i) => {
                proof {
                    assert(coins_v(coins@)[i as int] == coins@[i as int]@);
                    crate::coin::lemma_amount_unique(coins_v(coins@), i as int, denom@);
                }
                coins[i].amount
            },
            None => {
                proof {
                    assert forall|j: int| 0 <= j < coins_v(coins@).len() implies (
                    #[trigger] coins_v(coins@)[j].denom) != denom@ by {
                        assert(coins_v(coins@)[j] == coins@[j]@);
                    }
                    crate::coin::lemma_amount_absent(coins_v(coins@), denom@);
                }
                0
            },
        }
    }

    /// Execute the message batch from `signer`'s account against
    /// current state without committing anything, and report the gas
    /// it would consume.  The batch is applied, in order, to a scratch
    /// copy of the ledger with the same per-message checks delivery
    /// makes — no fee is taken and nothing is kept.  Fails with
    /// `SimulationError`, carrying the engine's rejection reason,
    /// exactly when the signer is unknown or some message cannot apply
    /// against current state.
    pub fn simulate(&self, msgs: &Vec<Msg>, signer: u64) -> (r: Result<GasInfo, RunnerError>)
        requires
            self.wf(),
        ensures
            match r {
                Ok(g) => {
                    &&& !sim_fails(*self, parsed_of(msgs@), signer)
                    &&& g == (GasInfo {
                        gas_wanted: cap_u64(gas_for(msgs@.len() as int)),
                        gas_used: cap_u64(gas_for(msgs@.len() as int)),
                    })
                },
                Err(e) => {
                    &&& sim_fails(*self, parsed_of(msgs@), signer)
                    &&& e matches RunnerError::SimulationError { log } && log@ == log_of(
                        sim_fail_code(*self, parsed_of(msgs@), signer),
                    )
                },
            },
    {
        if signer >= self.accounts.len() as u64 {
            return Err(simulation_error(CODE_UNKNOWN_ACCOUNT));
        }
        let mut work = clone_accounts(&self.accounts);
        proof {
            assert(bals(work@) =~= bals(self.accounts@));
        }
        match run_msgs(&mut work, msgs, signer as usize) {
            Ok(_) => {
                let g = tx_gas(msgs.len());
                Ok(GasInfo { gas_wanted: g, gas_used: g })
            },
            Err(c) => Err(simulation_error(c)),
        }
    }

    /// Deliver the message batch as one atomic transaction: the signer
    /// pays the fee, then every message applies in order, and the
    /// whole effect commits; or the first failure's status code comes
    /// back in an `ExecutionError` and the state is exactly what it
    /// was.  The response carries each message's raw response bytes
    /// (the transferred amount, little endian) and the gas accounting:
    /// gas allowed is the fee's gas limit, gas used is what the batch
    /// needs.  The clock and the parameter store do not move.
    pub fn deliver_tx(&mut self, msgs: &Vec<Msg>, fee: &Fee, signer: u64) -> (r: Result<
        TxResponse,
        RunnerError,
    >)
        requires
            old(self).wf(),
        ensures
            final(self).wf(),
            final(self).height == old(self).height,
            final(self).time_nanos == old(self).time_nanos,
            final(self).params == old(self).params,
            final(self).accounts@.len() == old(self).accounts@.len(),
            match r {
                Ok(resp) => {
                    &&& deliver_outcome(
                        *old(self),
                        parsed_of(msgs@),
                        fee@.amount,
                        fee.gas_limit,
                        signer,
                    ) == Ok::<_, u32>(bals(final(self).accounts@))
                    &&& resp.gas_info == (GasInfo {
                        gas_wanted: fee.gas_limit,
                        gas_used: cap_u64(gas_for(msgs@.len() as int)),
                    })
                    &&& resp.data@.len() == msgs@.len()
                    &&& forall|i: int|
                        0 <= i < msgs@.len() ==> (#[trigger] resp.data@[i]@)
                            == spec_u128_to_le_bytes(parsed_of(msgs@)[i]->Some_0.amount)
                },
                Err(e) => {
                    &&& *final(self) == *old(self)
                    &&& e matches RunnerError::ExecutionError { code, log } && Err::<
                        Map<(int, Seq<u8>), int>,
                        u32,
                    >(code) == deliver_outcome(
                        *old(self),
                        parsed_of(msgs@),
                        fee@.amount,
                        fee.gas_limit,
                        signer,
                    ) && log@ == log_of(code)
                },
            },
    {
        let n = self.accounts.len();
        if signer >= n as u64 {
            return Err(execution_error(CODE_UNKNOWN_ACCOUNT));
        }
        let signer_i = signer as usize;
        let gas = tx_gas(msgs.len());
        if gas > fee.gas_limit {
            return Err(execution_error(CODE_OUT_OF_GAS));
        }
        let ghost b0 = bals(self.accounts@);
        let ghost fees = fee@.amount;
        let mut work = clone_accounts(&self.accounts);
        proof {
            assert(bals(work@) =~= b0);
            assert(fees.skip(0) =~= fees);
        }
        let mut j: usize = 0;
        while j < fee.amount.len()
            invariant
                old(self).wf(),
                *self == *old(self),
                b0 == bals(old(self).accounts@),
                n == old(self).accounts@.len(),
                signer_i == signer < n,
                fees == fee@.amount,
                fees.len() == fee.amount@.len(),
                forall|k: int| 0 <= k < fees.len() ==> (#[trigger] fees[k]) == fee.amount@[k]@,
                j <= fees.len(),
                work@.len() == n,
                cap_u64(gas_for(msgs@.len() as int)) <= fee.gas_limit,
                forall|a: int| 0 <= a < n ==> coins_wf(coins_v(#[trigger] work@[a]@)),
                spec_charge(b0, signer as int, fees) == spec_charge(
                    bals(work@),
                    signer as int,
                    fees.skip(j as int),
                ),
            decreases fees.len() - j,
        {
            let ghost bpre = bals(work@);
            proof {
                assert(fees.skip(j as int)[0] == fees[j as int]);
                assert(fees.skip(j as int).skip(1) =~= fees.skip(j + 1));
                assert(bpre[(signer as int, fee.amount@[j as int]@.denom)] == amount_of(
                    coins_v(work@[signer as int]@),
                    fee.amount@[j as int]@.denom,
                ));
            }
            let mut sc = clone_coins(&work[signer_i]);
            if let Err(_) = debit(&mut sc, &fee.amount[j].denom, fee.amount[j].amount) {
                proof {
                    assert(spec_charge(bpre, signer as int, fees.skip(j as int)) is None);
                }
                return Err(execution_error(CODE_INSUFFICIENT_FEE));
            }
            let ghost pre = work@;
            work[signer_i] = sc;
            proof {
                lemma_bals_one_account(
                    pre,
                    work@,
                    signer as int,
                    fees[j as int].denom,
                    -(fees[j as int].amount as int),
                );
            }
            j = j + 1;
        }
        proof {
            assert(fees.skip(fees.len() as int) =~= Seq::<CoinView>::empty());
            assert(spec_charge(b0, signer as int, fees) == Some(bals(work@)));
        }
        let ghost b1 = bals(work@);
        match run_msgs(&mut work, msgs, signer_i) {
            Err(c) => Err(execution_error(c)),
            Ok(data) => {
                self.accounts = work;
                Ok(
                    TxResponse {
                        data,
                        gas_info: GasInfo { gas_wanted: fee.gas_limit, gas_used: gas },
                    },
                )
            },
        }
    }
}

} // verus!
