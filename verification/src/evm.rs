//! The EVM boundary: the world-state container and the one execution
//! primitive, both supplied by the `revm` crate and reached through trusted
//! wrappers.
//!
//! The world-state is modelled as a map from addresses to accounts
//! (`db_view`); what one execution does to it is named, not spelled out
//! (`evm_eval`): the EVM's outcome is a function of the state, the
//! transaction and the chain id, and nothing else. Everything the library
//! proves about blocks and queries rests on these contracts.

use vstd::prelude::*;

use revm::context::TxEnv;
use revm::context_interface::result::{ExecutionResult, HaltReason, Output, SuccessReason};
use revm::database::CacheDB;
use revm::database_interface::{EmptyDB, EmptyDBTyped};
use revm::primitives::{Log, LogData};
use revm::{Context, DatabaseRef, ExecuteCommitEvm, ExecuteEvm, MainBuilder, MainContext};

use crate::tx::{Exit, ExecOutcome, LogEntry, OutcomeModel, TxOutput};
use crate::types::{zero_bytes, Address, U256};

verus! {

#[verifier::external_type_specification]
#[verifier::external_body]
#[verifier::reject_recursive_types(ExtDB)]
pub struct ExCacheDB<ExtDB>(CacheDB<ExtDB>);

#[verifier::external_type_specification]
#[verifier::external_body]
#[verifier::reject_recursive_types(E)]
pub struct ExEmptyDBTyped<E>(EmptyDBTyped<E>);

#[verifier::external_type_specification]
#[verifier::external_body]
pub struct ExTxEnv(TxEnv);

#[verifier::external_type_specification]
#[verifier::external_body]
#[verifier::reject_recursive_types(HaltReasonTy)]
pub struct ExExecutionResult<HaltReasonTy>(ExecutionResult<HaltReasonTy>);

#[verifier::external_type_specification]
#[verifier::external_body]
pub struct ExHaltReason(HaltReason);

#[verifier::external_type_specification]
#[verifier::external_body]
pub struct ExSuccessReason(SuccessReason);

#[verifier::external_type_specification]
#[verifier::external_body]
pub struct ExOutput(Output);

#[verifier::external_type_specification]
#[verifier::external_body]
#[verifier::reject_recursive_types(T)]
pub struct ExLog<T>(Log<T>);

#[verifier::external_type_specification]
#[verifier::external_body]
pub struct ExLogData(LogData);

/// One account of the modelled world-state: balance and storage words as
/// 32-byte big-endian strings, code as bytes.
pub ghost struct AccountModel {
    pub balance: Seq<u8>,
    pub nonce: nat,
    pub code: Seq<u8>,
    pub storage: Map<Seq<u8>, Seq<u8>>,
}

/// What the EVM reads from a world-state database: the accounts it holds,
/// keyed by 20-byte address.
pub uninterp spec fn db_view(db: CacheDB<EmptyDB>) -> Map<Seq<u8>, AccountModel>;

/// A transaction as handed to the EVM: every field resolved and defaulted.
/// `to` of `None` creates a contract.
pub struct TxExec {
    pub caller: Address,
    pub to: Option<Address>,
    pub value: U256,
    pub gas_limit: u64,
    pub gas_price: u128,
    pub nonce: u64,
    pub data: Vec<u8>,
}

/// Ghost model of a resolved transaction; the gas limit, gas price and
/// nonce stand in the big-endian byte widths of the machine words the EVM
/// takes.
pub ghost struct TxExecModel {
    pub caller: Seq<u8>,
    pub to: Option<Seq<u8>>,
    pub value: Seq<u8>,
    pub gas_limit: Seq<u8>,
    pub gas_price: Seq<u8>,
    pub nonce: Seq<u8>,
    pub data: Seq<u8>,
}

impl View for TxExec {
    type V = TxExecModel;

    open spec fn view(&self) -> TxExecModel {
        TxExecModel {
            caller: self.caller@,
            to: match self.to {
                Some(a) => Some(a@),
                None => None,
            },
            value: self.value@,
            gas_limit: crate::types::u64_be_bytes(self.gas_limit),
            gas_price: crate::types::u128_be_bytes(self.gas_price),
            nonce: crate::types::u64_be_bytes(self.nonce),
            data: self.data@,
        }
    }
}

impl TxExec {
    /// Address and word fields carry their full widths.
    pub open spec fn wf(&self) -> bool {
        &&& self.caller.wf()
        &&& match self.to {
            Some(a) => a.wf(),
            None => true,
        }
        &&& self.value.wf()
    }
}

/// What one EVM execution yields: the reported outcome and the world-state
/// it leaves behind when the write is committed.
pub ghost struct EvmEval {
    pub outcome: OutcomeModel,
    pub post: Map<Seq<u8>, AccountModel>,
}

/// The result of running one resolved transaction against a world-state
/// under a chain id. The EVM is deterministic: the same state, transaction
/// and chain id give the same outcome and post-state on every replica.
pub uninterp spec fn evm_eval(
    db: Map<Seq<u8>, AccountModel>,
    chain_id: nat,
    t: TxExecModel,
) -> EvmEval;

/// The world-state with no account at all.
pub open spec fn empty_accounts() -> Map<Seq<u8>, AccountModel> {
    Map::empty()
}

/// The balance of `a` in a modelled world-state; absent accounts hold zero.
pub open spec fn balance_in(db: Map<Seq<u8>, AccountModel>, a: Seq<u8>) -> Seq<u8> {
    if db.contains_key(a) {
        db[a].balance
    } else {
        zero_bytes(32)
    }
}

/// Relies on `CacheDB::new` over `EmptyDB`: a fresh cache over the empty
/// database holds no account.
#[verifier::external_body]
pub fn db_new() -> (r: CacheDB<EmptyDB>)
    ensures
        db_view(r) == empty_accounts(),
{
    CacheDB::new(EmptyDB::default())
}

/// Relies on `CacheDB`'s derived `Clone`: the copy holds the same accounts.
#[verifier::external_body]
pub fn db_clone(db: &CacheDB<EmptyDB>) -> (r: CacheDB<EmptyDB>)
    ensures
        db_view(r) == db_view(*db),
{
    db.clone()
}

/// Relies on `CacheDB::insert_account_info`: sets the account's balance and
/// a fresh nonce and code, keeping any storage it already had.
#[verifier::external_body]
pub fn db_insert_account(db: &mut CacheDB<EmptyDB>, addr: &Address, balance: &U256)
    requires
        addr.wf(),
        balance.wf(),
    ensures
        db_view(*final(db)) == db_view(*old(db)).insert(
            addr@,
            AccountModel {
                balance: balance@,
                nonce: 0,
                code: Seq::empty(),
                storage: if db_view(*old(db)).contains_key(addr@) {
                    db_view(*old(db))[addr@].storage
                } else {
                    Map::empty()
                },
            },
        ),
{
    let info = revm::state::AccountInfo {
        balance: revm::primitives::U256::from_be_slice(balance.be.as_slice()),
        ..revm::state::AccountInfo::default()
    };
    db.insert_account_info(revm::primitives::Address::from_slice(addr.bytes.as_slice()), info);
}

/// Relies on `CacheDB::basic_ref`: reads the account's balance; an account
/// the database does not hold reads as zero.
#[verifier::external_body]
pub fn db_balance(db: &CacheDB<EmptyDB>, addr: &Address) -> (r: U256)
    requires
        addr.wf(),
    ensures
        r@ == balance_in(db_view(*db), addr@),
        r.wf(),
{
    let a = revm::primitives::Address::from_slice(addr.bytes.as_slice());
    let bal = match db.basic_ref(a) {
        Ok(Some(info)) => info.balance,
        _ => revm::primitives::U256::ZERO,
    };
    U256 { be: bal.to_be_bytes::<32>().to_vec() }
}

/// Builds the `revm` transaction environment from a resolved transaction,
/// as `State::execute` documents: priority fee equal to the gas price, no
/// access list, the chain id attached.
#[verifier::external_body]
fn tx_env_from(t: &TxExec, chain_id: u64) -> TxEnv {
    let kind = match &t.to {
        Some(a) => revm::primitives::TxKind::Call(revm::primitives::Address::from_slice(a.bytes.as_slice())),
        None => revm::primitives::TxKind::Create,
    };
    TxEnv::builder().caller(revm::primitives::Address::from_slice(t.caller.bytes.as_slice())).kind(kind)
        .value(revm::primitives::U256::from_be_slice(t.value.be.as_slice())).gas_limit(t.gas_limit)
        .gas_price(t.gas_price).gas_priority_fee(Some(t.gas_price)).nonce(t.nonce).chain_id(Some(chain_id))
        .data(revm::primitives::Bytes::copy_from_slice(t.data.as_slice())).build_fill()
}

/// Maps one `revm` log to the library's form: address, topics, data.
#[verifier::external_body]
fn logs_of(logs: Vec<Log>) -> Vec<LogEntry> {
    logs.into_iter().map(|l| LogEntry {
        address: Address { bytes: l.address.to_vec() },
        topics: l.data.topics().iter().map(|t| U256 { be: t.to_vec() }).collect(),
        data: l.data.data.to_vec(),
    }).collect()
}

/// Maps `revm`'s `Output` variants to the library's, field for field.
#[verifier::external_body]
fn out_of(output: Output) -> TxOutput {
    match output {
        Output::Call(b) => TxOutput::Call(b.to_vec()),
        Output::Create(b, a) => TxOutput::Create(b.to_vec(), a.map(|x| Address { bytes: x.to_vec() })),
    }
}

/// Maps `revm`'s `SuccessReason` variants to the library's, one arm each.
#[verifier::external_body]
fn exit_of(reason: SuccessReason) -> Exit {
    match reason {
        SuccessReason::Stop => Exit::Stop,
        SuccessReason::Return => Exit::Return,
        SuccessReason::SelfDestruct => Exit::SelfDestruct,
    }
}

/// Maps `revm`'s execution result to the library's outcome: the three
/// result variants arm by arm, and a validation error (`None`) to
/// `Invalid` with nothing spent and nothing changed.
#[verifier::external_body]
fn outcome_from(res: Option<ExecutionResult<HaltReason>>) -> ExecOutcome {
    match res {
        Some(ExecutionResult::Success { reason, gas, logs, output }) => ExecOutcome { exit: exit_of(reason), out: out_of(output), gas: gas.tx_gas_used(), logs: logs_of(logs) },
        Some(ExecutionResult::Revert { gas, logs, output }) => ExecOutcome { exit: Exit::Revert, out: TxOutput::Call(output.to_vec()), gas: gas.tx_gas_used(), logs: logs_of(logs) },
        Some(ExecutionResult::Halt { gas, logs, .. }) => ExecOutcome { exit: Exit::Halt, out: TxOutput::Call(Vec::new()), gas: gas.tx_gas_used(), logs: logs_of(logs) },
        None => ExecOutcome { exit: Exit::Invalid, out: TxOutput::Call(Vec::new()), gas: 0, logs: Vec::new() },
    }
}

/// Relies on `revm`'s `transact` and `transact_commit` over a mainnet
/// context with default block and configuration: runs one transaction
/// against the database, returns the outcome `evm_eval` names, and commits
/// the state change exactly when `write` is set. A read-only run may fill
/// the cache but leaves the accounts as they were.
#[verifier::external_body]
pub fn evm_transact(db: CacheDB<EmptyDB>, t: &TxExec, chain_id: u64, write: bool) -> (r: (
    CacheDB<EmptyDB>,
    ExecOutcome,
))
    requires
        t.wf(),
    ensures
        r.1@ == evm_eval(db_view(db), chain_id as nat, t@).outcome,
        db_view(r.0) == if write {
            evm_eval(db_view(db), chain_id as nat, t@).post
        } else {
            db_view(db)
        },
{
    let e = tx_env_from(t, chain_id);
    let mut evm = Context::mainnet().with_db(db).build_mainnet();
    let res = if write {
        evm.transact_commit(e).ok()
    } else {
        evm.transact(e).map(|o| o.result).ok()
    };
    (evm.ctx.journaled_state.database, outcome_from(res))
}

} // verus!
