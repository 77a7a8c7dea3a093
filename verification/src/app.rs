//! The ABCI application: the dual-state world model and the block-lifecycle,
//! mempool and info handlers.
//!
//! The application holds exactly two states. `committed_state` is what the
//! last `commit` produced and what every read query answers from;
//! `current_state` is what `deliver_tx` mutates inside a block. `commit`
//! copies current over committed, atomically from the caller's view; nothing
//! else ever touches `committed_state`.

use vstd::prelude::*;

use revm::database::CacheDB;
use revm::database_interface::EmptyDB;

use crate::evm::{
    balance_in, db_balance, db_clone, db_insert_account, db_new, db_view, empty_accounts,
    evm_eval, evm_transact, AccountModel, TxExec, TxExecModel,
};
use crate::json::{enc_query_response_spec, enc_result_spec, sp_dec_query, sp_dec_tx};
use crate::json_exec::{decode_query, decode_tx, encode_query_response, encode_result};
use crate::tx::{
    Exit, ExecOutcome, Query, QueryModel, QueryResponse, QueryResponseModel, RecModel, Recipient,
    TransactionRequest, TransactionResult, TxReqModel, TxResultModel,
};
use crate::types::{copy_bytes, leading_zeros, pad32, u64_be_bytes, zero_bytes, Address, U256};

verus! {

/// Why a transaction could not be run at all. The upstream consensus is not
/// expected to produce such transactions, so a caller may treat one as a
/// bug and abort.
#[derive(Clone, Copy, Debug, PartialEq, Eq, Structural)]
pub enum ExecError {
    /// The recipient is a symbolic name, which this layer does not resolve.
    InvalidRecipient,
    /// The gas limit does not fit the machine word the EVM takes.
    GasTooLarge,
    /// The gas price does not fit the machine word the EVM takes.
    GasPriceTooLarge,
    /// The nonce does not fit the machine word the EVM takes.
    NonceTooLarge,
}

/// The application's world-state at one height.
pub struct State {
    pub block_height: i64,
    pub app_hash: Vec<u8>,
    pub db: CacheDB<EmptyDB>,
    pub chain_id: u64,
}

/// Ghost model of a state: height, hash, accounts and chain id.
pub ghost struct StateModel {
    pub block_height: int,
    pub app_hash: Seq<u8>,
    pub accounts: Map<Seq<u8>, AccountModel>,
    pub chain_id: nat,
}

impl View for State {
    type V = StateModel;

    open spec fn view(&self) -> StateModel {
        StateModel {
            block_height: self.block_height as int,
            app_hash: self.app_hash@,
            accounts: db_view(self.db),
            chain_id: self.chain_id as nat,
        }
    }
}

/// The chain id this application runs under.
pub const CHAIN_ID: u64 = 1;

/// The genesis state: height zero, empty hash, no accounts.
pub open spec fn genesis_state() -> StateModel {
    StateModel {
        block_height: 0,
        app_hash: Seq::empty(),
        accounts: empty_accounts(),
        chain_id: CHAIN_ID as nat,
    }
}

impl Default for State {
    /// The genesis state.
    fn default() -> (r: Self)
        ensures
            r@ == genesis_state(),
    {
        State { block_height: 0, app_hash: Vec::new(), db: db_new(), chain_id: CHAIN_ID }
    }
}

/// Resolves a wire request into the form the EVM takes, defaulting absent
/// fields: caller zero, value zero, gas and price and nonce zero, empty
/// calldata; `to` absent creates a contract. A symbolic recipient, or a
/// quantity beyond its machine word, is an error, checked in this order:
/// recipient, gas, gas price, nonce.
pub open spec fn resolve_tx(t: TxReqModel) -> Result<TxExecModel, ExecError> {
    if t.to matches Some(RecModel::Name(_)) {
        Err(ExecError::InvalidRecipient)
    } else {
        let gas_q = match t.gas {
            Some(q) => q,
            None => zero_bytes(32),
        };
        let gp_q = match t.gas_price {
            Some(q) => q,
            None => zero_bytes(32),
        };
        let nonce_q = match t.nonce {
            Some(q) => q,
            None => zero_bytes(32),
        };
        if !leading_zeros(gas_q, 24) {
            Err(ExecError::GasTooLarge)
        } else if !leading_zeros(gp_q, 16) {
            Err(ExecError::GasPriceTooLarge)
        } else if !leading_zeros(nonce_q, 24) {
            Err(ExecError::NonceTooLarge)
        } else {
            Ok(
                TxExecModel {
                    caller: match t.from {
                        Some(a) => a,
                        None => zero_bytes(20),
                    },
                    to: match t.to {
                        Some(RecModel::Addr(a)) => Some(a),
                        _ => None,
                    },
                    value: match t.value {
                        Some(q) => q,
                        None => zero_bytes(32),
                    },
                    gas_limit: gas_q.skip(24),
                    gas_price: gp_q.skip(16),
                    nonce: nonce_q.skip(24),
                    data: match t.data {
                        Some(d) => d,
                        None => Seq::empty(),
                    },
                },
            )
        }
    }
}

/// What one `execute` call does: resolve the request, run the EVM, and on a
/// write commit the post-state; reverts and validation failures are carried
/// in the result, never an error.
pub open spec fn spec_execute(m: StateModel, t: TxReqModel, write: bool) -> Result<
    (TxResultModel, StateModel),
    ExecError,
> {
    match resolve_tx(t) {
        Err(e) => Err(e),
        Ok(te) => {
            let ev = evm_eval(m.accounts, m.chain_id, te);
            Ok(
                (
                    TxResultModel {
                        transaction: t,
                        exit: ev.outcome.exit,
                        out: ev.outcome.out,
                        gas: ev.outcome.gas,
                        logs: ev.outcome.logs,
                    },
                    if write {
                        StateModel { accounts: ev.post, ..m }
                    } else {
                        m
                    },
                ),
            )
        },
    }
}

impl State {
    /// Copies the state by value, the database included.
    pub fn snapshot(&self) -> (r: State)
        ensures
            r@ == self@,
    {
        State {
            block_height: self.block_height,
            app_hash: copy_bytes(&self.app_hash),
            db: db_clone(&self.db),
            chain_id: self.chain_id,
        }
    }

    /// Runs one transaction against this state. In write mode the EVM's
    /// state change is committed into the state; read-only mode leaves the
    /// state as it was. The result always carries the EVM's trace — a
    /// revert is not an error here.
    pub fn execute(&mut self, tx: TransactionRequest, read_only: bool) -> (r: Result<
        TransactionResult,
        ExecError,
    >)
        requires
            tx.wf(),
        ensures
            match (r, spec_execute(old(self)@, tx@, !read_only)) {
                (Ok(res), Ok((rm, sm))) => res@ == rm && final(self)@ == sm && res.transaction.wf(),
                (Err(e), Err(e2)) => e == e2 && final(self)@ == old(self)@,
                _ => false,
            },
    {
        let te = match self.resolve(tx) {
            Ok(te) => te,
            Err((e, _tx)) => {
                return Err(e);
            },
        };
        let ghost pre = self@;
        let mut db = db_new();
        core::mem::swap(&mut self.db, &mut db);
        let (db2, outcome) = evm_transact(db, &te.0, self.chain_id, !read_only);
        self.db = db2;
        let ExecOutcome { exit, out, gas, logs } = outcome;
        let res = TransactionResult { transaction: te.1, exit, out, gas, logs };
        proof {
            let ev = evm_eval(pre.accounts, pre.chain_id, te.0@);
            assert(res@ == spec_execute(pre, res.transaction@, !read_only).unwrap().0);
        }
        Ok(res)
    }

    /// Resolves a request into the EVM form, handing the request back with
    /// it; on failure says which field was at fault.
    fn resolve(&self, tx: TransactionRequest) -> (r: Result<
        (TxExec, TransactionRequest),
        (ExecError, TransactionRequest),
    >)
        requires
            tx.wf(),
        ensures
            match (r, resolve_tx(tx@)) {
                (Ok(te), Ok(tem)) => te.0@ == tem && te.0.wf() && te.1 == tx,
                (Err(e), Err(e2)) => e.0 == e2 && e.1 == tx,
                _ => false,
            },
    {
        let to: Option<Address> = match &tx.to {
            Some(Recipient::Addr(a)) => Some(Address { bytes: copy_bytes(&a.bytes) }),
            Some(Recipient::Name(_)) => {
                return Err((ExecError::InvalidRecipient, tx));
            },
            None => None,
        };
        let gas_q = match &tx.gas {
            Some(q) => U256 { be: copy_bytes(&q.be) },
            None => U256::zero(),
        };
        let gp_q = match &tx.gas_price {
            Some(q) => U256 { be: copy_bytes(&q.be) },
            None => U256::zero(),
        };
        let nonce_q = match &tx.nonce {
            Some(q) => U256 { be: copy_bytes(&q.be) },
            None => U256::zero(),
        };
        if !gas_q.fits_u64() {
            return Err((ExecError::GasTooLarge, tx));
        }
        if !gp_q.fits_u128() {
            return Err((ExecError::GasPriceTooLarge, tx));
        }
        if !nonce_q.fits_u64() {
            return Err((ExecError::NonceTooLarge, tx));
        }
        let caller = match &tx.from {
            Some(a) => Address { bytes: copy_bytes(&a.bytes) },
            None => Address::zero(),
        };
        let value = match &tx.value {
            Some(q) => U256 { be: copy_bytes(&q.be) },
            None => U256::zero(),
        };
        let data: Vec<u8> = match &tx.data {
            Some(d) => copy_bytes(d),
            None => Vec::new(),
        };
        let te = TxExec {
            caller,
            to,
            value,
            gas_limit: gas_q.low_u64(),
            gas_price: gp_q.low_u128(),
            nonce: nonce_q.low_u64(),
            data,
        };
        Ok((te, tx))
    }
}

/// The answer to a delivered transaction: its data is the encoded result,
/// or the fixed note that the request could not be decoded.
#[derive(Debug)]
pub struct ResponseDeliverTx {
    pub data: Vec<u8>,
}

/// The answer to a read query: the request's data echoed as the key, and
/// the encoded response as the value.
#[derive(Debug)]
pub struct ResponseQuery {
    pub key: Vec<u8>,
    pub value: Vec<u8>,
}

/// The answer to a commit: an empty hash and no retained height.
#[derive(Debug)]
pub struct ResponseCommit {
    pub data: Vec<u8>,
    pub retain_height: i64,
}

/// What `info` reports for resuming: the committed height and hash.
#[derive(Debug)]
pub struct ResponseInfo {
    pub last_block_height: i64,
    pub last_block_app_hash: Vec<u8>,
}

/// The answer to a mempool check; zero accepts.
#[derive(Debug)]
pub struct ResponseCheckTx {
    pub code: u32,
}

/// Repeated chain initialisation.
#[derive(Clone, Copy, Debug, PartialEq, Eq, Structural)]
pub struct AlreadyInitialized;

/// The note returned when wire bytes do not decode.
pub open spec fn decode_err_note() -> Seq<u8> {
    seq![
        99u8,
        111u8,
        117u8,
        108u8,
        100u8,
        32u8,
        110u8,
        111u8,
        116u8,
        32u8,
        100u8,
        101u8,
        99u8,
        111u8,
        100u8,
        101u8,
        32u8,
        114u8,
        101u8,
        113u8,
        117u8,
        101u8,
        115u8,
        116u8,
    ]
}

/// Builds the note returned when wire bytes do not decode.
pub fn decode_err_note_vec() -> (r: Vec<u8>)
    ensures
        r@ == decode_err_note(),
{
    let mut v: Vec<u8> = Vec::new();
    v.push(99);
    v.push(111);
    v.push(117);
    v.push(108);
    v.push(100);
    v.push(32);
    v.push(110);
    v.push(111);
    v.push(116);
    v.push(32);
    v.push(100);
    v.push(101);
    v.push(99);
    v.push(111);
    v.push(100);
    v.push(101);
    v.push(32);
    v.push(114);
    v.push(101);
    v.push(113);
    v.push(117);
    v.push(101);
    v.push(115);
    v.push(116);
    proof {
        assert(v@ =~= decode_err_note());
    }
    v
}

/// The application: the two states and whether the chain was initialised.
pub struct App {
    pub committed_state: State,
    pub current_state: State,
    pub initialized: bool,
}

/// Ghost model of the application.
pub ghost struct AppModel {
    pub committed: StateModel,
    pub current: StateModel,
    pub initialized: bool,
}

impl View for App {
    type V = AppModel;

    open spec fn view(&self) -> AppModel {
        AppModel {
            committed: self.committed_state@,
            current: self.current_state@,
            initialized: self.initialized,
        }
    }
}

/// The address funded at genesis when the application runs in demo mode.
pub open spec fn demo_addr() -> Seq<u8> {
    Seq::new(20, |i: int| 0xaau8)
}

/// The balance, in wei, funded at genesis in demo mode: one and a half
/// ether.
pub const DEMO_WEI: u64 = 1500000000000000000;

/// The accounts of a fresh application: empty, or the one funded demo
/// account.
pub open spec fn genesis_accounts(demo: bool) -> Map<Seq<u8>, AccountModel> {
    if demo {
        empty_accounts().insert(
            demo_addr(),
            AccountModel {
                balance: pad32(u64_be_bytes(DEMO_WEI)),
                nonce: 0,
                code: Seq::empty(),
                storage: Map::empty(),
            },
        )
    } else {
        empty_accounts()
    }
}

/// The model of a fresh application.
pub open spec fn app_genesis(demo: bool) -> AppModel {
    AppModel {
        committed: StateModel { accounts: genesis_accounts(demo), ..genesis_state() },
        current: StateModel { accounts: genesis_accounts(demo), ..genesis_state() },
        initialized: false,
    }
}

/// What delivering wire bytes does to the application: bytes that do not
/// decode are answered with the fixed note and change nothing; a decoded
/// request must name a plain address; then the transaction runs in write
/// mode against the current state and the encoded result is the answer.
#[verifier::opaque]
pub open spec fn spec_deliver_tx(m: AppModel, bytes: Seq<u8>) -> Result<
    (AppModel, Seq<u8>),
    ExecError,
> {
    match sp_dec_tx(bytes) {
        None => Ok((m, decode_err_note())),
        Some(t) => {
            if !(t.to matches Some(RecModel::Addr(_))) {
                Err(ExecError::InvalidRecipient)
            } else {
                match spec_execute(m.current, t, true) {
                    Err(e) => Err(e),
                    Ok((rm, cur)) => Ok(
                        (AppModel { current: cur, ..m }, enc_result_spec(rm)),
                    ),
                }
            }
        },
    }
}

/// What a read query answers, from the committed state alone: bytes that do
/// not decode are answered with the fixed note; a call request must name a
/// plain address and runs read-only; a balance query reads the account.
pub open spec fn spec_query(m: StateModel, bytes: Seq<u8>) -> Result<Seq<u8>, ExecError> {
    match sp_dec_query(bytes) {
        None => Ok(decode_err_note()),
        Some(QueryModel::EthCall(t)) => {
            if !(t.to matches Some(RecModel::Addr(_))) {
                Err(ExecError::InvalidRecipient)
            } else {
                match spec_execute(m, t, false) {
                    Err(e) => Err(e),
                    Ok((rm, _)) => Ok(enc_query_response_spec(QueryResponseModel::Tx(rm))),
                }
            }
        },
        Some(QueryModel::Balance(a)) => Ok(
            enc_query_response_spec(QueryResponseModel::Balance(balance_in(m.accounts, a))),
        ),
    }
}

impl App {
    /// A fresh application over the genesis state; in demo mode the demo
    /// account is funded.
    pub fn new(demo: bool) -> (r: App)
        ensures
            r@ == app_genesis(demo),
    {
        let mut state = State::default();
        if demo {
            let mut addr_bytes: Vec<u8> = Vec::new();
            let mut i: usize = 0;
            while i < 20
                invariant
                    i <= 20,
                    addr_bytes@ =~= demo_addr().subrange(0, i as int),
                decreases 20 - i,
            {
                addr_bytes.push(0xaa);
                proof {
                    assert(addr_bytes@ =~= demo_addr().subrange(0, i as int + 1));
                }
                i = i + 1;
            }
            proof {
                assert(addr_bytes@ =~= demo_addr());
            }
            let addr = Address { bytes: addr_bytes };
            let bal = U256::from_u64(DEMO_WEI);
            db_insert_account(&mut state.db, &addr, &bal);
        }
        let committed_state = state.snapshot();
        let r = App { committed_state, current_state: state, initialized: false };
        proof {
            assert(r@.committed.accounts =~= genesis_accounts(demo));
            assert(r@.current.accounts =~= genesis_accounts(demo));
        }
        r
    }

    /// Marks the chain initialised; a repeated call reports so, and the
    /// engine downgrades that to a warning.
    pub fn init_chain(&mut self) -> (r: Result<(), AlreadyInitialized>)
        ensures
            final(self)@.committed == old(self)@.committed,
            final(self)@.current == old(self)@.current,
            final(self)@.initialized,
            r is Ok <==> !old(self)@.initialized,
    {
        if self.initialized {
            Err(AlreadyInitialized)
        } else {
            self.initialized = true;
            Ok(())
        }
    }

    /// Signals the start of a block; the current state is already the last
    /// committed one, so nothing changes.
    pub fn begin_block(&mut self, height: i64) -> (r: ())
        ensures
            final(self)@ == old(self)@,
    {
        let _ = height;
    }

    /// Delivers one transaction into the current block.
    pub fn deliver_tx(&mut self, tx_bytes: &Vec<u8>) -> (r: Result<ResponseDeliverTx, ExecError>)
        ensures
            match (r, spec_deliver_tx(old(self)@, tx_bytes@)) {
                (Ok(resp), Ok((m2, data))) => final(self)@ == m2 && resp.data@ == data,
                (Err(e), Err(e2)) => e == e2 && final(self)@ == old(self)@,
                _ => false,
            },
    {
        proof {
            reveal(spec_deliver_tx);
        }
        let t = match decode_tx(tx_bytes) {
            Some(t) => t,
            None => {
                return Ok(ResponseDeliverTx { data: decode_err_note_vec() });
            },
        };
        match &t.to {
            Some(Recipient::Addr(_)) => {},
            _ => {
                return Err(ExecError::InvalidRecipient);
            },
        }
        let res = match self.current_state.execute(t, false) {
            Ok(res) => res,
            Err(e) => {
                return Err(e);
            },
        };
        let data = encode_result(&res);
        Ok(ResponseDeliverTx { data })
    }

    /// Ends the block: records the height and clears the hash on the
    /// current state.
    pub fn end_block(&mut self, height: i64) -> (r: ())
        ensures
            final(self)@.current == (StateModel {
                block_height: height as int,
                app_hash: Seq::<u8>::empty(),
                ..old(self)@.current
            }),
            final(self)@.committed == old(self)@.committed,
            final(self)@.initialized == old(self)@.initialized,
    {
        self.current_state.block_height = height;
        self.current_state.app_hash = Vec::new();
    }

    /// Commits the block: the current state becomes the committed state,
    /// atomically from any reader's view; the answer carries no hash.
    pub fn commit(&mut self) -> (r: ResponseCommit)
        ensures
            final(self)@.committed == old(self)@.current,
            final(self)@.current == old(self)@.current,
            final(self)@.initialized == old(self)@.initialized,
            r.data@ == Seq::<u8>::empty(),
            r.retain_height == 0,
    {
        self.committed_state = self.current_state.snapshot();
        ResponseCommit { data: Vec::new(), retain_height: 0 }
    }

    /// Answers a read query from the committed state, which it never
    /// changes.
    pub fn query(&mut self, data: &Vec<u8>) -> (r: Result<ResponseQuery, ExecError>)
        ensures
            final(self)@ == old(self)@,
            match (r, spec_query(old(self)@.committed, data@)) {
                (Ok(resp), Ok(value)) => resp.key@ == data@ && resp.value@ == value,
                (Err(e), Err(e2)) => e == e2,
                _ => false,
            },
    {
        let q = match decode_query(data) {
            Some(q) => q,
            None => {
                return Ok(
                    ResponseQuery { key: copy_bytes(data), value: decode_err_note_vec() },
                );
            },
        };
        match q {
            Query::EthCall(t) => {
                match &t.to {
                    Some(Recipient::Addr(_)) => {},
                    _ => {
                        return Err(ExecError::InvalidRecipient);
                    },
                }
                let res = match self.committed_state.execute(t, true) {
                    Ok(res) => res,
                    Err(e) => {
                        return Err(e);
                    },
                };
                let value = encode_query_response(&QueryResponse::Tx(res));
                Ok(ResponseQuery { key: copy_bytes(data), value })
            },
            Query::Balance(a) => {
                let bal = db_balance(&self.committed_state.db, &a);
                let value = encode_query_response(&QueryResponse::Balance(bal));
                Ok(ResponseQuery { key: copy_bytes(data), value })
            },
        }
    }

    /// Reports the committed height and hash, for the engine to resume
    /// from.
    pub fn info(&self) -> (r: ResponseInfo)
        ensures
            r.last_block_height == self@.committed.block_height,
            r.last_block_app_hash@ == self@.committed.app_hash,
    {
        ResponseInfo {
            last_block_height: self.committed_state.block_height,
            last_block_app_hash: copy_bytes(&self.committed_state.app_hash),
        }
    }

    /// Accepts every transaction into the mempool; admission is gated
    /// upstream.
    pub fn check_tx(&self, tx_bytes: &Vec<u8>) -> (r: ResponseCheckTx)
        ensures
            r.code == 0,
    {
        let _ = tx_bytes;
        ResponseCheckTx { code: 0 }
    }
}

impl Default for App {
    /// A fresh application with no demo funding.
    fn default() -> (r: Self)
        ensures
            r@ == app_genesis(false),
    {
        App::new(false)
    }
}

/// The stateless mempool role: everything is accepted.
pub struct Mempool;

impl Mempool {
    /// Accepts every transaction; admission is gated upstream.
    pub fn check_tx(&self, tx_bytes: &Vec<u8>) -> (r: ResponseCheckTx)
        ensures
            r.code == 0,
    {
        let _ = tx_bytes;
        ResponseCheckTx { code: 0 }
    }
}

/// The stateless snapshot role: no state sync is offered.
pub struct Snapshot;

} // verus!
