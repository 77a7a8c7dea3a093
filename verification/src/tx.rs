//! Wire-level transaction types: requests as clients submit them, results as
//! the EVM reports them, and the read-query enums, each with its ghost model.

use vstd::prelude::*;

use crate::types::{Address, U256};

verus! {

/// A transaction recipient: either a 20-byte address or a symbolic name.
/// Only addresses are accepted by execution; names are rejected.
pub enum Recipient {
    Addr(Address),
    Name(Vec<u8>),
}

/// Ghost model of a recipient.
pub ghost enum RecModel {
    Addr(Seq<u8>),
    Name(Seq<u8>),
}

impl View for Recipient {
    type V = RecModel;

    open spec fn view(&self) -> RecModel {
        match self {
            Recipient::Addr(a) => RecModel::Addr(a@),
            Recipient::Name(n) => RecModel::Name(n@),
        }
    }
}

/// A transaction request as carried on the wire: sender, optional recipient,
/// funds and gas quantities, nonce and calldata, each field optional.
pub struct TransactionRequest {
    pub from: Option<Address>,
    pub to: Option<Recipient>,
    pub gas: Option<U256>,
    pub gas_price: Option<U256>,
    pub value: Option<U256>,
    pub data: Option<Vec<u8>>,
    pub nonce: Option<U256>,
}

/// Ghost model of a transaction request.
pub ghost struct TxReqModel {
    pub from: Option<Seq<u8>>,
    pub to: Option<RecModel>,
    pub gas: Option<Seq<u8>>,
    pub gas_price: Option<Seq<u8>>,
    pub value: Option<Seq<u8>>,
    pub data: Option<Seq<u8>>,
    pub nonce: Option<Seq<u8>>,
}

impl View for TransactionRequest {
    type V = TxReqModel;

    open spec fn view(&self) -> TxReqModel {
        TxReqModel {
            from: match self.from {
                Some(a) => Some(a@),
                None => None,
            },
            to: match self.to {
                Some(r) => Some(r@),
                None => None,
            },
            gas: match self.gas {
                Some(q) => Some(q@),
                None => None,
            },
            gas_price: match self.gas_price {
                Some(q) => Some(q@),
                None => None,
            },
            value: match self.value {
                Some(q) => Some(q@),
                None => None,
            },
            data: match self.data {
                Some(d) => Some(d@),
                None => None,
            },
            nonce: match self.nonce {
                Some(q) => Some(q@),
                None => None,
            },
        }
    }
}

/// Whether a string may stand inside a JSON string literal without escaping:
/// no quote, no backslash, no control byte.
pub open spec fn clean_str(s: Seq<u8>) -> bool {
    forall|j: int| 0 <= j < s.len() ==> s[j] != 34 && s[j] != 92 && s[j] >= 32
}

impl TxReqModel {
    /// Field widths of a well-formed request; a symbolic name must also be
    /// representable inside a JSON string.
    pub open spec fn wf(&self) -> bool {
        &&& match self.from {
            Some(a) => a.len() == 20,
            None => true,
        }
        &&& match self.to {
            Some(RecModel::Addr(a)) => a.len() == 20,
            Some(RecModel::Name(n)) => clean_str(n),
            None => true,
        }
        &&& match self.gas {
            Some(q) => q.len() == 32,
            None => true,
        }
        &&& match self.gas_price {
            Some(q) => q.len() == 32,
            None => true,
        }
        &&& match self.value {
            Some(q) => q.len() == 32,
            None => true,
        }
        &&& match self.nonce {
            Some(q) => q.len() == 32,
            None => true,
        }
    }
}

impl TransactionRequest {
    /// A request is well formed when its model is.
    pub open spec fn wf(&self) -> bool {
        self@.wf()
    }
}

/// How a transaction left the EVM.
#[derive(Clone, Copy, Debug, PartialEq, Eq, Structural)]
pub enum Exit {
    /// Ran to completion by `STOP`.
    Stop,
    /// Ran to completion by `RETURN`.
    Return,
    /// Ran to completion by self-destruct.
    SelfDestruct,
    /// Reverted by the `REVERT` opcode; its state changes were discarded.
    Revert,
    /// Halted by an execution error, consuming all gas.
    Halt,
    /// Rejected before execution (bad nonce, unaffordable fee); no state
    /// change at all.
    Invalid,
}

impl Exit {
    /// Whether the transaction ran to completion.
    pub open spec fn is_success(&self) -> bool {
        self is Stop || self is Return || self is SelfDestruct
    }
}

/// What a transaction produced: return data of a call, or the code and
/// address of a creation.
pub enum TxOutput {
    Call(Vec<u8>),
    Create(Vec<u8>, Option<Address>),
}

/// Ghost model of a transaction output.
pub ghost enum TxOutputModel {
    Call(Seq<u8>),
    Create(Seq<u8>, Option<Seq<u8>>),
}

impl View for TxOutput {
    type V = TxOutputModel;

    open spec fn view(&self) -> TxOutputModel {
        match self {
            TxOutput::Call(d) => TxOutputModel::Call(d@),
            TxOutput::Create(d, a) => TxOutputModel::Create(
                d@,
                match a {
                    Some(a) => Some(a@),
                    None => None,
                },
            ),
        }
    }
}

/// One EVM log record.
pub struct LogEntry {
    pub address: Address,
    pub topics: Vec<U256>,
    pub data: Vec<u8>,
}

/// Ghost model of a log record.
pub ghost struct LogModel {
    pub address: Seq<u8>,
    pub topics: Seq<Seq<u8>>,
    pub data: Seq<u8>,
}

impl View for LogEntry {
    type V = LogModel;

    open spec fn view(&self) -> LogModel {
        LogModel {
            address: self.address@,
            topics: Seq::new(self.topics@.len(), |i: int| self.topics@[i]@),
            data: self.data@,
        }
    }
}

/// What the EVM reported for one transaction, before the request is attached.
pub struct ExecOutcome {
    pub exit: Exit,
    pub out: TxOutput,
    pub gas: u64,
    pub logs: Vec<LogEntry>,
}

/// Ghost model of an execution outcome.
pub ghost struct OutcomeModel {
    pub exit: Exit,
    pub out: TxOutputModel,
    pub gas: nat,
    pub logs: Seq<LogModel>,
}

impl View for ExecOutcome {
    type V = OutcomeModel;

    open spec fn view(&self) -> OutcomeModel {
        OutcomeModel {
            exit: self.exit,
            out: self.out@,
            gas: self.gas as nat,
            logs: Seq::new(self.logs@.len(), |i: int| self.logs@[i]@),
        }
    }
}

/// The full record returned for an executed transaction: the request it
/// answers and the EVM's trace.
pub struct TransactionResult {
    pub transaction: TransactionRequest,
    pub exit: Exit,
    pub out: TxOutput,
    pub gas: u64,
    pub logs: Vec<LogEntry>,
}

/// Ghost model of a transaction result.
pub ghost struct TxResultModel {
    pub transaction: TxReqModel,
    pub exit: Exit,
    pub out: TxOutputModel,
    pub gas: nat,
    pub logs: Seq<LogModel>,
}

impl View for TransactionResult {
    type V = TxResultModel;

    open spec fn view(&self) -> TxResultModel {
        TxResultModel {
            transaction: self.transaction@,
            exit: self.exit,
            out: self.out@,
            gas: self.gas as nat,
            logs: Seq::new(self.logs@.len(), |i: int| self.logs@[i]@),
        }
    }
}

/// A read query: run a call against the committed state, or look up a
/// balance.
pub enum Query {
    EthCall(TransactionRequest),
    Balance(Address),
}

/// Ghost model of a query.
pub ghost enum QueryModel {
    EthCall(TxReqModel),
    Balance(Seq<u8>),
}

impl View for Query {
    type V = QueryModel;

    open spec fn view(&self) -> QueryModel {
        match self {
            Query::EthCall(t) => QueryModel::EthCall(t@),
            Query::Balance(a) => QueryModel::Balance(a@),
        }
    }
}

/// The answer to a read query.
pub enum QueryResponse {
    Tx(TransactionResult),
    Balance(U256),
}

/// Ghost model of a query response.
pub ghost enum QueryResponseModel {
    Tx(TxResultModel),
    Balance(Seq<u8>),
}

impl View for QueryResponse {
    type V = QueryResponseModel;

    open spec fn view(&self) -> QueryResponseModel {
        match self {
            QueryResponse::Tx(r) => QueryResponseModel::Tx(r@),
            QueryResponse::Balance(b) => QueryResponseModel::Balance(b@),
        }
    }
}

impl QueryResponse {
    /// The transaction record inside a `Tx` response. The caller must know
    /// the variant; asking a balance response for a transaction is a bug.
    pub fn as_tx(&self) -> (r: &TransactionResult)
        requires
            self is Tx,
        ensures
            self@ == QueryResponseModel::Tx(r@),
    {
        match self {
            QueryResponse::Tx(inner) => inner,
            QueryResponse::Balance(_) => unreached(),
        }
    }

    /// The balance inside a `Balance` response. The caller must know the
    /// variant.
    pub fn as_balance(&self) -> (r: &U256)
        requires
            self is Balance,
        ensures
            self@ == QueryResponseModel::Balance(r@),
    {
        match self {
            QueryResponse::Balance(inner) => inner,
            QueryResponse::Tx(_) => unreached(),
        }
    }
}

} // verus!
