//! Execution layer for a BFT-ordered, EVM-compatible ledger.
//!
//! A consensus subsystem delivers a totally-ordered stream of certificates,
//! each referencing batches of raw transactions held in worker stores. This
//! library reconstructs the transactions, drives an ABCI-style block
//! lifecycle (`BeginBlock -> DeliverTx* -> EndBlock -> Commit`) against an
//! EVM world-state, and answers read queries against the last committed
//! state. The EVM itself is an outside dependency, reached through a small
//! set of trusted wrappers; everything around it — the dual current/committed
//! state discipline, the wire codecs, and the certificate-to-transaction
//! ordering — is verified.

pub mod app;
pub mod batch;
pub mod engine;
pub mod evm;
pub mod hexcode;
pub mod json;
pub mod json_exec;
pub mod laws;
pub mod tx;
pub mod types;

pub use app::{App, Mempool, Snapshot, State};
pub use batch::WorkerMessage;
pub use engine::{AbciQueryQuery, BroadcastTxQuery, Certificate, CertificateHeader, Engine};
pub use tx::{Query, QueryResponse, Recipient, TransactionRequest, TransactionResult};
pub use types::{Address, Digest, U256};
