//! The execution engine: the single writer that turns each consensus
//! certificate into one `begin_block -> deliver_tx* -> end_block -> commit`
//! round against the application, and multiplexes read queries against the
//! committed state.
//!
//! The engine does no I/O of its own. The caller looks each payload digest
//! up in the worker stores and hands the results over in payload order; the
//! engine decides everything from there, so two replicas fed the same
//! certificates and the same store contents drive their applications
//! identically.

use vstd::prelude::*;

use crate::app::{spec_deliver_tx, spec_query, App, AppModel, ExecError, ResponseQuery};
use crate::batch::{sp_dec_worker, WorkerMessage};
use crate::types::Digest;

verus! {

/// A query as the gateway carries it: the ABCI path, the query bytes, and
/// the optional height and proof flag.
pub struct AbciQueryQuery {
    pub path: String,
    pub data: Vec<u8>,
    pub height: Option<u64>,
    pub prove: Option<bool>,
}

/// A transaction broadcast as the gateway carries it.
pub struct BroadcastTxQuery {
    pub tx: Vec<u8>,
}

/// A consensus certificate: its header references the batches to execute,
/// in order, each by digest and worker id.
pub struct Certificate {
    pub header: CertificateHeader,
}

/// The payload-bearing part of a certificate.
pub struct CertificateHeader {
    pub height: u64,
    pub payload: Vec<(Digest, u32)>,
}

/// Why a certificate could not be executed in full.
#[derive(Clone, Copy, Debug, PartialEq, Eq, Structural)]
pub enum EngineError {
    /// A payload digest was missing from its worker store; the replica is
    /// inconsistent with consensus and the certificate cannot be applied.
    BatchMissing,
    /// A store value did not decode as a batch message.
    UnrecognizedMessage,
    /// A delivered transaction could not be run at all.
    Tx(ExecError),
}

/// The store lookup results, viewed as optional byte strings.
pub open spec fn lookups_view(l: Seq<Option<Vec<u8>>>) -> Seq<Option<Seq<u8>>> {
    Seq::new(
        l.len(),
        |i: int|
            match l[i] {
                Some(v) => Some(v@),
                None => None,
            },
    )
}

/// Delivers raw transactions in order; the first fatal error stops the
/// block with the state as the earlier deliveries left it.
pub open spec fn spec_deliver_seq(m: AppModel, txs: Seq<Seq<u8>>) -> (AppModel, Option<ExecError>)
    decreases txs.len(),
{
    if txs.len() == 0 {
        (m, None)
    } else {
        match spec_deliver_tx(m, txs[0]) {
            Err(e) => (m, Some(e)),
            Ok((m2, _data)) => spec_deliver_seq(m2, txs.drop_first()),
        }
    }
}

/// Processes the payload items in order: a missing batch or an
/// unrecognized store value stops the certificate, with every earlier
/// batch already delivered.
pub open spec fn spec_deliver_batches(m: AppModel, lookups: Seq<Option<Seq<u8>>>) -> (
    AppModel,
    Option<EngineError>,
)
    decreases lookups.len(),
{
    if lookups.len() == 0 {
        (m, None)
    } else {
        match lookups[0] {
            None => (m, Some(EngineError::BatchMissing)),
            Some(b) => match sp_dec_worker(b) {
                None => (m, Some(EngineError::UnrecognizedMessage)),
                Some(txs) => {
                    let (m2, e) = spec_deliver_seq(m, txs);
                    match e {
                        Some(err) => (m2, Some(EngineError::Tx(err))),
                        None => spec_deliver_batches(m2, lookups.drop_first()),
                    }
                },
            },
        }
    }
}

/// What one certificate does to the application: deliver every referenced
/// transaction in payload order, then seal the block at height `h` and
/// commit; on an error the block is left unsealed and nothing reaches the
/// committed state.
pub open spec fn spec_handle_cert(m: AppModel, h: int, lookups: Seq<Option<Seq<u8>>>) -> (
    AppModel,
    Option<EngineError>,
) {
    let (m2, e) = spec_deliver_batches(m, lookups);
    match e {
        Some(err) => (m2, Some(err)),
        None => {
            let sealed = crate::app::StateModel {
                block_height: h,
                app_hash: Seq::empty(),
                ..m2.current
            };
            (AppModel { current: sealed, committed: sealed, initialized: m2.initialized }, None)
        },
    }
}

/// The engine: the height it last committed, resumed from `info` at
/// startup.
pub struct Engine {
    pub last_block_height: i64,
}

impl Engine {
    /// An engine resuming from the given committed height, as `info`
    /// reported it.
    pub fn new(last_block_height: i64) -> (r: Engine)
        ensures
            r.last_block_height == last_block_height,
    {
        Engine { last_block_height }
    }

    /// Initialises the chain, downgrading a repeated initialisation to a
    /// warning: the answer says whether the call was repeated, and is never
    /// an error.
    pub fn init_chain(&mut self, app: &mut App) -> (warned: bool)
        ensures
            final(app)@.committed == old(app)@.committed,
            final(app)@.current == old(app)@.current,
            final(app)@.initialized,
            warned == old(app)@.initialized,
            *final(self) == *old(self),
    {
        match app.init_chain() {
            Ok(()) => false,
            Err(_already) => true,
        }
    }

    /// Opens the block at the given height on the application.
    fn begin_block(&mut self, app: &mut App, height: i64)
        ensures
            final(app)@ == old(app)@,
            *final(self) == *old(self),
    {
        app.begin_block(height);
    }

    /// Delivers one raw transaction to the application.
    fn deliver_tx(&mut self, app: &mut App, tx: &Vec<u8>) -> (r: Result<(), EngineError>)
        ensures
            *final(self) == *old(self),
            match (r, spec_deliver_tx(old(app)@, tx@)) {
                (Ok(()), Ok((m2, _data))) => final(app)@ == m2,
                (Err(EngineError::Tx(e)), Err(e2)) => e == e2 && final(app)@ == old(app)@,
                _ => false,
            },
    {
        match app.deliver_tx(tx) {
            Ok(_resp) => Ok(()),
            Err(e) => Err(EngineError::Tx(e)),
        }
    }

    /// Decodes one batch and delivers its transactions in order.
    fn deliver_batch(&mut self, app: &mut App, batch: &Vec<u8>) -> (r: Result<(), EngineError>)
        ensures
            *final(self) == *old(self),
            match sp_dec_worker(batch@) {
                None => r == Err::<(), EngineError>(EngineError::UnrecognizedMessage) && final(app)@
                    == old(app)@,
                Some(txs) => ({
                    let (m2, e) = spec_deliver_seq(old(app)@, txs);
                    final(app)@ == m2 && (match e {
                        Some(err) => r == Err::<(), EngineError>(EngineError::Tx(err)),
                        None => r is Ok,
                    })
                }),
            },
    {
        let msg = match WorkerMessage::decode(batch) {
            Some(m) => m,
            None => {
                return Err(EngineError::UnrecognizedMessage);
            },
        };
        let WorkerMessage::Batch(txs) = msg;
        let ghost txsv = crate::batch::txs_view(txs@);
        let ghost m0 = app@;
        proof {
            assert(txsv.skip(0) =~= txsv);
        }
        let mut i: usize = 0;
        while i < txs.len()
            invariant
                i <= txs@.len(),
                txsv == crate::batch::txs_view(txs@),
                txsv.len() == txs@.len(),
                forall|k: int| 0 <= k < txsv.len() ==> txsv[k] == txs@[k]@,
                m0 == old(app)@,
                sp_dec_worker(batch@) is Some,
                txsv == sp_dec_worker(batch@).unwrap(),
                spec_deliver_seq(m0, txsv) == spec_deliver_seq(app@, txsv.skip(i as int)),
                *self == *old(self),
            decreases txs@.len() - i,
        {
            let ghost pre = app@;
            let r = self.deliver_tx(app, &txs[i]);
            proof {
                assert(txsv.skip(i as int)[0] == txsv[i as int]);
                assert(txsv.skip(i as int).drop_first() =~= txsv.skip(i as int + 1));
            }
            match r {
                Ok(()) => {},
                Err(e) => {
                    proof {
                        let sd = spec_deliver_tx(pre, txsv[i as int]);
                        assert(sd is Err);
                        assert(spec_deliver_seq(pre, txsv.skip(i as int)) == (
                            pre,
                            Some(sd->Err_0),
                        ));
                        assert(e == EngineError::Tx(sd->Err_0));
                    }
                    return Err(e);
                },
            }
            i = i + 1;
        }
        proof {
            assert(txsv.skip(txsv.len() as int) =~= Seq::<Seq<u8>>::empty());
        }
        Ok(())
    }

    /// Delivers every batch a certificate references, in payload order,
    /// from the lookup results the caller got from the worker stores.
    fn reconstruct_and_deliver_txs(
        &mut self,
        app: &mut App,
        lookups: &Vec<Option<Vec<u8>>>,
    ) -> (r: Result<(), EngineError>)
        ensures
            *final(self) == *old(self),
            ({
                let (m2, e) = spec_deliver_batches(old(app)@, lookups_view(lookups@));
                final(app)@ == m2 && (match e {
                    Some(err) => r == Err::<(), EngineError>(err),
                    None => r is Ok,
                })
            }),
    {
        let ghost lkv = lookups_view(lookups@);
        let ghost m0 = app@;
        proof {
            assert(lkv.skip(0) =~= lkv);
        }
        let mut i: usize = 0;
        while i < lookups.len()
            invariant
                i <= lookups@.len(),
                lkv == lookups_view(lookups@),
                lkv.len() == lookups@.len(),
                m0 == old(app)@,
                spec_deliver_batches(m0, lkv) == spec_deliver_batches(
                    app@,
                    lkv.skip(i as int),
                ),
                *self == *old(self),
            decreases lookups@.len() - i,
        {
            proof {
                assert(lkv.skip(i as int)[0] == lkv[i as int]);
                assert((match lookups@[i as int] {
                    Some(v) => Some(v@),
                    None => None::<Seq<u8>>,
                }) == lkv[i as int]);
                assert(lkv.skip(i as int).drop_first() =~= lkv.skip(i as int + 1));
            }
            let batch = match &lookups[i] {
                Some(b) => b,
                None => {
                    return Err(EngineError::BatchMissing);
                },
            };
            let r = self.deliver_batch(app, batch);
            match r {
                Ok(()) => {},
                Err(e) => {
                    return Err(e);
                },
            }
            i = i + 1;
        }
        proof {
            assert(lkv.skip(lkv.len() as int) =~= Seq::<Option<Seq<u8>>>::empty());
        }
        Ok(())
    }

    /// Seals the block at the given height.
    fn end_block(&mut self, app: &mut App, height: i64)
        ensures
            final(app)@.current == (crate::app::StateModel {
                block_height: height as int,
                app_hash: Seq::<u8>::empty(),
                ..old(app)@.current
            }),
            final(app)@.committed == old(app)@.committed,
            final(app)@.initialized == old(app)@.initialized,
            *final(self) == *old(self),
    {
        app.end_block(height);
    }

    /// Commits the block.
    fn commit(&mut self, app: &mut App)
        ensures
            final(app)@.committed == old(app)@.current,
            final(app)@.current == old(app)@.current,
            final(app)@.initialized == old(app)@.initialized,
            *final(self) == *old(self),
    {
        let _resp = app.commit();
    }

    /// Executes one certificate: proposes the next height, delivers every
    /// transaction the certificate references in payload order, seals the
    /// block and commits. The caller hands over one lookup result per
    /// payload item, in payload order; a missing batch aborts the
    /// certificate before the block is sealed.
    pub fn handle_cert(
        &mut self,
        app: &mut App,
        certificate: &Certificate,
        lookups: &Vec<Option<Vec<u8>>>,
    ) -> (r: Result<(), EngineError>)
        requires
            old(self).last_block_height < i64::MAX,
            lookups@.len() == certificate.header.payload@.len(),
        ensures
            final(self).last_block_height == old(self).last_block_height + 1,
            ({
                let (m2, e) = spec_handle_cert(
                    old(app)@,
                    old(self).last_block_height + 1,
                    lookups_view(lookups@),
                );
                final(app)@ == m2 && (match e {
                    Some(err) => r == Err::<(), EngineError>(err),
                    None => r is Ok,
                })
            }),
    {
        let proposed_block_height = self.last_block_height + 1;
        self.last_block_height = proposed_block_height;
        self.begin_block(app, proposed_block_height);
        match self.reconstruct_and_deliver_txs(app, lookups) {
            Ok(()) => {},
            Err(e) => {
                return Err(e);
            },
        }
        self.end_block(app, proposed_block_height);
        self.commit(app);
        Ok(())
    }

    /// Answers one client query from the committed state, which it never
    /// changes; the height and proof flag of the query are not consulted,
    /// as the application serves only the latest committed state.
    pub fn handle_abci_query(&mut self, app: &mut App, req: &AbciQueryQuery) -> (r: Result<
        ResponseQuery,
        ExecError,
    >)
        ensures
            final(app)@ == old(app)@,
            *final(self) == *old(self),
            match (r, spec_query(old(app)@.committed, req.data@)) {
                (Ok(resp), Ok(value)) => resp.key@ == req.data@ && resp.value@ == value,
                (Err(e), Err(e2)) => e == e2,
                _ => false,
            },
    {
        app.query(&req.data)
    }
}

/// Frames one transaction for the mempool socket: a 4-byte big-endian
/// length prefix, then the bytes.
pub fn frame_tx(tx: &Vec<u8>) -> (r: Option<Vec<u8>>)
    ensures
        match r {
            Some(f) => tx@.len() <= 0xffffffff && f@ == seq![
                (tx@.len() / 0x1000000 % 0x100) as u8,
                (tx@.len() / 0x10000 % 0x100) as u8,
                (tx@.len() / 0x100 % 0x100) as u8,
                (tx@.len() % 0x100) as u8,
            ] + tx@,
            None => tx@.len() > 0xffffffff,
        },
{
    if tx.len() > 0xffffffff {
        return None;
    }
    let n = tx.len();
    let mut f: Vec<u8> = Vec::new();
    f.push((n / 0x1000000 % 0x100) as u8);
    f.push((n / 0x10000 % 0x100) as u8);
    f.push((n / 0x100 % 0x100) as u8);
    f.push((n % 0x100) as u8);
    crate::json_exec::push_all(&mut f, tx);
    proof {
        assert(f@ =~= seq![
            (tx@.len() / 0x1000000 % 0x100) as u8,
            (tx@.len() / 0x10000 % 0x100) as u8,
            (tx@.len() / 0x100 % 0x100) as u8,
            (tx@.len() % 0x100) as u8,
        ] + tx@);
    }
    Some(f)
}

} // verus!
