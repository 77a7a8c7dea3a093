//! The system-wide laws: determinism, commit atomicity, delivery ordering,
//! query isolation and restart resumption, each proved over the
//! specification step functions that the executable handlers are pinned to.

use vstd::prelude::*;

use crate::app::{spec_deliver_tx, spec_query, AppModel, StateModel};
use crate::batch::sp_dec_worker;
use crate::engine::{spec_deliver_batches, spec_deliver_seq, spec_handle_cert};

verus! {

/// The committed states a replica passes through, one after each
/// certificate, starting the first block at height `h`.
pub open spec fn committed_trace(
    m: AppModel,
    h: int,
    stream: Seq<Seq<Option<Seq<u8>>>>,
) -> Seq<StateModel>
    decreases stream.len(),
{
    if stream.len() == 0 {
        Seq::empty()
    } else {
        let (m2, _e) = spec_handle_cert(m, h, stream[0]);
        seq![m2.committed] + committed_trace(m2, h + 1, stream.drop_first())
    }
}

/// Determinism. Two replicas fed the same certificate stream and the same
/// worker-store contents pass through byte-identical committed states: the
/// whole pipeline — decoding, the EVM, sealing, committing — is a function
/// of the stream and the store lookups alone, which the executable
/// handlers are pinned to by their contracts.
pub proof fn lemma_determinism(
    ma: AppModel,
    mb: AppModel,
    h: int,
    stream: Seq<Seq<Option<Seq<u8>>>>,
)
    requires
        ma == mb,
    ensures
        committed_trace(ma, h, stream) == committed_trace(mb, h, stream),
{
}

/// One consensus-role or read command, as the single writer issues them;
/// `commit` is deliberately absent — these are the commands that may run
/// between two commits.
pub ghost enum AppCmd {
    InitChain,
    BeginBlock(int),
    DeliverTx(Seq<u8>),
    EndBlock(int),
    CheckTx,
    QueryRead(Seq<u8>),
    InfoRead,
}

/// What one command does to the application.
pub open spec fn app_cmd_step(m: AppModel, c: AppCmd) -> AppModel {
    match c {
        AppCmd::InitChain => AppModel { initialized: true, ..m },
        AppCmd::BeginBlock(_h) => m,
        AppCmd::DeliverTx(bytes) => match spec_deliver_tx(m, bytes) {
            Ok((m2, _data)) => m2,
            Err(_e) => m,
        },
        AppCmd::EndBlock(h) => AppModel {
            current: StateModel { block_height: h, app_hash: Seq::empty(), ..m.current },
            ..m
        },
        AppCmd::CheckTx => m,
        AppCmd::QueryRead(_bytes) => m,
        AppCmd::InfoRead => m,
    }
}

/// The application after a sequence of commands.
pub open spec fn app_cmd_run(m: AppModel, cmds: Seq<AppCmd>) -> AppModel
    decreases cmds.len(),
{
    if cmds.len() == 0 {
        m
    } else {
        app_cmd_run(app_cmd_step(m, cmds[0]), cmds.drop_first())
    }
}

/// No single command between commits touches the committed state.
pub proof fn lemma_cmd_preserves_committed(m: AppModel, c: AppCmd)
    ensures
        app_cmd_step(m, c).committed == m.committed,
{
    reveal(spec_deliver_tx);
    match c {
        AppCmd::DeliverTx(bytes) => {
            match spec_deliver_tx(m, bytes) {
                Ok((m2, _data)) => {
                    assert(m2.committed == m.committed);
                },
                Err(_e) => {},
            }
        },
        _ => {},
    }
}

/// Commit atomicity. Between two commits the committed state never moves:
/// whatever a block delivers, a reader sees exactly the state some commit
/// produced, never a half-applied block. With `commit`'s own contract —
/// the committed state becomes the current one, in one step — every
/// observable committed state is the image of a commit.
pub proof fn lemma_commit_atomicity(m: AppModel, cmds: Seq<AppCmd>)
    ensures
        app_cmd_run(m, cmds).committed == m.committed,
    decreases cmds.len(),
{
    if cmds.len() > 0 {
        lemma_cmd_preserves_committed(m, cmds[0]);
        lemma_commit_atomicity(app_cmd_step(m, cmds[0]), cmds.drop_first());
    }
}

/// The transactions a certificate's lookups carry, flattened in
/// lexicographic (payload-index, batch-index) order.
pub open spec fn cert_txs(lookups: Seq<Option<Seq<u8>>>) -> Seq<Seq<u8>>
    decreases lookups.len(),
{
    if lookups.len() == 0 {
        Seq::empty()
    } else {
        (match lookups[0] {
            Some(b) => match sp_dec_worker(b) {
                Some(txs) => txs,
                None => Seq::empty(),
            },
            None => Seq::empty(),
        }) + cert_txs(lookups.drop_first())
    }
}

/// Delivery distributes over concatenation: the second run starts where
/// the first stopped, and an error in the first half ends the whole run.
pub proof fn lemma_deliver_seq_concat(m: AppModel, a: Seq<Seq<u8>>, b: Seq<Seq<u8>>)
    ensures
        spec_deliver_seq(m, a + b) == ({
            let (m1, e) = spec_deliver_seq(m, a);
            match e {
                Some(err) => (m1, Some(err)),
                None => spec_deliver_seq(m1, b),
            }
        }),
    decreases a.len(),
{
    if a.len() == 0 {
        assert(a + b =~= b);
    } else {
        assert((a + b)[0] == a[0]);
        assert((a + b).len() > 0);
        match spec_deliver_tx(m, a[0]) {
            Err(_e) => {
                assert(spec_deliver_seq(m, a + b) == (m, Some(spec_deliver_tx(m, a[0])->Err_0)));
            },
            Ok((m2, _data)) => {
                assert((a + b).drop_first() =~= a.drop_first() + b);
                lemma_deliver_seq_concat(m2, a.drop_first(), b);
            },
        }
    }
}

/// Ordering. For every certificate whose batches are all present and
/// decode, the engine delivers exactly the flattened transaction sequence,
/// in lexicographic (payload-index, batch-index) order: the state after
/// the batch-by-batch run is the state after one run over the flattened
/// order, and the runs fail together.
pub proof fn lemma_ordering(m: AppModel, lookups: Seq<Option<Seq<u8>>>)
    requires
        forall|i: int|
            0 <= i < lookups.len() ==> (#[trigger] lookups[i]) is Some && sp_dec_worker(
                lookups[i].unwrap(),
            ) is Some,
    ensures
        spec_deliver_batches(m, lookups).0 == spec_deliver_seq(m, cert_txs(lookups)).0,
        spec_deliver_batches(m, lookups).1 is Some <==> spec_deliver_seq(
            m,
            cert_txs(lookups),
        ).1 is Some,
    decreases lookups.len(),
{
    if lookups.len() == 0 {
        assert(cert_txs(lookups) =~= Seq::<Seq<u8>>::empty());
    } else {
        let b = lookups[0].unwrap();
        let txs = sp_dec_worker(b).unwrap();
        let tail = lookups.drop_first();
        assert(cert_txs(lookups) == txs + cert_txs(tail));
        lemma_deliver_seq_concat(m, txs, cert_txs(tail));
        let (m2, e) = spec_deliver_seq(m, txs);
        match e {
            Some(_err) => {},
            None => {
                assert(forall|i: int|
                    0 <= i < tail.len() ==> (#[trigger] tail[i]) == lookups[i + 1]);
                lemma_ordering(m2, tail);
            },
        }
    }
}

/// The answers a sequence of read queries gets from one committed state.
pub open spec fn query_answers(m: AppModel, qs: Seq<Seq<u8>>) -> Seq<
    Result<Seq<u8>, crate::app::ExecError>,
> {
    Seq::new(qs.len(), |k: int| spec_query(m.committed, qs[k]))
}

/// Query isolation. Read queries never mutate the committed state — the
/// handlers leave the application untouched — so between two commits the
/// same query always gets the same answer, wherever it stands in the
/// sequence.
pub proof fn lemma_query_isolation(m: AppModel, qs: Seq<Seq<u8>>, i: int, j: int)
    requires
        0 <= i < qs.len(),
        0 <= j < qs.len(),
        qs[i] == qs[j],
    ensures
        query_answers(m, qs)[i] == query_answers(m, qs)[j],
{
}

/// Resume. After a restart the engine proposes `info`'s reported height
/// plus one, and the first successfully committed block seals at exactly
/// that height.
pub proof fn lemma_resume(m: AppModel, lookups: Seq<Option<Seq<u8>>>)
    ensures
        ({
            let h0 = m.committed.block_height;
            let (m2, e) = spec_handle_cert(m, h0 + 1, lookups);
            e is None ==> m2.committed.block_height == h0 + 1
        }),
{
}

} // verus!
