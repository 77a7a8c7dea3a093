//! End-to-end scenarios: funding, transfers, block lifecycle, queries and
//! restart resumption, run against the real EVM.

use evm_abci::app::ExecError;
use evm_abci::engine::EngineError;
use evm_abci::evm::db_insert_account;
use evm_abci::json_exec::{encode_query, encode_query_response, encode_tx};
use evm_abci::{Address, App, Engine, Query, QueryResponse, Recipient, TransactionRequest, U256};

fn addr(byte: u8) -> Address {
    Address::from_bytes(vec![byte; 20]).unwrap()
}

fn wei(x: u128) -> U256 {
    U256::from_be_bytes(&x.to_be_bytes().to_vec()).unwrap()
}

fn transfer(from: &Address, to: &Address, value: U256, gas: u64, gas_price: u64) -> TransactionRequest {
    TransactionRequest {
        from: Some(Address::from_bytes(from.bytes.clone()).unwrap()),
        to: Some(Recipient::Addr(Address::from_bytes(to.bytes.clone()).unwrap())),
        gas: Some(U256::from_u64(gas)),
        gas_price: Some(U256::from_u64(gas_price)),
        value: Some(value),
        data: None,
        nonce: None,
    }
}

fn fund(app: &mut App, who: &Address, amount: U256) {
    db_insert_account(&mut app.current_state.db, who, &amount);
    app.committed_state = app.current_state.snapshot();
}

fn balance_response(app: &mut App, who: &Address) -> Vec<u8> {
    let q = Query::Balance(Address::from_bytes(who.bytes.clone()).unwrap());
    let bytes = encode_query(&q);
    let resp = app.query(&bytes).unwrap();
    resp.value
}

fn assert_balance(app: &mut App, who: &Address, expected: U256) {
    let got = balance_response(app, who);
    let want = encode_query_response(&QueryResponse::Balance(expected));
    assert_eq!(
        String::from_utf8_lossy(&got),
        String::from_utf8_lossy(&want)
    );
}

/// A funded transfer is delivered, committed, and visible in a balance
/// query afterwards.
#[test]
fn run_and_query_tx() {
    let val = wei(1_000_000_000_000_000_000);
    let alice = addr(0x11);
    let bob = addr(0x22);

    let mut app = App::new(false);
    fund(&mut app, &alice, wei(1_000_000_000_000_000_000));

    let mut tx = transfer(&alice, &bob, val, 31000, 0);
    tx.data = Some(vec![1, 2, 3, 4, 5]);

    let req = encode_tx(&tx);
    let res = app.deliver_tx(&req).unwrap();
    let parsed: serde_json::Value = serde_json::from_slice(&res.data).unwrap();
    // tx passed
    assert_eq!(parsed["exit"].as_str(), Some("Stop"));

    // now we query the state for bob's balance
    app.end_block(1);
    app.commit();
    assert_balance(&mut app, &bob, wei(1_000_000_000_000_000_000));
}

/// Single transfer: the recipient gains the value, the sender pays the
/// value and the gas.
#[test]
fn s1_single_transfer() {
    let mut app = App::new(true);
    let alice = addr(0xaa);
    let bob = addr(0xbb);

    assert_balance(&mut app, &alice, wei(1_500_000_000_000_000_000));

    let tx = transfer(&alice, &bob, wei(500), 40000, 875_000_000);
    let req = encode_tx(&tx);
    app.begin_block(1);
    let res = app.deliver_tx(&req).unwrap();
    let parsed: serde_json::Value = serde_json::from_slice(&res.data).unwrap();
    assert_eq!(parsed["exit"].as_str(), Some("Stop"));
    assert_eq!(parsed["gas"].as_u64(), Some(21000));
    app.end_block(1);
    app.commit();

    assert_balance(&mut app, &bob, wei(500));
    assert_balance(
        &mut app,
        &alice,
        wei(1_500_000_000_000_000_000 - 500 - 21000 * 875_000_000),
    );
}

/// Conflicting double-spend: the first transfer wins, the second is
/// rejected by the EVM and changes nothing.
#[test]
fn s2_double_spend_ordering() {
    let mut app = App::new(false);
    let alice = addr(0xaa);
    let bob = addr(0xbb);
    let charlie = addr(0xcc);
    fund(&mut app, &alice, wei(1_000_000_000_000_000_000));

    let tx1 = transfer(&alice, &bob, wei(1_000_000_000_000_000_000), 21000, 0);
    let tx2 = transfer(&alice, &charlie, wei(1_000_000_000_000_000_000), 21000, 0);
    let batch = evm_abci::WorkerMessage::Batch(vec![encode_tx(&tx1), encode_tx(&tx2)]).encode();

    let mut engine = Engine::new(0);
    let cert = evm_abci::Certificate {
        header: evm_abci::CertificateHeader { height: 1, payload: vec![(digest(1), 0)] },
    };
    engine
        .handle_cert(&mut app, &cert, &vec![Some(batch)])
        .unwrap();
    assert_eq!(engine.last_block_height, 1);

    assert_balance(&mut app, &bob, wei(1_000_000_000_000_000_000));
    assert_balance(&mut app, &charlie, wei(0));
}

fn digest(byte: u8) -> evm_abci::Digest {
    evm_abci::Digest::from_bytes(vec![byte; 32]).unwrap()
}

/// Restart resume: the first block after a restart seals at the reported
/// height plus one.
#[test]
fn s3_restart_resume() {
    let mut app = App::new(true);
    let alice = addr(0xaa);
    let bob = addr(0xbb);

    let tx = transfer(&alice, &bob, wei(500), 40000, 0);
    let batch = evm_abci::WorkerMessage::Batch(vec![encode_tx(&tx)]).encode();
    let cert = evm_abci::Certificate {
        header: evm_abci::CertificateHeader { height: 1, payload: vec![(digest(1), 0)] },
    };

    let mut engine = Engine::new(app.info().last_block_height);
    assert!(!engine.init_chain(&mut app));
    engine
        .handle_cert(&mut app, &cert, &vec![Some(batch.clone())])
        .unwrap();
    assert_eq!(app.info().last_block_height, 1);

    // restart: a fresh engine resumes from the application's report
    let mut engine2 = Engine::new(app.info().last_block_height);
    let warned = engine2.init_chain(&mut app);
    assert!(warned);
    engine2
        .handle_cert(&mut app, &cert, &vec![Some(batch)])
        .unwrap();
    assert_eq!(app.info().last_block_height, 2);
    assert_eq!(engine2.last_block_height, 2);
}

/// A query issued inside an open block reads the committed state, not the
/// half-applied block.
#[test]
fn s4_query_during_block() {
    let mut app = App::new(true);
    let alice = addr(0xaa);
    let bob = addr(0xbb);

    app.begin_block(5);
    let tx = transfer(&alice, &bob, wei(100), 40000, 0);
    let req = encode_tx(&tx);
    app.deliver_tx(&req).unwrap();

    // before commit: bob still reads as empty
    assert_balance(&mut app, &bob, wei(0));

    app.end_block(5);
    app.commit();
    assert_balance(&mut app, &bob, wei(100));
}

/// A missing batch aborts the certificate and leaves the committed state
/// untouched.
#[test]
fn s5_missing_batch() {
    let mut app = App::new(true);
    let alice = addr(0xaa);

    let before = balance_response(&mut app, &alice);
    let height_before = app.info().last_block_height;

    let mut engine = Engine::new(height_before);
    let cert = evm_abci::Certificate {
        header: evm_abci::CertificateHeader { height: 1, payload: vec![(digest(7), 0)] },
    };
    let err = engine.handle_cert(&mut app, &cert, &vec![None]).unwrap_err();
    assert_eq!(err, EngineError::BatchMissing);

    assert_eq!(app.info().last_block_height, height_before);
    let after = balance_response(&mut app, &alice);
    assert_eq!(before, after);
}

/// Malformed bytes delivered inside a block: a non-fatal answer, and no
/// state change between the bracketing queries.
#[test]
fn s6_malformed_deliver_tx() {
    let mut app = App::new(true);
    let alice = addr(0xaa);

    let before = balance_response(&mut app, &alice);
    app.begin_block(1);
    let res = app.deliver_tx(&b"not-json".to_vec()).unwrap();
    assert_eq!(res.data, b"could not decode request".to_vec());
    let after = balance_response(&mut app, &alice);
    assert_eq!(before, after);
}

/// A query with an unknown variant is answered with the decode note, not
/// an error.
#[test]
fn p9_unknown_query_variant() {
    let mut app = App::new(true);
    let resp = app.query(&b"{\"Unknown\":\"x\"}".to_vec()).unwrap();
    assert_eq!(resp.value, b"could not decode request".to_vec());
}

/// A repeated chain initialisation is downgraded to a warning.
#[test]
fn p10_init_chain_twice() {
    let mut app = App::new(false);
    let mut engine = Engine::new(0);
    assert!(!engine.init_chain(&mut app));
    assert!(engine.init_chain(&mut app));
}

/// A symbolic recipient is fatal to the call.
#[test]
fn deliver_rejects_symbolic_recipient() {
    let mut app = App::new(true);
    let err = app
        .deliver_tx(&b"{\"to\":\"somebody\"}".to_vec())
        .unwrap_err();
    assert_eq!(err, ExecError::InvalidRecipient);
}

/// A gas limit beyond the EVM's machine word is fatal to the call.
#[test]
fn deliver_rejects_oversized_gas() {
    let mut app = App::new(true);
    let alice = addr(0xaa);
    let bob = addr(0xbb);
    let mut tx = transfer(&alice, &bob, wei(1), 21000, 0);
    tx.gas = Some(wei(1u128 << 70));
    let req = encode_tx(&tx);
    let err = app.deliver_tx(&req).unwrap_err();
    assert_eq!(err, ExecError::GasTooLarge);
}

/// Gas price and nonce beyond their machine words are fatal to the call.
#[test]
fn deliver_rejects_oversized_price_and_nonce() {
    let mut app = App::new(true);
    let alice = addr(0xaa);
    let bob = addr(0xbb);

    let mut tx = transfer(&alice, &bob, wei(1), 21000, 0);
    let huge = U256::from_be_bytes(&vec![1u8; 32]).unwrap();
    tx.gas_price = Some(huge);
    let err = app.deliver_tx(&encode_tx(&tx)).unwrap_err();
    assert_eq!(err, ExecError::GasPriceTooLarge);

    let mut tx = transfer(&alice, &bob, wei(1), 21000, 0);
    tx.nonce = Some(wei(1u128 << 70));
    let err = app.deliver_tx(&encode_tx(&tx)).unwrap_err();
    assert_eq!(err, ExecError::NonceTooLarge);
}

/// A read call through the query interface reports the EVM trace without
/// touching any state.
#[test]
fn query_eth_call_reads_only() {
    let mut app = App::new(true);
    let alice = addr(0xaa);
    let bob = addr(0xbb);

    let call = Query::EthCall(transfer(&alice, &bob, wei(500), 40000, 0));
    let resp = app.query(&encode_query(&call)).unwrap();
    let parsed: serde_json::Value = serde_json::from_slice(&resp.value).unwrap();
    assert_eq!(parsed["Tx"]["exit"].as_str(), Some("Stop"));

    // the call did not move any balance
    assert_balance(&mut app, &bob, wei(0));
    assert_balance(&mut app, &alice, wei(1_500_000_000_000_000_000));
}

/// Responses expose their payloads to callers that know the variant, and
/// the mempool accepts everything.
#[test]
fn response_accessors_and_check_tx() {
    let qr = QueryResponse::Balance(wei(5));
    assert_eq!(qr.as_balance().be, wei(5).be);

    let mut app = App::new(true);
    let alice = addr(0xaa);
    let bob = addr(0xbb);
    let call = Query::EthCall(transfer(&alice, &bob, wei(1), 40000, 0));
    let resp = app.query(&encode_query(&call)).unwrap();
    assert!(!resp.value.is_empty());
    let res = app
        .committed_state
        .execute(transfer(&alice, &bob, wei(1), 40000, 0), true)
        .unwrap();
    let qr = QueryResponse::Tx(res);
    assert_eq!(qr.as_tx().gas, 21000);

    assert_eq!(app.check_tx(&b"anything".to_vec()).code, 0);
    assert_eq!(evm_abci::Mempool.check_tx(&b"anything".to_vec()).code, 0);
}

/// A store value that is not a batch message, or a batch carrying an
/// unrunnable transaction, aborts the certificate with the matching error.
#[test]
fn bad_batches_abort_certificate() {
    let mut app = App::new(true);
    let mut engine = Engine::new(0);
    let cert = evm_abci::Certificate {
        header: evm_abci::CertificateHeader { height: 1, payload: vec![(digest(9), 0)] },
    };

    let err = engine
        .handle_cert(&mut app, &cert, &vec![Some(b"garbage".to_vec())])
        .unwrap_err();
    assert_eq!(err, EngineError::UnrecognizedMessage);

    let batch = evm_abci::WorkerMessage::Batch(vec![b"{\"to\":\"nobody\"}".to_vec()]).encode();
    let err = engine
        .handle_cert(&mut app, &cert, &vec![Some(batch)])
        .unwrap_err();
    assert_eq!(err, EngineError::Tx(ExecError::InvalidRecipient));

    // neither attempt reached the committed state
    assert_eq!(app.info().last_block_height, 0);
}
