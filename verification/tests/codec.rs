//! Wire-codec checks: the JSON round trip, the canonical renderings, the
//! batch layout and the mempool framing, cross-checked against a stock
//! JSON parser.

use evm_abci::engine::frame_tx;
use evm_abci::json_exec::{decode_query, decode_tx, encode_query, encode_tx};
use evm_abci::{Address, Query, Recipient, TransactionRequest, WorkerMessage, U256};

fn addr(byte: u8) -> Address {
    Address::from_bytes(vec![byte; 20]).unwrap()
}

fn wei(x: u128) -> U256 {
    U256::from_be_bytes(&x.to_be_bytes().to_vec()).unwrap()
}

fn sample_tx() -> TransactionRequest {
    TransactionRequest {
        from: Some(addr(0xaa)),
        to: Some(Recipient::Addr(addr(0xbb))),
        gas: Some(U256::from_u64(21000)),
        gas_price: Some(U256::from_u64(875_000_000)),
        value: Some(wei(500)),
        data: Some(vec![0xde, 0xad, 0xbe, 0xef]),
        nonce: Some(U256::from_u64(7)),
    }
}

/// Decoding undoes encoding for a request with every field present.
#[test]
fn tx_round_trip_full() {
    let t = sample_tx();
    let bytes = encode_tx(&t);
    let back = decode_tx(&bytes).unwrap();
    assert_eq!(encode_tx(&back), bytes);
    match back.to.unwrap() {
        Recipient::Addr(a) => assert_eq!(a.bytes, vec![0xbb; 20]),
        Recipient::Name(_) => panic!("address decoded as a name"),
    }
    assert_eq!(back.value.unwrap().be, wei(500).be);
    assert_eq!(back.data.unwrap(), vec![0xde, 0xad, 0xbe, 0xef]);
}

/// Decoding undoes encoding when optional fields are absent.
#[test]
fn tx_round_trip_sparse() {
    let t = TransactionRequest {
        from: None,
        to: Some(Recipient::Addr(addr(0x01))),
        gas: None,
        gas_price: None,
        value: None,
        data: None,
        nonce: None,
    };
    let bytes = encode_tx(&t);
    assert_eq!(
        bytes,
        b"{\"to\":\"0x0101010101010101010101010101010101010101\"}".to_vec()
    );
    let back = decode_tx(&bytes).unwrap();
    assert!(back.from.is_none() && back.gas.is_none() && back.nonce.is_none());
    assert_eq!(encode_tx(&back), bytes);
}

/// The canonical encoding is what a stock JSON library reads, hex strings
/// and all.
#[test]
fn tx_encoding_cross_checked() {
    let t = sample_tx();
    let bytes = encode_tx(&t);
    let v: serde_json::Value = serde_json::from_slice(&bytes).unwrap();
    assert_eq!(
        v["from"].as_str(),
        Some("0xaaaaaaaaaaaaaaaaaaaaaaaaaaaaaaaaaaaaaaaa")
    );
    assert_eq!(v["gas"].as_str(), Some("0x5208"));
    assert_eq!(v["gasPrice"].as_str(), Some("0x342770c0"));
    assert_eq!(v["value"].as_str(), Some("0x1f4"));
    assert_eq!(v["data"].as_str(), Some("0xdeadbeef"));
    assert_eq!(v["nonce"].as_str(), Some("0x7"));
}

/// The decoder takes whitespace and both hex cases, and refuses repeated,
/// unknown or out-of-order members.
#[test]
fn tx_decoding_edges() {
    let ok = b" { \"to\" : \"0x0101010101010101010101010101010101010101\" } ".to_vec();
    assert!(decode_tx(&ok).is_some());

    let upper = b"{\"to\":\"0x0101010101010101010101010101010101010101\",\"value\":\"0x1F4\"}"
        .to_vec();
    let t = decode_tx(&upper).unwrap();
    assert_eq!(t.value.unwrap().be, wei(500).be);

    assert!(decode_tx(&b"not-json".to_vec()).is_none());
    assert!(decode_tx(&b"{\"value\":\"0x1\",\"value\":\"0x2\"}".to_vec()).is_none());
    assert!(decode_tx(&b"{\"shoes\":\"0x1\"}".to_vec()).is_none());
    assert!(decode_tx(&b"{\"value\":\"0x1\",\"to\":\"x\"}".to_vec()).is_none());
    assert!(decode_tx(&b"{\"value\":\"0x\"}".to_vec()).is_none());
}

/// A zero quantity renders as a single digit.
#[test]
fn zero_quantity_renders_minimal() {
    let t = TransactionRequest {
        from: None,
        to: Some(Recipient::Addr(addr(0x01))),
        gas: None,
        gas_price: None,
        value: Some(U256::zero()),
        data: None,
        nonce: None,
    };
    let bytes = encode_tx(&t);
    let v: serde_json::Value = serde_json::from_slice(&bytes).unwrap();
    assert_eq!(v["value"].as_str(), Some("0x0"));
}

/// Queries round-trip through their tagged encoding.
#[test]
fn query_round_trip() {
    let q = Query::Balance(addr(0x42));
    let bytes = encode_query(&q);
    assert_eq!(
        bytes,
        b"{\"Balance\":\"0x4242424242424242424242424242424242424242\"}".to_vec()
    );
    match decode_query(&bytes).unwrap() {
        Query::Balance(a) => assert_eq!(a.bytes, vec![0x42; 20]),
        Query::EthCall(_) => panic!("balance decoded as a call"),
    }

    let q = Query::EthCall(sample_tx());
    let bytes = encode_query(&q);
    match decode_query(&bytes).unwrap() {
        Query::EthCall(t) => assert_eq!(encode_tx(&t), encode_tx(&sample_tx())),
        Query::Balance(_) => panic!("call decoded as a balance"),
    }
}

/// The batch message lays out exactly as the worker stores write it, and
/// decodes back.
#[test]
fn worker_message_layout_and_round_trip() {
    let msg = WorkerMessage::Batch(vec![vec![1, 2, 3], vec![]]);
    let bytes = msg.encode();
    let mut expected: Vec<u8> = Vec::new();
    expected.extend_from_slice(&0u32.to_le_bytes());
    expected.extend_from_slice(&2u64.to_le_bytes());
    expected.extend_from_slice(&3u64.to_le_bytes());
    expected.extend_from_slice(&[1, 2, 3]);
    expected.extend_from_slice(&0u64.to_le_bytes());
    assert_eq!(bytes, expected);

    let WorkerMessage::Batch(txs) = WorkerMessage::decode(&bytes).unwrap();
    assert_eq!(txs, vec![vec![1, 2, 3], vec![]]);

    assert!(WorkerMessage::decode(&b"junk".to_vec()).is_none());
    // a truncated length prefix is refused
    assert!(WorkerMessage::decode(&bytes[..bytes.len() - 1].to_vec()).is_none());
}

/// The mempool frame is a 4-byte big-endian length prefix.
#[test]
fn mempool_frame_prefix() {
    let f = frame_tx(&vec![9, 9, 9]).unwrap();
    assert_eq!(f, vec![0, 0, 0, 3, 9, 9, 9]);
}
