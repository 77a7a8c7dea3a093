//! JSON wire codec for transaction requests, queries and their answers.
//!
//! The grammar is the fragment of JSON these messages live in: objects whose
//! values are strings (or, for a query, one nested object), with arbitrary
//! whitespace between tokens and at most a handful of members. Encoders emit
//! the compact canonical form; the decoder accepts exactly the canonical
//! member order, rejects unknown or repeated keys, and is proved to undo the
//! encoder.

use vstd::prelude::*;

use crate::hexcode::{
    bytes_to_hex, dec_digits, hex_to_bytes, hex_val, is_hex, lemma_hex_all_digits,
    lemma_qty_hex_all_digits, qty_from_hex, qty_to_hex,
};
use crate::tx::{
    clean_str, Exit, LogModel, QueryModel, QueryResponseModel, RecModel, TxOutputModel,
    TxReqModel, TxResultModel,
};

verus! {

/// JSON insignificant whitespace.
pub open spec fn is_ws(c: u8) -> bool {
    c == 32 || c == 9 || c == 10 || c == 13
}

/// Whether byte `c` stands at position `i`.
pub open spec fn at(s: Seq<u8>, i: int, c: u8) -> bool {
    0 <= i < s.len() && s[i] == c
}

/// The first position at or after `i` holding a non-whitespace byte.
pub open spec fn sp_ws(s: Seq<u8>, i: int) -> int
    decreases s.len() - i,
{
    if 0 <= i < s.len() && is_ws(s[i]) {
        sp_ws(s, i + 1)
    } else {
        i
    }
}

/// Parses the body of a string literal starting at `i` (the quote already
/// consumed): the content up to the closing quote, and the position after it.
/// Escapes and control bytes are not part of this grammar.
pub open spec fn sp_str_body(s: Seq<u8>, i: int) -> Option<(Seq<u8>, int)>
    decreases s.len() - i,
{
    if !(0 <= i < s.len()) {
        None
    } else if s[i] == 34 {
        Some((Seq::empty(), i + 1))
    } else if s[i] == 92 || s[i] < 32 {
        None
    } else {
        match sp_str_body(s, i + 1) {
            Some((c, j)) => Some((seq![s[i]] + c, j)),
            None => None,
        }
    }
}

/// Parses a string literal at `i`.
pub open spec fn sp_string(s: Seq<u8>, i: int) -> Option<(Seq<u8>, int)> {
    if at(s, i, 34) {
        sp_str_body(s, i + 1)
    } else {
        None
    }
}

/// Parses one `"key" : "value"` member at `i`.
pub open spec fn sp_pair(s: Seq<u8>, i: int) -> Option<((Seq<u8>, Seq<u8>), int)> {
    match sp_string(s, i) {
        None => None,
        Some((k, j)) => {
            let j2 = sp_ws(s, j);
            if !at(s, j2, 58) {
                None
            } else {
                let j3 = sp_ws(s, j2 + 1);
                match sp_string(s, j3) {
                    Some((v, j4)) => Some(((k, v), j4)),
                    None => None,
                }
            }
        },
    }
}

/// Parses the members of an object from the first key up to and including
/// the closing brace; at most `quota` members.
pub open spec fn sp_members(s: Seq<u8>, i: int, quota: nat) -> Option<
    (Seq<(Seq<u8>, Seq<u8>)>, int),
>
    decreases quota,
{
    if quota == 0 {
        None
    } else {
        match sp_pair(s, i) {
            None => None,
            Some((kv, j)) => {
                let j2 = sp_ws(s, j);
                if at(s, j2, 44) {
                    match sp_members(s, sp_ws(s, j2 + 1), (quota - 1) as nat) {
                        Some((ps, j3)) => Some((seq![kv] + ps, j3)),
                        None => None,
                    }
                } else if at(s, j2, 125) {
                    Some((seq![kv], j2 + 1))
                } else {
                    None
                }
            },
        }
    }
}

/// Parses a whole string-valued object at `i`.
pub open spec fn sp_obj(s: Seq<u8>, i: int, quota: nat) -> Option<(Seq<(Seq<u8>, Seq<u8>)>, int)> {
    let i1 = sp_ws(s, i);
    if !at(s, i1, 123) {
        None
    } else {
        let i2 = sp_ws(s, i1 + 1);
        if at(s, i2, 125) {
            Some((Seq::empty(), i2 + 1))
        } else {
            sp_members(s, i2, quota)
        }
    }
}

// The member keys of the wire objects, as byte strings.
pub open spec fn key_from() -> Seq<u8> {
    seq![102u8, 114u8, 111u8, 109u8]
}

pub open spec fn key_to() -> Seq<u8> {
    seq![116u8, 111u8]
}

pub open spec fn key_gas() -> Seq<u8> {
    seq![103u8, 97u8, 115u8]
}

pub open spec fn key_gas_price() -> Seq<u8> {
    seq![103u8, 97u8, 115u8, 80u8, 114u8, 105u8, 99u8, 101u8]
}

pub open spec fn key_value() -> Seq<u8> {
    seq![118u8, 97u8, 108u8, 117u8, 101u8]
}

pub open spec fn key_data() -> Seq<u8> {
    seq![100u8, 97u8, 116u8, 97u8]
}

pub open spec fn key_nonce() -> Seq<u8> {
    seq![110u8, 111u8, 110u8, 99u8, 101u8]
}

/// Decodes a `0x`-prefixed, 40-digit hex string into a 20-byte address.
pub open spec fn sp_addr(v: Seq<u8>) -> Option<Seq<u8>> {
    if v.len() == 42 && v[0] == 48 && v[1] == 120 {
        hex_to_bytes(v.skip(2))
    } else {
        None
    }
}

/// Decodes a `0x`-prefixed hex quantity into a 32-byte word.
pub open spec fn sp_qty(v: Seq<u8>) -> Option<Seq<u8>> {
    if v.len() >= 2 && v[0] == 48 && v[1] == 120 {
        qty_from_hex(v.skip(2))
    } else {
        None
    }
}

/// Decodes a `0x`-prefixed, even-length hex string into bytes.
pub open spec fn sp_bytes(v: Seq<u8>) -> Option<Seq<u8>> {
    if v.len() >= 2 && v[0] == 48 && v[1] == 120 {
        hex_to_bytes(v.skip(2))
    } else {
        None
    }
}

/// Reads a recipient: an address when the string is one, a symbolic name
/// otherwise.
pub open spec fn sp_rec(v: Seq<u8>) -> RecModel {
    match sp_addr(v) {
        Some(a) => RecModel::Addr(a),
        None => RecModel::Name(v),
    }
}

/// Takes the leading member off `ps` if its key is `key`.
pub open spec fn take_field(ps: Seq<(Seq<u8>, Seq<u8>)>, key: Seq<u8>) -> (
    Option<Seq<u8>>,
    Seq<(Seq<u8>, Seq<u8>)>,
) {
    if ps.len() > 0 && ps[0].0 == key {
        (Some(ps[0].1), ps.drop_first())
    } else {
        (None, ps)
    }
}

/// Lifts an address decode over an absent field.
pub open spec fn opt_addr(o: Option<Seq<u8>>) -> Option<Option<Seq<u8>>> {
    match o {
        None => Some(None),
        Some(v) => match sp_addr(v) {
            Some(a) => Some(Some(a)),
            None => None,
        },
    }
}

/// Lifts a quantity decode over an absent field.
pub open spec fn opt_qty(o: Option<Seq<u8>>) -> Option<Option<Seq<u8>>> {
    match o {
        None => Some(None),
        Some(v) => match sp_qty(v) {
            Some(q) => Some(Some(q)),
            None => None,
        },
    }
}

/// Lifts a byte-string decode over an absent field.
pub open spec fn opt_bytes(o: Option<Seq<u8>>) -> Option<Option<Seq<u8>>> {
    match o {
        None => Some(None),
        Some(v) => match sp_bytes(v) {
            Some(b) => Some(Some(b)),
            None => None,
        },
    }
}

/// Assembles a transaction request from the parsed members. The members must
/// stand in canonical order, each key at most once, no key outside the seven.
pub open spec fn sp_tx_of_pairs(ps: Seq<(Seq<u8>, Seq<u8>)>) -> Option<TxReqModel> {
    let (fr_raw, p1) = take_field(ps, key_from());
    let (to_raw, p2) = take_field(p1, key_to());
    let (gas_raw, p3) = take_field(p2, key_gas());
    let (gp_raw, p4) = take_field(p3, key_gas_price());
    let (val_raw, p5) = take_field(p4, key_value());
    let (data_raw, p6) = take_field(p5, key_data());
    let (nonce_raw, p7) = take_field(p6, key_nonce());
    if p7.len() != 0 {
        None
    } else {
        match (opt_addr(fr_raw), opt_qty(gas_raw), opt_qty(gp_raw), opt_qty(val_raw), opt_bytes(
            data_raw,
        ), opt_qty(nonce_raw)) {
            (Some(from), Some(gas), Some(gas_price), Some(value), Some(data), Some(nonce)) => Some(
                TxReqModel {
                    from,
                    to: match to_raw {
                        Some(v) => Some(sp_rec(v)),
                        None => None,
                    },
                    gas,
                    gas_price,
                    value,
                    data,
                    nonce,
                },
            ),
            _ => None,
        }
    }
}

/// Parses a whole transaction request: one object and trailing whitespace.
pub open spec fn sp_dec_tx(s: Seq<u8>) -> Option<TxReqModel> {
    match sp_obj(s, 0, 8) {
        Some((ps, j)) => if sp_ws(s, j) == s.len() {
            sp_tx_of_pairs(ps)
        } else {
            None
        },
        None => None,
    }
}

// ---- Queries ----

/// The `EthCall` variant tag.
pub open spec fn key_eth_call() -> Seq<u8> {
    seq![69u8, 116u8, 104u8, 67u8, 97u8, 108u8, 108u8]
}

/// The `Balance` variant tag.
pub open spec fn key_balance() -> Seq<u8> {
    seq![66u8, 97u8, 108u8, 97u8, 110u8, 99u8, 101u8]
}

/// Parses a read query: an externally tagged union of `EthCall` carrying a
/// transaction object, or `Balance` carrying an address string.
pub open spec fn sp_dec_query(s: Seq<u8>) -> Option<QueryModel> {
    let i1 = sp_ws(s, 0);
    if !at(s, i1, 123) {
        None
    } else {
        let i2 = sp_ws(s, i1 + 1);
        match sp_string(s, i2) {
            None => None,
            Some((k, j)) => {
                let j2 = sp_ws(s, j);
                if !at(s, j2, 58) {
                    None
                } else {
                    let j3 = sp_ws(s, j2 + 1);
                    if k == key_eth_call() {
                        match sp_obj(s, j3, 8) {
                            Some((ps, j4)) => match sp_tx_of_pairs(ps) {
                                Some(t) => {
                                    let j5 = sp_ws(s, j4);
                                    if at(s, j5, 125) && sp_ws(s, j5 + 1) == s.len() {
                                        Some(QueryModel::EthCall(t))
                                    } else {
                                        None
                                    }
                                },
                                None => None,
                            },
                            None => None,
                        }
                    } else if k == key_balance() {
                        match sp_string(s, j3) {
                            Some((v, j4)) => match sp_addr(v) {
                                Some(a) => {
                                    let j5 = sp_ws(s, j4);
                                    if at(s, j5, 125) && sp_ws(s, j5 + 1) == s.len() {
                                        Some(QueryModel::Balance(a))
                                    } else {
                                        None
                                    }
                                },
                                None => None,
                            },
                            None => None,
                        }
                    } else {
                        None
                    }
                }
            },
        }
    }
}

// ---- Encoding ----

/// A JSON string literal around clean content.
pub open spec fn enc_str(c: Seq<u8>) -> Seq<u8> {
    seq![34u8] + c + seq![34u8]
}

/// One `"key":"value"` member.
pub open spec fn enc_pair(k: Seq<u8>, v: Seq<u8>) -> Seq<u8> {
    enc_str(k) + seq![58u8] + enc_str(v)
}

/// Members joined by commas.
pub open spec fn enc_members(ps: Seq<(Seq<u8>, Seq<u8>)>) -> Seq<u8>
    decreases ps.len(),
{
    if ps.len() == 0 {
        Seq::empty()
    } else if ps.len() == 1 {
        enc_pair(ps[0].0, ps[0].1)
    } else {
        enc_pair(ps[0].0, ps[0].1) + seq![44u8] + enc_members(ps.drop_first())
    }
}

/// A compact object.
pub open spec fn enc_obj(ps: Seq<(Seq<u8>, Seq<u8>)>) -> Seq<u8> {
    seq![123u8] + enc_members(ps) + seq![125u8]
}

/// `0x`-prefixed full-width hex of an address.
pub open spec fn addr_str(a: Seq<u8>) -> Seq<u8> {
    seq![48u8, 120u8] + bytes_to_hex(a)
}

/// `0x`-prefixed minimal hex of a 32-byte quantity.
pub open spec fn qty_str(q: Seq<u8>) -> Seq<u8> {
    seq![48u8, 120u8] + qty_to_hex(q)
}

/// `0x`-prefixed full-width hex of a byte string.
pub open spec fn bytes_str(d: Seq<u8>) -> Seq<u8> {
    seq![48u8, 120u8] + bytes_to_hex(d)
}

/// A recipient as it stands in a string: hex for an address, the raw name
/// otherwise.
pub open spec fn rec_str(r: RecModel) -> Seq<u8> {
    match r {
        RecModel::Addr(a) => addr_str(a),
        RecModel::Name(n) => n,
    }
}

/// The one member an optional field encodes to: nothing when absent.
pub open spec fn seg(key: Seq<u8>, o: Option<Seq<u8>>) -> Seq<(Seq<u8>, Seq<u8>)> {
    match o {
        Some(v) => seq![(key, v)],
        None => Seq::empty(),
    }
}

/// The rendered `from` field.
pub open spec fn raw_from(t: TxReqModel) -> Option<Seq<u8>> {
    match t.from {
        Some(a) => Some(addr_str(a)),
        None => None,
    }
}

/// The rendered `to` field.
pub open spec fn raw_to(t: TxReqModel) -> Option<Seq<u8>> {
    match t.to {
        Some(r) => Some(rec_str(r)),
        None => None,
    }
}

/// The rendered `gas` field.
pub open spec fn raw_gas(t: TxReqModel) -> Option<Seq<u8>> {
    match t.gas {
        Some(q) => Some(qty_str(q)),
        None => None,
    }
}

/// The rendered `gasPrice` field.
pub open spec fn raw_gas_price(t: TxReqModel) -> Option<Seq<u8>> {
    match t.gas_price {
        Some(q) => Some(qty_str(q)),
        None => None,
    }
}

/// The rendered `value` field.
pub open spec fn raw_value(t: TxReqModel) -> Option<Seq<u8>> {
    match t.value {
        Some(q) => Some(qty_str(q)),
        None => None,
    }
}

/// The rendered `data` field.
pub open spec fn raw_data(t: TxReqModel) -> Option<Seq<u8>> {
    match t.data {
        Some(d) => Some(bytes_str(d)),
        None => None,
    }
}

/// The rendered `nonce` field.
pub open spec fn raw_nonce(t: TxReqModel) -> Option<Seq<u8>> {
    match t.nonce {
        Some(q) => Some(qty_str(q)),
        None => None,
    }
}

/// The members from `nonce` on.
pub open spec fn sfx7(t: TxReqModel) -> Seq<(Seq<u8>, Seq<u8>)> {
    seg(key_nonce(), raw_nonce(t))
}

/// The members from `data` on.
pub open spec fn sfx6(t: TxReqModel) -> Seq<(Seq<u8>, Seq<u8>)> {
    seg(key_data(), raw_data(t)) + sfx7(t)
}

/// The members from `value` on.
pub open spec fn sfx5(t: TxReqModel) -> Seq<(Seq<u8>, Seq<u8>)> {
    seg(key_value(), raw_value(t)) + sfx6(t)
}

/// The members from `gasPrice` on.
pub open spec fn sfx4(t: TxReqModel) -> Seq<(Seq<u8>, Seq<u8>)> {
    seg(key_gas_price(), raw_gas_price(t)) + sfx5(t)
}

/// The members from `gas` on.
pub open spec fn sfx3(t: TxReqModel) -> Seq<(Seq<u8>, Seq<u8>)> {
    seg(key_gas(), raw_gas(t)) + sfx4(t)
}

/// The members from `to` on.
pub open spec fn sfx2(t: TxReqModel) -> Seq<(Seq<u8>, Seq<u8>)> {
    seg(key_to(), raw_to(t)) + sfx3(t)
}

/// The members a request encodes to, in canonical order, absent fields
/// skipped.
pub open spec fn tx_pairs(t: TxReqModel) -> Seq<(Seq<u8>, Seq<u8>)> {
    seg(key_from(), raw_from(t)) + sfx2(t)
}

/// The canonical encoding of a transaction request.
pub open spec fn enc_tx_spec(t: TxReqModel) -> Seq<u8> {
    enc_obj(tx_pairs(t))
}

// ---- The decoder undoes the encoder ----

/// Whitespace skipping stops at once on a non-whitespace byte.
pub proof fn lemma_ws_stop(s: Seq<u8>, i: int)
    requires
        !(0 <= i < s.len() && is_ws(s[i])),
    ensures
        sp_ws(s, i) == i,
{
}

/// Parsing a string body over encoded clean content finds exactly that
/// content.
pub proof fn lemma_str_body_enc(s: Seq<u8>, i: int, c: Seq<u8>, rest: Seq<u8>)
    requires
        clean_str(c),
        0 <= i <= s.len(),
        s.skip(i) == c + seq![34u8] + rest,
    ensures
        sp_str_body(s, i) == Some((c, i + c.len() + 1)),
    decreases c.len(),
{
    assert(s.skip(i).len() == c.len() + 1 + rest.len());
    if c.len() == 0 {
        assert(s[i] == s.skip(i)[0]);
        assert(s[i] == 34);
        assert(sp_str_body(s, i) == Some((Seq::<u8>::empty(), i + 1)));
    } else {
        assert(s[i] == s.skip(i)[0]);
        assert(s.skip(i)[0] == c[0]);
        assert(c[0] != 34 && c[0] != 92 && c[0] >= 32);
        assert(s.skip(i + 1) =~= s.skip(i).drop_first());
        assert(s.skip(i).drop_first() =~= c.drop_first() + seq![34u8] + rest);
        assert(clean_str(c.drop_first()));
        lemma_str_body_enc(s, i + 1, c.drop_first(), rest);
        assert(seq![s[i]] + c.drop_first() =~= c);
    }
}

/// Parsing a string literal over an encoded clean string finds it.
pub proof fn lemma_string_enc(s: Seq<u8>, i: int, c: Seq<u8>, rest: Seq<u8>)
    requires
        clean_str(c),
        0 <= i <= s.len(),
        s.skip(i) == enc_str(c) + rest,
    ensures
        sp_string(s, i) == Some((c, i + c.len() + 2)),
{
    assert(s.skip(i).len() == c.len() + 2 + rest.len());
    assert(s[i] == s.skip(i)[0]);
    assert(s[i] == 34);
    assert(s.skip(i + 1) =~= s.skip(i).drop_first());
    assert(s.skip(i).drop_first() =~= c + seq![34u8] + rest);
    lemma_str_body_enc(s, i + 1, c, rest);
}

/// Parsing a member over an encoded clean pair finds it.
pub proof fn lemma_pair_enc(s: Seq<u8>, i: int, k: Seq<u8>, v: Seq<u8>, rest: Seq<u8>)
    requires
        clean_str(k),
        clean_str(v),
        0 <= i <= s.len(),
        s.skip(i) == enc_pair(k, v) + rest,
    ensures
        sp_pair(s, i) == Some(((k, v), i + k.len() + v.len() + 5)),
{
    assert(s.skip(i).len() == k.len() + v.len() + 5 + rest.len());
    assert(s.skip(i) =~= enc_str(k) + (seq![58u8] + enc_str(v) + rest));
    lemma_string_enc(s, i, k, seq![58u8] + enc_str(v) + rest);
    let j = i + k.len() + 2;
    assert(s[j] == s.skip(i)[j - i]);
    assert(s[j] == 58);
    lemma_ws_stop(s, j);
    assert(s.skip(j + 1) =~= s.skip(i).skip(k.len() + 3int));
    assert(s.skip(j + 1) =~= enc_str(v) + rest);
    assert(s[j + 1] == s.skip(j + 1)[0]);
    assert(s[j + 1] == 34);
    lemma_ws_stop(s, j + 1);
    lemma_string_enc(s, j + 1, v, rest);
}

/// Whether every key and value of `ps` can stand inside a string literal.
pub open spec fn clean_pairs(ps: Seq<(Seq<u8>, Seq<u8>)>) -> bool {
    forall|j: int| 0 <= j < ps.len() ==> clean_str(#[trigger] ps[j].0) && clean_str(ps[j].1)
}

/// Parsing members over encoded clean pairs followed by the closing brace
/// finds exactly those pairs.
pub proof fn lemma_members_enc(
    s: Seq<u8>,
    i: int,
    ps: Seq<(Seq<u8>, Seq<u8>)>,
    rest: Seq<u8>,
    quota: nat,
)
    requires
        clean_pairs(ps),
        ps.len() >= 1,
        quota >= ps.len(),
        0 <= i <= s.len(),
        s.skip(i) == enc_members(ps) + seq![125u8] + rest,
    ensures
        sp_members(s, i, quota) == Some((ps, i + enc_members(ps).len() + 1)),
    decreases ps.len(),
{
    let k = ps[0].0;
    let v = ps[0].1;
    assert(clean_str(k) && clean_str(v));
    if ps.len() == 1 {
        assert(enc_members(ps) == enc_pair(k, v));
        assert(s.skip(i) =~= enc_pair(k, v) + (seq![125u8] + rest));
        lemma_pair_enc(s, i, k, v, seq![125u8] + rest);
        let j = i + k.len() + v.len() + 5;
        assert(s[j] == s.skip(i)[j - i]);
        assert(s[j] == 125);
        lemma_ws_stop(s, j);
        assert(seq![(k, v)] =~= ps);
    } else {
        let tail = ps.drop_first();
        assert(enc_members(ps) == enc_pair(k, v) + seq![44u8] + enc_members(tail));
        assert(s.skip(i) =~= enc_pair(k, v) + (seq![44u8] + enc_members(tail) + seq![125u8]
            + rest));
        lemma_pair_enc(s, i, k, v, seq![44u8] + enc_members(tail) + seq![125u8] + rest);
        let j = i + k.len() + v.len() + 5;
        assert(s[j] == s.skip(i)[j - i]);
        assert(s[j] == 44);
        lemma_ws_stop(s, j);
        assert(s.skip(j + 1) =~= s.skip(i).skip(j + 1 - i));
        assert(s.skip(j + 1) =~= enc_members(tail) + seq![125u8] + rest);
        assert(enc_members(tail).len() > 0);
        assert(s[j + 1] == s.skip(j + 1)[0]);
        assert(enc_members(tail)[0] == 34);
        lemma_ws_stop(s, j + 1);
        assert(clean_pairs(tail));
        lemma_members_enc(s, j + 1, tail, rest, (quota - 1) as nat);
        assert(seq![(k, v)] + tail =~= ps);
        assert(sp_members(s, i, quota) == Some((ps, i + enc_members(ps).len() + 1)));
    }
}

/// Cleanliness of members distributes over concatenation.
pub proof fn lemma_clean_pairs_concat(a: Seq<(Seq<u8>, Seq<u8>)>, b: Seq<(Seq<u8>, Seq<u8>)>)
    requires
        clean_pairs(a),
        clean_pairs(b),
    ensures
        clean_pairs(a + b),
{
    assert forall|j: int| 0 <= j < (a + b).len() implies clean_str(#[trigger] (a + b)[j].0)
        && clean_str((a + b)[j].1) by {
        if j < a.len() {
            assert((a + b)[j] == a[j]);
            assert(clean_str(a[j].0) && clean_str(a[j].1));
        } else {
            assert((a + b)[j] == b[j - a.len()]);
            assert(clean_str(b[j - a.len()].0) && clean_str(b[j - a.len()].1));
        }
    }
}

/// A clean singleton member.
proof fn lemma_seg_clean(key: Seq<u8>, o: Option<Seq<u8>>)
    requires
        clean_str(key),
        o is Some ==> clean_str(o.unwrap()),
    ensures
        clean_pairs(seg(key, o)),
{
}

/// Every member key of a request is clean, and so is every encoded value of
/// a well-formed one.
pub proof fn lemma_tx_pairs_clean(t: TxReqModel)
    requires
        t.wf(),
    ensures
        clean_pairs(tx_pairs(t)),
{
    if t.from is Some {
        lemma_hex_all_digits(t.from.unwrap());
    }
    match t.to {
        Some(RecModel::Addr(a)) => {
            lemma_hex_all_digits(a);
            assert(clean_str(rec_str(t.to.unwrap())));
        },
        Some(RecModel::Name(n)) => {
            assert(clean_str(rec_str(t.to.unwrap())));
        },
        None => {},
    }
    if t.gas is Some {
        lemma_qty_hex_all_digits(t.gas.unwrap());
    }
    if t.gas_price is Some {
        lemma_qty_hex_all_digits(t.gas_price.unwrap());
    }
    if t.value is Some {
        lemma_qty_hex_all_digits(t.value.unwrap());
    }
    if t.data is Some {
        lemma_hex_all_digits(t.data.unwrap());
    }
    if t.nonce is Some {
        lemma_qty_hex_all_digits(t.nonce.unwrap());
    }
    lemma_seg_clean(key_from(), raw_from(t));
    lemma_seg_clean(key_to(), raw_to(t));
    lemma_seg_clean(key_gas(), raw_gas(t));
    lemma_seg_clean(key_gas_price(), raw_gas_price(t));
    lemma_seg_clean(key_value(), raw_value(t));
    lemma_seg_clean(key_data(), raw_data(t));
    lemma_seg_clean(key_nonce(), raw_nonce(t));
    lemma_clean_pairs_concat(seg(key_data(), raw_data(t)), sfx7(t));
    lemma_clean_pairs_concat(seg(key_value(), raw_value(t)), sfx6(t));
    lemma_clean_pairs_concat(seg(key_gas_price(), raw_gas_price(t)), sfx5(t));
    lemma_clean_pairs_concat(seg(key_gas(), raw_gas(t)), sfx4(t));
    lemma_clean_pairs_concat(seg(key_to(), raw_to(t)), sfx3(t));
    lemma_clean_pairs_concat(seg(key_from(), raw_from(t)), sfx2(t));
}

// ---- Encoding of results and responses ----

/// The keys and tags of the result and response objects.
pub open spec fn key_transaction() -> Seq<u8> {
    seq![116u8, 114u8, 97u8, 110u8, 115u8, 97u8, 99u8, 116u8, 105u8, 111u8, 110u8]
}

pub open spec fn key_exit() -> Seq<u8> {
    seq![101u8, 120u8, 105u8, 116u8]
}

pub open spec fn key_out() -> Seq<u8> {
    seq![111u8, 117u8, 116u8]
}

pub open spec fn key_logs() -> Seq<u8> {
    seq![108u8, 111u8, 103u8, 115u8]
}

pub open spec fn key_address() -> Seq<u8> {
    seq![97u8, 100u8, 100u8, 114u8, 101u8, 115u8, 115u8]
}

pub open spec fn key_topics() -> Seq<u8> {
    seq![116u8, 111u8, 112u8, 105u8, 99u8, 115u8]
}

pub open spec fn key_call() -> Seq<u8> {
    seq![67u8, 97u8, 108u8, 108u8]
}

pub open spec fn key_create() -> Seq<u8> {
    seq![67u8, 114u8, 101u8, 97u8, 116u8, 101u8]
}

pub open spec fn key_tx() -> Seq<u8> {
    seq![84u8, 120u8]
}

/// The JSON `null` literal.
pub open spec fn lit_null() -> Seq<u8> {
    seq![110u8, 117u8, 108u8, 108u8]
}

/// The name of an exit code, as in its debug rendering.
pub open spec fn exit_str(e: Exit) -> Seq<u8> {
    match e {
        Exit::Stop => seq![83u8, 116u8, 111u8, 112u8],
        Exit::Return => seq![82u8, 101u8, 116u8, 117u8, 114u8, 110u8],
        Exit::SelfDestruct => seq![
            83u8,
            101u8,
            108u8,
            102u8,
            68u8,
            101u8,
            115u8,
            116u8,
            114u8,
            117u8,
            99u8,
            116u8,
        ],
        Exit::Revert => seq![82u8, 101u8, 118u8, 101u8, 114u8, 116u8],
        Exit::Halt => seq![72u8, 97u8, 108u8, 116u8],
        Exit::Invalid => seq![73u8, 110u8, 118u8, 97u8, 108u8, 105u8, 100u8],
    }
}

/// Comma-joined rendered items.
pub open spec fn join_comma(xs: Seq<Seq<u8>>) -> Seq<u8>
    decreases xs.len(),
{
    if xs.len() == 0 {
        Seq::empty()
    } else if xs.len() == 1 {
        xs[0]
    } else {
        xs[0] + seq![44u8] + join_comma(xs.drop_first())
    }
}

/// A JSON array of rendered items.
pub open spec fn enc_list(xs: Seq<Seq<u8>>) -> Seq<u8> {
    seq![91u8] + join_comma(xs) + seq![93u8]
}

/// The output of a transaction: the call's return data, or the created
/// code and address.
pub open spec fn enc_out_spec(o: TxOutputModel) -> Seq<u8> {
    match o {
        TxOutputModel::Call(d) => seq![123u8] + enc_str(key_call()) + seq![58u8] + enc_str(
            bytes_str(d),
        ) + seq![125u8],
        TxOutputModel::Create(d, a) => seq![123u8] + enc_str(key_create()) + seq![58u8] + seq![91u8]
            + enc_str(bytes_str(d)) + seq![44u8] + (match a {
            Some(a) => enc_str(addr_str(a)),
            None => lit_null(),
        }) + seq![93u8] + seq![125u8],
    }
}

/// One log record.
pub open spec fn enc_log_spec(l: LogModel) -> Seq<u8> {
    seq![123u8] + enc_str(key_address()) + seq![58u8] + enc_str(addr_str(l.address)) + seq![44u8]
        + enc_str(key_topics()) + seq![58u8] + enc_list(
        Seq::new(l.topics.len(), |i: int| enc_str(bytes_str(l.topics[i]))),
    ) + seq![44u8] + enc_str(key_data()) + seq![58u8] + enc_str(bytes_str(l.data)) + seq![125u8]
}

/// The record returned for an executed transaction.
pub open spec fn enc_result_spec(r: TxResultModel) -> Seq<u8> {
    seq![123u8] + enc_str(key_transaction()) + seq![58u8] + enc_tx_spec(r.transaction) + seq![44u8]
        + enc_str(key_exit()) + seq![58u8] + enc_str(exit_str(r.exit)) + seq![44u8] + enc_str(
        key_out(),
    ) + seq![58u8] + enc_out_spec(r.out) + seq![44u8] + enc_str(key_gas()) + seq![58u8]
        + dec_digits(r.gas) + seq![44u8] + enc_str(key_logs()) + seq![58u8] + enc_list(
        Seq::new(r.logs.len(), |i: int| enc_log_spec(r.logs[i])),
    ) + seq![125u8]
}

/// The encoding of a read query.
pub open spec fn enc_query_spec(q: QueryModel) -> Seq<u8> {
    match q {
        QueryModel::EthCall(t) => seq![123u8] + enc_str(key_eth_call()) + seq![58u8] + enc_tx_spec(
            t,
        ) + seq![125u8],
        QueryModel::Balance(a) => seq![123u8] + enc_str(key_balance()) + seq![58u8] + enc_str(
            addr_str(a),
        ) + seq![125u8],
    }
}

/// The encoding of a query answer.
pub open spec fn enc_query_response_spec(qr: QueryResponseModel) -> Seq<u8> {
    match qr {
        QueryResponseModel::Tx(r) => seq![123u8] + enc_str(key_tx()) + seq![58u8] + enc_result_spec(
            r,
        ) + seq![125u8],
        QueryResponseModel::Balance(b) => seq![123u8] + enc_str(key_balance()) + seq![58u8]
            + enc_str(qty_str(b)) + seq![125u8],
    }
}

/// Appending one member to the rendering appends a comma and the member.
pub proof fn lemma_enc_members_snoc(ps: Seq<(Seq<u8>, Seq<u8>)>, p: (Seq<u8>, Seq<u8>))
    ensures
        enc_members(ps.push(p)) == if ps.len() == 0 {
            enc_pair(p.0, p.1)
        } else {
            enc_members(ps) + seq![44u8] + enc_pair(p.0, p.1)
        },
    decreases ps.len(),
{
    if ps.len() == 0 {
        assert(ps.push(p)[0] == p);
    } else {
        lemma_enc_members_snoc(ps.drop_first(), p);
        assert(ps.push(p).drop_first() =~= ps.drop_first().push(p));
        assert(ps.push(p)[0] == ps[0]);
    }
}

/// Appending one item to a joined list appends a comma and the item.
pub proof fn lemma_join_snoc(xs: Seq<Seq<u8>>, x: Seq<u8>)
    ensures
        join_comma(xs.push(x)) == if xs.len() == 0 {
            x
        } else {
            join_comma(xs) + seq![44u8] + x
        },
    decreases xs.len(),
{
    if xs.len() == 0 {
        assert(xs.push(x)[0] == x);
    } else {
        lemma_join_snoc(xs.drop_first(), x);
        assert(xs.push(x).drop_first() =~= xs.drop_first().push(x));
        assert(xs.push(x)[0] == xs[0]);
    }
}

/// Concatenation of member lists is associative.
proof fn lemma_assoc(
    a: Seq<(Seq<u8>, Seq<u8>)>,
    b: Seq<(Seq<u8>, Seq<u8>)>,
    c: Seq<(Seq<u8>, Seq<u8>)>,
)
    ensures
        a + (b + c) == (a + b) + c,
{
    assert(a + (b + c) =~= (a + b) + c);
}

/// The members of a request, flattened left to right.
pub proof fn lemma_tx_pairs_flat(t: TxReqModel)
    ensures
        tx_pairs(t) == seg(key_from(), raw_from(t)) + seg(key_to(), raw_to(t)) + seg(
            key_gas(),
            raw_gas(t),
        ) + seg(key_gas_price(), raw_gas_price(t)) + seg(key_value(), raw_value(t)) + seg(
            key_data(),
            raw_data(t),
        ) + seg(key_nonce(), raw_nonce(t)),
{
    let s1 = seg(key_from(), raw_from(t));
    let s2 = seg(key_to(), raw_to(t));
    let s3 = seg(key_gas(), raw_gas(t));
    let s4 = seg(key_gas_price(), raw_gas_price(t));
    let s5 = seg(key_value(), raw_value(t));
    let s6 = seg(key_data(), raw_data(t));
    let s7 = seg(key_nonce(), raw_nonce(t));
    lemma_assoc(s1, s2, sfx3(t));
    lemma_assoc(s1 + s2, s3, sfx4(t));
    lemma_assoc(s1 + s2 + s3, s4, sfx5(t));
    lemma_assoc(s1 + s2 + s3 + s4, s5, sfx6(t));
    lemma_assoc(s1 + s2 + s3 + s4 + s5, s6, sfx7(t));
}

/// Decoding undoes the address rendering.
pub proof fn lemma_addr_decode(a: Seq<u8>)
    requires
        a.len() == 20,
    ensures
        sp_addr(addr_str(a)) == Some(a),
        sp_rec(addr_str(a)) == RecModel::Addr(a),
{
    crate::hexcode::lemma_hex_round_trip(a);
    assert(addr_str(a).len() == 42);
    assert(addr_str(a)[0] == 48 && addr_str(a)[1] == 120);
    assert(addr_str(a).skip(2) =~= bytes_to_hex(a));
}

/// Decoding undoes the quantity rendering.
pub proof fn lemma_qty_decode(q: Seq<u8>)
    requires
        q.len() == 32,
    ensures
        sp_qty(qty_str(q)) == Some(q),
{
    crate::hexcode::lemma_qty_round_trip(q);
    let t = crate::hexcode::strip_zeros(q);
    if t.len() > 0 {
        crate::hexcode::lemma_hex_round_trip(t);
        crate::hexcode::lemma_hex_round_trip(t.drop_first());
    }
    assert(qty_to_hex(q).len() >= 1);
    assert(qty_str(q)[0] == 48 && qty_str(q)[1] == 120);
    assert(qty_str(q).skip(2) =~= qty_to_hex(q));
}

/// Decoding undoes the byte-string rendering.
pub proof fn lemma_bytes_decode(d: Seq<u8>)
    ensures
        sp_bytes(bytes_str(d)) == Some(d),
{
    crate::hexcode::lemma_hex_round_trip(d);
    assert(bytes_str(d).len() >= 2);
    assert(bytes_str(d)[0] == 48 && bytes_str(d)[1] == 120);
    assert(bytes_str(d).skip(2) =~= bytes_to_hex(d));
}

/// No member of `ps` carries `key`.
pub open spec fn no_key(ps: Seq<(Seq<u8>, Seq<u8>)>, key: Seq<u8>) -> bool {
    forall|j: int| 0 <= j < ps.len() ==> (#[trigger] ps[j]).0 != key
}

/// Key absence distributes over concatenation.
pub proof fn lemma_no_key_concat(a: Seq<(Seq<u8>, Seq<u8>)>, b: Seq<(Seq<u8>, Seq<u8>)>, key: Seq<u8>)
    requires
        no_key(a, key),
        no_key(b, key),
    ensures
        no_key(a + b, key),
{
    assert forall|j: int| 0 <= j < (a + b).len() implies (#[trigger] (a + b)[j]).0 != key by {
        if j < a.len() {
            assert((a + b)[j] == a[j]);
        } else {
            assert((a + b)[j] == b[j - a.len()]);
        }
    }
}

/// Taking a key that heads the members peels it off.
pub proof fn lemma_take_hit(
    ps: Seq<(Seq<u8>, Seq<u8>)>,
    key: Seq<u8>,
    v: Seq<u8>,
    rest: Seq<(Seq<u8>, Seq<u8>)>,
)
    requires
        ps == seq![(key, v)] + rest,
    ensures
        take_field(ps, key) == (Some(v), rest),
{
    assert(ps[0] == (key, v));
    assert(ps.drop_first() =~= rest);
}

/// Taking an absent key changes nothing.
pub proof fn lemma_take_miss(ps: Seq<(Seq<u8>, Seq<u8>)>, key: Seq<u8>)
    requires
        no_key(ps, key),
    ensures
        take_field(ps, key) == (None::<Seq<u8>>, ps),
{
    if ps.len() > 0 {
        assert(ps[0].0 != key);
    }
}

/// The seven member keys are pairwise distinct.
pub proof fn lemma_keys_distinct()
    ensures
        key_from() != key_to(),
        key_from() != key_gas(),
        key_from() != key_gas_price(),
        key_from() != key_value(),
        key_from() != key_data(),
        key_from() != key_nonce(),
        key_to() != key_gas(),
        key_to() != key_gas_price(),
        key_to() != key_value(),
        key_to() != key_data(),
        key_to() != key_nonce(),
        key_gas() != key_gas_price(),
        key_gas() != key_value(),
        key_gas() != key_data(),
        key_gas() != key_nonce(),
        key_gas_price() != key_value(),
        key_gas_price() != key_data(),
        key_gas_price() != key_nonce(),
        key_value() != key_data(),
        key_value() != key_nonce(),
        key_data() != key_nonce(),
{
    assert(key_from().len() == 4);
    assert(key_to().len() == 2);
    assert(key_gas().len() == 3);
    assert(key_gas_price().len() == 8);
    assert(key_value().len() == 5);
    assert(key_data().len() == 4);
    assert(key_nonce().len() == 5);
    assert(key_from()[0] == 102 && key_data()[0] == 100);
    assert(key_value()[0] == 118 && key_nonce()[0] == 110);
}

/// No later member carries the `nonce` key's predecessors' keys.
proof fn lemma_sfx7_no(t: TxReqModel, k: Seq<u8>)
    requires
        k != key_nonce(),
    ensures
        no_key(sfx7(t), k),
{
}

/// Key absence over the members from `data` on.
proof fn lemma_sfx6_no(t: TxReqModel, k: Seq<u8>)
    requires
        k != key_data(),
        k != key_nonce(),
    ensures
        no_key(sfx6(t), k),
{
    lemma_sfx7_no(t, k);
    lemma_no_key_concat(seg(key_data(), raw_data(t)), sfx7(t), k);
}

/// Key absence over the members from `value` on.
proof fn lemma_sfx5_no(t: TxReqModel, k: Seq<u8>)
    requires
        k != key_value(),
        k != key_data(),
        k != key_nonce(),
    ensures
        no_key(sfx5(t), k),
{
    lemma_sfx6_no(t, k);
    lemma_no_key_concat(seg(key_value(), raw_value(t)), sfx6(t), k);
}

/// Key absence over the members from `gasPrice` on.
proof fn lemma_sfx4_no(t: TxReqModel, k: Seq<u8>)
    requires
        k != key_gas_price(),
        k != key_value(),
        k != key_data(),
        k != key_nonce(),
    ensures
        no_key(sfx4(t), k),
{
    lemma_sfx5_no(t, k);
    lemma_no_key_concat(seg(key_gas_price(), raw_gas_price(t)), sfx5(t), k);
}

/// Key absence over the members from `gas` on.
proof fn lemma_sfx3_no(t: TxReqModel, k: Seq<u8>)
    requires
        k != key_gas(),
        k != key_gas_price(),
        k != key_value(),
        k != key_data(),
        k != key_nonce(),
    ensures
        no_key(sfx3(t), k),
{
    lemma_sfx4_no(t, k);
    lemma_no_key_concat(seg(key_gas(), raw_gas(t)), sfx4(t), k);
}

/// Key absence over the members from `to` on.
proof fn lemma_sfx2_no(t: TxReqModel, k: Seq<u8>)
    requires
        k != key_to(),
        k != key_gas(),
        k != key_gas_price(),
        k != key_value(),
        k != key_data(),
        k != key_nonce(),
    ensures
        no_key(sfx2(t), k),
{
    lemma_sfx3_no(t, k);
    lemma_no_key_concat(seg(key_to(), raw_to(t)), sfx3(t), k);
}

/// Taking `key` off a segment-plus-rest peels exactly the segment.
proof fn lemma_take_seg(
    key: Seq<u8>,
    o: Option<Seq<u8>>,
    rest: Seq<(Seq<u8>, Seq<u8>)>,
)
    requires
        no_key(rest, key),
    ensures
        take_field(seg(key, o) + rest, key) == (o, rest),
{
    match o {
        Some(v) => {
            assert(seg(key, o) + rest =~= seq![(key, v)] + rest);
            lemma_take_hit(seg(key, o) + rest, key, v, rest);
        },
        None => {
            assert(seg(key, o) + rest =~= rest);
            lemma_take_miss(seg(key, o) + rest, key);
        },
    }
}

/// The seven takes, in canonical order, peel the encoded members apart.
proof fn lemma_tx_takes(t: TxReqModel)
    ensures
        take_field(tx_pairs(t), key_from()) == (raw_from(t), sfx2(t)),
        take_field(sfx2(t), key_to()) == (raw_to(t), sfx3(t)),
        take_field(sfx3(t), key_gas()) == (raw_gas(t), sfx4(t)),
        take_field(sfx4(t), key_gas_price()) == (raw_gas_price(t), sfx5(t)),
        take_field(sfx5(t), key_value()) == (raw_value(t), sfx6(t)),
        take_field(sfx6(t), key_data()) == (raw_data(t), sfx7(t)),
        take_field(sfx7(t), key_nonce()) == (raw_nonce(t), Seq::<(Seq<u8>, Seq<u8>)>::empty()),
{
    lemma_keys_distinct();
    lemma_sfx2_no(t, key_from());
    lemma_take_seg(key_from(), raw_from(t), sfx2(t));
    lemma_sfx3_no(t, key_to());
    lemma_take_seg(key_to(), raw_to(t), sfx3(t));
    lemma_sfx4_no(t, key_gas());
    lemma_take_seg(key_gas(), raw_gas(t), sfx4(t));
    lemma_sfx5_no(t, key_gas_price());
    lemma_take_seg(key_gas_price(), raw_gas_price(t), sfx5(t));
    lemma_sfx6_no(t, key_value());
    lemma_take_seg(key_value(), raw_value(t), sfx6(t));
    lemma_sfx7_no(t, key_data());
    lemma_take_seg(key_data(), raw_data(t), sfx7(t));
    lemma_take_seg(key_nonce(), raw_nonce(t), Seq::empty());
    assert(sfx7(t) =~= seg(key_nonce(), raw_nonce(t)) + Seq::empty());
}

/// Each rendered field decodes back to the field.
proof fn lemma_tx_decodes(t: TxReqModel)
    requires
        t.wf(),
        !(t.to matches Some(RecModel::Name(_))),
    ensures
        opt_addr(raw_from(t)) == Some(t.from),
        raw_to(t) is Some <==> t.to is Some,
        raw_to(t) is Some ==> Some(sp_rec(raw_to(t).unwrap())) == t.to,
        opt_qty(raw_gas(t)) == Some(t.gas),
        opt_qty(raw_gas_price(t)) == Some(t.gas_price),
        opt_qty(raw_value(t)) == Some(t.value),
        opt_bytes(raw_data(t)) == Some(t.data),
        opt_qty(raw_nonce(t)) == Some(t.nonce),
{
    if t.from is Some {
        lemma_addr_decode(t.from.unwrap());
    }
    match t.to {
        Some(RecModel::Addr(a)) => {
            lemma_addr_decode(a);
            assert(rec_str(t.to.unwrap()) == addr_str(a));
        },
        _ => {},
    }
    if t.gas is Some {
        lemma_qty_decode(t.gas.unwrap());
    }
    if t.gas_price is Some {
        lemma_qty_decode(t.gas_price.unwrap());
    }
    if t.value is Some {
        lemma_qty_decode(t.value.unwrap());
    }
    if t.data is Some {
        lemma_bytes_decode(t.data.unwrap());
    }
    if t.nonce is Some {
        lemma_qty_decode(t.nonce.unwrap());
    }
}

/// Assembling the members a well-formed request encodes to yields the
/// request back, provided its recipient is not a symbolic name (a name that
/// happens to look like an address would decode as one).
pub proof fn lemma_tx_assemble(t: TxReqModel)
    requires
        t.wf(),
        !(t.to matches Some(RecModel::Name(_))),
    ensures
        sp_tx_of_pairs(tx_pairs(t)) == Some(t),
{
    lemma_tx_takes(t);
    lemma_tx_decodes(t);
}

/// Every request fits in the member quota.
pub proof fn lemma_tx_pairs_len(t: TxReqModel)
    ensures
        tx_pairs(t).len() <= 7,
{
}

/// The round-trip law: decoding the canonical encoding of any well-formed
/// transaction request whose recipient is an address (or absent) yields the
/// request back.
pub proof fn lemma_tx_round_trip(t: TxReqModel)
    requires
        t.wf(),
        !(t.to matches Some(RecModel::Name(_))),
    ensures
        sp_dec_tx(enc_tx_spec(t)) == Some(t),
{
    let ps = tx_pairs(t);
    lemma_tx_pairs_clean(t);
    lemma_tx_pairs_len(t);
    let s = enc_tx_spec(t);
    assert(s == seq![123u8] + enc_members(ps) + seq![125u8]);
    assert(s[0] == 123);
    lemma_ws_stop(s, 0);
    if ps.len() == 0 {
        assert(s.len() == 2);
        assert(s[1] == 125);
        lemma_ws_stop(s, 1);
        assert(sp_obj(s, 0, 8) == Some((Seq::<(Seq<u8>, Seq<u8>)>::empty(), 2int)));
        lemma_ws_stop(s, 2);
        // With no members every field is absent.
        assert(t.from is None && t.to is None && t.gas is None && t.gas_price is None && t.value
            is None && t.data is None && t.nonce is None) by {
            if t.from is Some || t.to is Some || t.gas is Some || t.gas_price is Some || t.value
                is Some || t.data is Some || t.nonce is Some {
                assert(ps.len() > 0);
            }
        }
        lemma_take_miss(ps, key_from());
        lemma_take_miss(ps, key_to());
        lemma_take_miss(ps, key_gas());
        lemma_take_miss(ps, key_gas_price());
        lemma_take_miss(ps, key_value());
        lemma_take_miss(ps, key_data());
        lemma_take_miss(ps, key_nonce());
        assert(sp_tx_of_pairs(ps) == Some(t));
    } else {
        assert(s.skip(1) =~= enc_members(ps) + seq![125u8] + Seq::<u8>::empty());
        assert(enc_members(ps)[0] == 34);
        assert(s[1] == s.skip(1)[0]);
        assert(s[1] == 34);
        lemma_ws_stop(s, 1);
        lemma_members_enc(s, 1, ps, Seq::empty(), 8);
        assert(sp_obj(s, 0, 8) == Some((ps, s.len() as int)));
        lemma_ws_stop(s, s.len() as int);
        lemma_tx_assemble(t);
    }
}

} // verus!
