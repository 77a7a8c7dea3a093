//! Executable side of the JSON codec: parsers and decoders proved equal to
//! the specification parser in `json`.

use vstd::prelude::*;

use crate::hexcode::{hex_to_bytes, hex_val, is_hex, lemma_hex_to_bytes_len};
use crate::json::{
    at, is_ws, key_data, key_from, key_gas, key_gas_price, key_nonce, key_to, key_value, sp_addr,
    sp_bytes, sp_dec_tx, sp_members, sp_obj, sp_pair, sp_qty, sp_rec, sp_str_body, sp_string,
    sp_tx_of_pairs, sp_ws, take_field,
};
use crate::tx::{
    clean_str, Exit, LogEntry, Recipient, TransactionRequest, TransactionResult, TxOutput,
};
use crate::types::{Address, U256};

verus! {

/// Exec test for JSON whitespace.
fn is_ws_b(c: u8) -> (r: bool)
    ensures
        r == is_ws(c),
{
    c == 32 || c == 9 || c == 10 || c == 13
}

/// Skips whitespace, following the specification skipper exactly.
pub fn exec_ws(s: &Vec<u8>, i: usize) -> (r: usize)
    requires
        i <= s@.len(),
    ensures
        r == sp_ws(s@, i as int),
        i <= r <= s@.len(),
{
    let mut k = i;
    while k < s.len() && is_ws_b(s[k])
        invariant
            i <= k <= s@.len(),
            sp_ws(s@, i as int) == sp_ws(s@, k as int),
        decreases s@.len() - k,
    {
        k = k + 1;
    }
    k
}

/// Every byte a parsed string holds may stand in a string literal again.
pub proof fn lemma_str_body_clean(s: Seq<u8>, i: int)
    ensures
        match sp_str_body(s, i) {
            Some((c, j)) => clean_str(c) && i < j <= s.len(),
            None => true,
        },
    decreases s.len() - i,
{
    if 0 <= i < s.len() && s[i] != 34 && s[i] != 92 && s[i] >= 32 {
        lemma_str_body_clean(s, i + 1);
    }
}

/// Shifting the string-body parser forward over clean bytes prepends them to
/// the parsed content.
proof fn lemma_str_body_shift(s: Seq<u8>, i0: int, i: int)
    requires
        0 <= i0 <= i <= s.len(),
        forall|j: int| i0 <= j < i ==> s[j] != 34 && s[j] != 92 && s[j] >= 32,
    ensures
        sp_str_body(s, i0) == match sp_str_body(s, i) {
            Some((c, j)) => Some((s.subrange(i0, i) + c, j)),
            None => None::<(Seq<u8>, int)>,
        },
    decreases i - i0,
{
    if i0 < i {
        lemma_str_body_shift(s, i0 + 1, i);
        match sp_str_body(s, i) {
            Some((c, j)) => {
                assert(seq![s[i0]] + (s.subrange(i0 + 1, i) + c) =~= s.subrange(i0, i) + c);
            },
            None => {},
        }
    } else {
        match sp_str_body(s, i) {
            Some((c, j)) => {
                assert(s.subrange(i0, i0) + c =~= c);
            },
            None => {},
        }
    }
}

/// Parses a string literal, following the specification parser exactly.
pub fn exec_string(s: &Vec<u8>, i: usize) -> (r: Option<(Vec<u8>, usize)>)
    requires
        i <= s@.len(),
    ensures
        match (r, sp_string(s@, i as int)) {
            (Some((c, j)), Some((c2, j2))) => c@ == c2 && j == j2 && i < j <= s@.len(),
            (None, None) => true,
            _ => false,
        },
{
    if !(i < s.len() && s[i] == 34) {
        return None;
    }
    let mut k = i + 1;
    let mut acc: Vec<u8> = Vec::new();
    while k < s.len() && s[k] != 34 && s[k] != 92 && s[k] >= 32
        invariant
            i + 1 <= k <= s@.len(),
            acc@ == s@.subrange(i as int + 1, k as int),
            forall|j: int| i + 1 <= j < k ==> s@[j] != 34 && s@[j] != 92 && s@[j] >= 32,
        decreases s@.len() - k,
    {
        acc.push(s[k]);
        proof {
            assert(acc@ =~= s@.subrange(i as int + 1, k as int + 1));
        }
        k = k + 1;
    }
    proof {
        lemma_str_body_shift(s@, i as int + 1, k as int);
        lemma_str_body_clean(s@, i as int + 1);
    }
    if k < s.len() && s[k] == 34 {
        proof {
            assert(sp_str_body(s@, k as int) == Some((Seq::<u8>::empty(), k + 1int)));
            assert(s@.subrange(i as int + 1, k as int) + Seq::<u8>::empty() =~= s@.subrange(
                i as int + 1,
                k as int,
            ));
        }
        Some((acc, k + 1))
    } else {
        proof {
            assert(sp_str_body(s@, k as int) is None);
        }
        None
    }
}

/// Parses one member, following the specification parser exactly.
pub fn exec_pair(s: &Vec<u8>, i: usize) -> (r: Option<((Vec<u8>, Vec<u8>), usize)>)
    requires
        i <= s@.len(),
    ensures
        match (r, sp_pair(s@, i as int)) {
            (Some(((k, v), j)), Some(((k2, v2), j2))) => k@ == k2 && v@ == v2 && j == j2 && i < j
                <= s@.len(),
            (None, None) => true,
            _ => false,
        },
{
    match exec_string(s, i) {
        None => None,
        Some((k, j)) => {
            let j2 = exec_ws(s, j);
            if !(j2 < s.len() && s[j2] == 58) {
                return None;
            }
            let j3 = exec_ws(s, j2 + 1);
            match exec_string(s, j3) {
                Some((v, j4)) => Some(((k, v), j4)),
                None => None,
            }
        },
    }
}

/// The members of a parsed object, viewed as byte strings.
pub open spec fn pairs_view(ps: Seq<(Vec<u8>, Vec<u8>)>) -> Seq<(Seq<u8>, Seq<u8>)> {
    Seq::new(ps.len(), |i: int| (ps[i].0@, ps[i].1@))
}

/// Parses members up to the closing brace, following the specification
/// parser exactly.
pub fn exec_members(s: &Vec<u8>, i: usize, quota: usize) -> (r: Option<
    (Vec<(Vec<u8>, Vec<u8>)>, usize),
>)
    requires
        i <= s@.len(),
    ensures
        match (r, sp_members(s@, i as int, quota as nat)) {
            (Some((ps, j)), Some((ps2, j2))) => pairs_view(ps@) == ps2 && j == j2 && j <= s@.len(),
            (None, None) => true,
            _ => false,
        },
    decreases quota,
{
    if quota == 0 {
        return None;
    }
    match exec_pair(s, i) {
        None => None,
        Some((kv, j)) => {
            let ghost kvv = (kv.0@, kv.1@);
            let j2 = exec_ws(s, j);
            if j2 < s.len() && s[j2] == 44 {
                let j3 = exec_ws(s, j2 + 1);
                match exec_members(s, j3, quota - 1) {
                    Some((mut ps, j4)) => {
                        let ghost tailv = pairs_view(ps@);
                        ps.insert(0, kv);
                        proof {
                            assert(pairs_view(ps@) =~= seq![kvv] + tailv);
                        }
                        Some((ps, j4))
                    },
                    None => None,
                }
            } else if j2 < s.len() && s[j2] == 125 {
                let mut ps: Vec<(Vec<u8>, Vec<u8>)> = Vec::new();
                ps.push(kv);
                proof {
                    assert(pairs_view(ps@) =~= seq![kvv]);
                }
                Some((ps, j2 + 1))
            } else {
                None
            }
        },
    }
}

/// Parses a whole string-valued object, following the specification parser
/// exactly.
pub fn exec_obj(s: &Vec<u8>, i: usize, quota: usize) -> (r: Option<
    (Vec<(Vec<u8>, Vec<u8>)>, usize),
>)
    requires
        i <= s@.len(),
    ensures
        match (r, sp_obj(s@, i as int, quota as nat)) {
            (Some((ps, j)), Some((ps2, j2))) => pairs_view(ps@) == ps2 && j == j2 && j <= s@.len(),
            (None, None) => true,
            _ => false,
        },
{
    let i1 = exec_ws(s, i);
    if !(i1 < s.len() && s[i1] == 123) {
        return None;
    }
    let i2 = exec_ws(s, i1 + 1);
    if i2 < s.len() && s[i2] == 125 {
        let ps: Vec<(Vec<u8>, Vec<u8>)> = Vec::new();
        proof {
            assert(pairs_view(ps@) =~= Seq::<(Seq<u8>, Seq<u8>)>::empty());
        }
        Some((ps, i2 + 1))
    } else {
        exec_members(s, i2, quota)
    }
}

/// Whether two byte strings hold the same bytes.
pub fn bytes_eq(a: &Vec<u8>, b: &Vec<u8>) -> (r: bool)
    ensures
        r == (a@ == b@),
{
    if a.len() != b.len() {
        proof {
            assert(a@.len() != b@.len());
        }
        return false;
    }
    let mut i: usize = 0;
    while i < a.len()
        invariant
            i <= a@.len(),
            a@.len() == b@.len(),
            forall|j: int| 0 <= j < i ==> a@[j] == b@[j],
        decreases a@.len() - i,
    {
        if a[i] != b[i] {
            return false;
        }
        i = i + 1;
    }
    proof {
        assert(a@ =~= b@);
    }
    true
}

/// Exec test for a hex digit, with its value.
pub fn hex_val_of(c: u8) -> (r: Option<u8>)
    ensures
        match r {
            Some(v) => is_hex(c) && v == hex_val(c),
            None => !is_hex(c),
        },
{
    if 48 <= c && c <= 57 {
        Some(c - 48)
    } else if 97 <= c && c <= 102 {
        Some(c - 87)
    } else if 65 <= c && c <= 70 {
        Some(c - 55)
    } else {
        None
    }
}

/// Decodes the hex digits of `d[from..]` into bytes, following
/// `hex_to_bytes` exactly.
pub fn exec_hex_to_bytes(d: &Vec<u8>, from: usize) -> (r: Option<Vec<u8>>)
    requires
        from <= d@.len(),
    ensures
        match (r, hex_to_bytes(d@.skip(from as int))) {
            (Some(b), Some(b2)) => b@ == b2,
            (None, None) => true,
            _ => false,
        },
{
    let ghost tail = d@.skip(from as int);
    if (d.len() - from) % 2 == 1 {
        proof {
            lemma_hex_odd_none(tail);
        }
        return None;
    }
    let mut out: Vec<u8> = Vec::new();
    let mut k = from;
    while k < d.len()
        invariant
            from <= k <= d@.len(),
            (d@.len() - k) % 2 == 0,
            (d@.len() - from) % 2 == 0,
            tail == d@.skip(from as int),
            hex_to_bytes(d@.subrange(from as int, k as int)) == Some(out@),
        decreases d@.len() - k,
    {
        let hi = match hex_val_of(d[k]) {
            Some(v) => v,
            None => {
                proof {
                    lemma_hex_bad_digit(tail, k - from);
                }
                return None;
            },
        };
        let lo = match hex_val_of(d[k + 1]) {
            Some(v) => v,
            None => {
                proof {
                    lemma_hex_bad_digit(tail, k + 1 - from);
                }
                return None;
            },
        };
        let ghost pre = d@.subrange(from as int, k as int);
        out.push(hi * 16 + lo);
        proof {
            let cur = d@.subrange(from as int, k as int + 2);
            assert(cur.drop_last().drop_last() =~= pre);
            assert(cur[cur.len() - 2] == d@[k as int] && cur[cur.len() - 1] == d@[k as int + 1]);
        }
        k = k + 2;
    }
    proof {
        assert(d@.subrange(from as int, d@.len() as int) =~= tail);
    }
    Some(out)
}

/// An odd count of digits never decodes.
proof fn lemma_hex_odd_none(d: Seq<u8>)
    requires
        d.len() % 2 == 1,
    ensures
        hex_to_bytes(d) is None,
    decreases d.len(),
{
    if d.len() > 1 {
        lemma_hex_odd_none(d.drop_last().drop_last());
    }
}

/// A non-digit anywhere spoils the decode.
proof fn lemma_hex_bad_digit(d: Seq<u8>, k: int)
    requires
        0 <= k < d.len(),
        !is_hex(d[k]),
    ensures
        hex_to_bytes(d) is None,
    decreases d.len(),
{
    if d.len() >= 2 && k < d.len() - 2 {
        lemma_hex_bad_digit(d.drop_last().drop_last(), k);
    }
}

/// Decodes an address string, following `sp_addr` exactly.
pub fn exec_addr(v: &Vec<u8>) -> (r: Option<Address>)
    ensures
        match (r, sp_addr(v@)) {
            (Some(a), Some(a2)) => a@ == a2 && a.wf(),
            (None, None) => true,
            _ => false,
        },
{
    if v.len() == 42 && v[0] == 48 && v[1] == 120 {
        proof {
            lemma_hex_to_bytes_len(v@.skip(2));
        }
        match exec_hex_to_bytes(v, 2) {
            Some(b) => Some(Address { bytes: b }),
            None => None,
        }
    } else {
        None
    }
}

/// Decodes a quantity string, following `sp_qty` exactly.
pub fn exec_qty(v: &Vec<u8>) -> (r: Option<U256>)
    ensures
        match (r, sp_qty(v@)) {
            (Some(q), Some(q2)) => q@ == q2 && q.wf(),
            (None, None) => true,
            _ => false,
        },
{
    if !(v.len() >= 2 && v[0] == 48 && v[1] == 120) {
        return None;
    }
    let ghost d = v@.skip(2);
    let dlen = v.len() - 2;
    if dlen < 1 || dlen > 64 {
        return None;
    }
    if dlen % 2 == 1 {
        let first = match hex_val_of(v[2]) {
            Some(x) => x,
            None => {
                proof {
                    assert(d[0] == v@[2]);
                }
                return None;
            },
        };
        proof {
            assert(d[0] == v@[2]);
            assert(d.drop_first() =~= v@.skip(3));
        }
        match exec_hex_to_bytes(v, 3) {
            Some(mut rest) => {
                rest.insert(0, first);
                proof {
                    assert(rest@ =~= seq![hex_val(d[0])] + hex_to_bytes(v@.skip(3)).unwrap());
                }
                let r = U256::from_be_bytes(&rest);
                proof {
                    lemma_hex_to_bytes_len(v@.skip(3));
                }
                Some(r.unwrap())
            },
            None => None,
        }
    } else {
        proof {
            assert(d =~= v@.skip(2));
        }
        match exec_hex_to_bytes(v, 2) {
            Some(b) => {
                proof {
                    lemma_hex_to_bytes_len(v@.skip(2));
                }
                let r = U256::from_be_bytes(&b);
                Some(r.unwrap())
            },
            None => None,
        }
    }
}

/// Decodes a byte-string value, following `sp_bytes` exactly.
pub fn exec_bytes(v: &Vec<u8>) -> (r: Option<Vec<u8>>)
    ensures
        match (r, sp_bytes(v@)) {
            (Some(b), Some(b2)) => b@ == b2,
            (None, None) => true,
            _ => false,
        },
{
    if v.len() >= 2 && v[0] == 48 && v[1] == 120 {
        exec_hex_to_bytes(v, 2)
    } else {
        None
    }
}

/// Reads a recipient, following `sp_rec` exactly. Consumes the raw string.
pub fn exec_rec(v: Vec<u8>) -> (r: Recipient)
    ensures
        r@ == sp_rec(v@),
        sp_addr(v@) is Some ==> r is Addr,
        (match r {
            Recipient::Addr(a) => a.wf(),
            Recipient::Name(_) => true,
        }),
{
    match exec_addr(&v) {
        Some(a) => Recipient::Addr(a),
        None => Recipient::Name(v),
    }
}


// ---- Key constants ----

/// The bytes of `from`.
pub fn key_from_vec() -> (r: Vec<u8>)
    ensures
        r@ == crate::json::key_from(),
{
    let mut v: Vec<u8> = Vec::new();
    v.push(102);
    v.push(114);
    v.push(111);
    v.push(109);
    proof {
        assert(v@ =~= crate::json::key_from());
    }
    v
}

/// The bytes of `to`.
pub fn key_to_vec() -> (r: Vec<u8>)
    ensures
        r@ == crate::json::key_to(),
{
    let mut v: Vec<u8> = Vec::new();
    v.push(116);
    v.push(111);
    proof {
        assert(v@ =~= crate::json::key_to());
    }
    v
}

/// The bytes of `gas`.
pub fn key_gas_vec() -> (r: Vec<u8>)
    ensures
        r@ == crate::json::key_gas(),
{
    let mut v: Vec<u8> = Vec::new();
    v.push(103);
    v.push(97);
    v.push(115);
    proof {
        assert(v@ =~= crate::json::key_gas());
    }
    v
}

/// The bytes of `gasPrice`.
pub fn key_gas_price_vec() -> (r: Vec<u8>)
    ensures
        r@ == crate::json::key_gas_price(),
{
    let mut v: Vec<u8> = Vec::new();
    v.push(103);
    v.push(97);
    v.push(115);
    v.push(80);
    v.push(114);
    v.push(105);
    v.push(99);
    v.push(101);
    proof {
        assert(v@ =~= crate::json::key_gas_price());
    }
    v
}

/// The bytes of `value`.
pub fn key_value_vec() -> (r: Vec<u8>)
    ensures
        r@ == crate::json::key_value(),
{
    let mut v: Vec<u8> = Vec::new();
    v.push(118);
    v.push(97);
    v.push(108);
    v.push(117);
    v.push(101);
    proof {
        assert(v@ =~= crate::json::key_value());
    }
    v
}

/// The bytes of `data`.
pub fn key_data_vec() -> (r: Vec<u8>)
    ensures
        r@ == crate::json::key_data(),
{
    let mut v: Vec<u8> = Vec::new();
    v.push(100);
    v.push(97);
    v.push(116);
    v.push(97);
    proof {
        assert(v@ =~= crate::json::key_data());
    }
    v
}

/// The bytes of `nonce`.
pub fn key_nonce_vec() -> (r: Vec<u8>)
    ensures
        r@ == crate::json::key_nonce(),
{
    let mut v: Vec<u8> = Vec::new();
    v.push(110);
    v.push(111);
    v.push(110);
    v.push(99);
    v.push(101);
    proof {
        assert(v@ =~= crate::json::key_nonce());
    }
    v
}

/// The bytes of `EthCall`.
pub fn key_eth_call_vec() -> (r: Vec<u8>)
    ensures
        r@ == crate::json::key_eth_call(),
{
    let mut v: Vec<u8> = Vec::new();
    v.push(69);
    v.push(116);
    v.push(104);
    v.push(67);
    v.push(97);
    v.push(108);
    v.push(108);
    proof {
        assert(v@ =~= crate::json::key_eth_call());
    }
    v
}

/// The bytes of `Balance`.
pub fn key_balance_vec() -> (r: Vec<u8>)
    ensures
        r@ == crate::json::key_balance(),
{
    let mut v: Vec<u8> = Vec::new();
    v.push(66);
    v.push(97);
    v.push(108);
    v.push(97);
    v.push(110);
    v.push(99);
    v.push(101);
    proof {
        assert(v@ =~= crate::json::key_balance());
    }
    v
}

/// The bytes of `Tx`.
pub fn key_tx_vec() -> (r: Vec<u8>)
    ensures
        r@ == crate::json::key_tx(),
{
    let mut v: Vec<u8> = Vec::new();
    v.push(84);
    v.push(120);
    proof {
        assert(v@ =~= crate::json::key_tx());
    }
    v
}

/// The bytes of `transaction`.
pub fn key_transaction_vec() -> (r: Vec<u8>)
    ensures
        r@ == crate::json::key_transaction(),
{
    let mut v: Vec<u8> = Vec::new();
    v.push(116);
    v.push(114);
    v.push(97);
    v.push(110);
    v.push(115);
    v.push(97);
    v.push(99);
    v.push(116);
    v.push(105);
    v.push(111);
    v.push(110);
    proof {
        assert(v@ =~= crate::json::key_transaction());
    }
    v
}

/// The bytes of `exit`.
pub fn key_exit_vec() -> (r: Vec<u8>)
    ensures
        r@ == crate::json::key_exit(),
{
    let mut v: Vec<u8> = Vec::new();
    v.push(101);
    v.push(120);
    v.push(105);
    v.push(116);
    proof {
        assert(v@ =~= crate::json::key_exit());
    }
    v
}

/// The bytes of `out`.
pub fn key_out_vec() -> (r: Vec<u8>)
    ensures
        r@ == crate::json::key_out(),
{
    let mut v: Vec<u8> = Vec::new();
    v.push(111);
    v.push(117);
    v.push(116);
    proof {
        assert(v@ =~= crate::json::key_out());
    }
    v
}

/// The bytes of `logs`.
pub fn key_logs_vec() -> (r: Vec<u8>)
    ensures
        r@ == crate::json::key_logs(),
{
    let mut v: Vec<u8> = Vec::new();
    v.push(108);
    v.push(111);
    v.push(103);
    v.push(115);
    proof {
        assert(v@ =~= crate::json::key_logs());
    }
    v
}

/// The bytes of `address`.
pub fn key_address_vec() -> (r: Vec<u8>)
    ensures
        r@ == crate::json::key_address(),
{
    let mut v: Vec<u8> = Vec::new();
    v.push(97);
    v.push(100);
    v.push(100);
    v.push(114);
    v.push(101);
    v.push(115);
    v.push(115);
    proof {
        assert(v@ =~= crate::json::key_address());
    }
    v
}

/// The bytes of `topics`.
pub fn key_topics_vec() -> (r: Vec<u8>)
    ensures
        r@ == crate::json::key_topics(),
{
    let mut v: Vec<u8> = Vec::new();
    v.push(116);
    v.push(111);
    v.push(112);
    v.push(105);
    v.push(99);
    v.push(115);
    proof {
        assert(v@ =~= crate::json::key_topics());
    }
    v
}

/// The bytes of `Call`.
pub fn key_call_vec() -> (r: Vec<u8>)
    ensures
        r@ == crate::json::key_call(),
{
    let mut v: Vec<u8> = Vec::new();
    v.push(67);
    v.push(97);
    v.push(108);
    v.push(108);
    proof {
        assert(v@ =~= crate::json::key_call());
    }
    v
}

/// The bytes of `Create`.
pub fn key_create_vec() -> (r: Vec<u8>)
    ensures
        r@ == crate::json::key_create(),
{
    let mut v: Vec<u8> = Vec::new();
    v.push(67);
    v.push(114);
    v.push(101);
    v.push(97);
    v.push(116);
    v.push(101);
    proof {
        assert(v@ =~= crate::json::key_create());
    }
    v
}

/// The bytes of `null`.
pub fn lit_null_vec() -> (r: Vec<u8>)
    ensures
        r@ == crate::json::lit_null(),
{
    let mut v: Vec<u8> = Vec::new();
    v.push(110);
    v.push(117);
    v.push(108);
    v.push(108);
    proof {
        assert(v@ =~= crate::json::lit_null());
    }
    v
}

// ---- Assembly and top-level decoding ----

/// Every member a successful parse yields is clean.
pub proof fn lemma_pair_clean(s: Seq<u8>, i: int)
    ensures
        match sp_pair(s, i) {
            Some(((k, v), j)) => clean_str(k) && clean_str(v),
            None => true,
        },
{
    lemma_str_body_clean(s, i + 1);
    match sp_string(s, i) {
        Some((k, j)) => {
            let j2 = sp_ws(s, j);
            if at(s, j2, 58) {
                let j3 = sp_ws(s, j2 + 1);
                lemma_str_body_clean(s, j3 + 1);
            }
        },
        None => {},
    }
}

/// Every member list a successful parse yields is clean.
pub proof fn lemma_members_clean(s: Seq<u8>, i: int, quota: nat)
    ensures
        match sp_members(s, i, quota) {
            Some((ps, j)) => crate::json::clean_pairs(ps),
            None => true,
        },
    decreases quota,
{
    if quota > 0 {
        lemma_pair_clean(s, i);
        match sp_pair(s, i) {
            Some((kv, j)) => {
                let j2 = sp_ws(s, j);
                if at(s, j2, 44) {
                    lemma_members_clean(s, sp_ws(s, j2 + 1), (quota - 1) as nat);
                    match sp_members(s, sp_ws(s, j2 + 1), (quota - 1) as nat) {
                        Some((ps, _j3)) => {
                            assert(crate::json::clean_pairs(seq![kv]));
                            crate::json::lemma_clean_pairs_concat(seq![kv], ps);
                        },
                        None => {},
                    }
                } else {
                    assert(crate::json::clean_pairs(seq![kv]));
                }
            },
            None => {},
        }
    }
}

/// Every member list a successful object parse yields is clean.
pub proof fn lemma_obj_clean(s: Seq<u8>, i: int, quota: nat)
    ensures
        match sp_obj(s, i, quota) {
            Some((ps, j)) => crate::json::clean_pairs(ps),
            None => true,
        },
{
    let i1 = sp_ws(s, i);
    if at(s, i1, 123) {
        lemma_members_clean(s, sp_ws(s, i1 + 1), quota);
    }
}

/// Takes the member at `pos` when it carries `key`, mirroring `take_field`
/// on the members from `pos` on.
fn take_at(ps: &Vec<(Vec<u8>, Vec<u8>)>, pos: usize, key: &Vec<u8>) -> (r: (Option<usize>, usize))
    requires
        pos <= ps@.len(),
    ensures
        ({
            let (o, rem) = take_field(pairs_view(ps@).skip(pos as int), key@);
            &&& match r.0 {
                Some(ix) => ix == pos && o == Some(ps@[pos as int].1@) && r.1 == pos + 1,
                None => o is None && r.1 == pos,
            }
            &&& rem == pairs_view(ps@).skip(r.1 as int)
            &&& r.1 <= ps@.len()
        }),
{
    let ghost pv = pairs_view(ps@);
    if pos < ps.len() {
        let p = &ps[pos];
        if bytes_eq(&p.0, key) {
            proof {
                assert(pv.skip(pos as int)[0] == pv[pos as int]);
                assert(pv.skip(pos as int).drop_first() =~= pv.skip(pos as int + 1));
            }
            return (Some(pos), pos + 1);
        }
        proof {
            assert(pv.skip(pos as int)[0] == pv[pos as int]);
            assert(pv[pos as int].0 == ps@[pos as int].0@);
        }
        (None, pos)
    } else {
        proof {
            assert(pv.skip(pos as int).len() == 0);
        }
        (None, pos)
    }
}

/// Assembles a transaction request from parsed members, mirroring
/// `sp_tx_of_pairs`. The members must come from the parser, so their
/// strings are clean.
#[verifier::rlimit(80)]
pub fn exec_tx_of_pairs(ps: &Vec<(Vec<u8>, Vec<u8>)>) -> (r: Option<TransactionRequest>)
    requires
        crate::json::clean_pairs(pairs_view(ps@)),
    ensures
        match (r, sp_tx_of_pairs(pairs_view(ps@))) {
            (Some(t), Some(m)) => t@ == m && t.wf(),
            (None, None) => true,
            _ => false,
        },
{
    let ghost pv = pairs_view(ps@);
    proof {
        assert(pv.skip(0) =~= pv);
    }
    let (fr_ix, pos1) = take_at(ps, 0, &key_from_vec());
    let from = match fr_ix {
        Some(ix) => match exec_addr(&ps[ix].1) {
            Some(a) => Some(a),
            None => {
                return None;
            },
        },
        None => None,
    };
    let (to_ix, pos2) = take_at(ps, pos1, &key_to_vec());
    let to = match to_ix {
        Some(ix) => {
            let mut raw: Vec<u8> = Vec::new();
            push_all(&mut raw, &ps[ix].1);
            proof {
                assert(raw@ =~= ps@[ix as int].1@);
            }
            Some(exec_rec(raw))
        },
        None => None,
    };
    let (gas_ix, pos3) = take_at(ps, pos2, &key_gas_vec());
    let gas = match gas_ix {
        Some(ix) => match exec_qty(&ps[ix].1) {
            Some(q) => Some(q),
            None => {
                return None;
            },
        },
        None => None,
    };
    let (gp_ix, pos4) = take_at(ps, pos3, &key_gas_price_vec());
    let gas_price = match gp_ix {
        Some(ix) => match exec_qty(&ps[ix].1) {
            Some(q) => Some(q),
            None => {
                return None;
            },
        },
        None => None,
    };
    let (val_ix, pos5) = take_at(ps, pos4, &key_value_vec());
    let value = match val_ix {
        Some(ix) => match exec_qty(&ps[ix].1) {
            Some(q) => Some(q),
            None => {
                return None;
            },
        },
        None => None,
    };
    let (data_ix, pos6) = take_at(ps, pos5, &key_data_vec());
    let data = match data_ix {
        Some(ix) => match exec_bytes(&ps[ix].1) {
            Some(b) => Some(b),
            None => {
                return None;
            },
        },
        None => None,
    };
    let (nonce_ix, pos7) = take_at(ps, pos6, &key_nonce_vec());
    let nonce = match nonce_ix {
        Some(ix) => match exec_qty(&ps[ix].1) {
            Some(q) => Some(q),
            None => {
                return None;
            },
        },
        None => None,
    };
    if pos7 != ps.len() {
        proof {
            assert(pairs_view(ps@).skip(pos7 as int).len() != 0);
        }
        return None;
    }
    proof {
        assert(pairs_view(ps@).skip(pos7 as int).len() == 0);
    }
    let t = TransactionRequest { from, to, gas, gas_price, value, data, nonce };
    proof {
        let m = sp_tx_of_pairs(pv).unwrap();
        assert(t@ == m);
        if to_ix is Some {
            let ix = to_ix.unwrap() as int;
            assert(clean_str(pv[ix].0) && clean_str(pv[ix].1));
        }
        assert(t.wf());
    }
    Some(t)
}

/// Decodes a transaction request from wire bytes, following the
/// specification decoder exactly; a decoded request is well formed.
pub fn decode_tx(bytes: &Vec<u8>) -> (r: Option<TransactionRequest>)
    ensures
        match (r, sp_dec_tx(bytes@)) {
            (Some(t), Some(m)) => t@ == m && t.wf(),
            (None, None) => true,
            _ => false,
        },
{
    proof {
        lemma_obj_clean(bytes@, 0, 8);
    }
    match exec_obj(bytes, 0, 8) {
        Some((ps, j)) => {
            let j2 = exec_ws(bytes, j);
            if j2 != bytes.len() {
                return None;
            }
            exec_tx_of_pairs(&ps)
        },
        None => None,
    }
}

/// Decodes a read query from wire bytes, following the specification
/// decoder exactly; a decoded call request is well formed.
pub fn decode_query(bytes: &Vec<u8>) -> (r: Option<crate::tx::Query>)
    ensures
        match (r, crate::json::sp_dec_query(bytes@)) {
            (Some(q), Some(m)) => q@ == m && match q {
                crate::tx::Query::EthCall(t) => t.wf(),
                crate::tx::Query::Balance(a) => a.wf(),
            },
            (None, None) => true,
            _ => false,
        },
{
    let i1 = exec_ws(bytes, 0);
    if !(i1 < bytes.len() && bytes[i1] == 123) {
        return None;
    }
    let i2 = exec_ws(bytes, i1 + 1);
    match exec_string(bytes, i2) {
        None => None,
        Some((k, j)) => {
            let j2 = exec_ws(bytes, j);
            if !(j2 < bytes.len() && bytes[j2] == 58) {
                return None;
            }
            let j3 = exec_ws(bytes, j2 + 1);
            if bytes_eq(&k, &key_eth_call_vec()) {
                proof {
                    lemma_obj_clean(bytes@, j3 as int, 8);
                }
                match exec_obj(bytes, j3, 8) {
                    Some((ps, j4)) => match exec_tx_of_pairs(&ps) {
                        Some(t) => {
                            let j5 = exec_ws(bytes, j4);
                            if j5 < bytes.len() && bytes[j5] == 125 {
                                let j6 = exec_ws(bytes, j5 + 1);
                                if j6 == bytes.len() {
                                    Some(crate::tx::Query::EthCall(t))
                                } else {
                                    None
                                }
                            } else {
                                None
                            }
                        },
                        None => None,
                    },
                    None => None,
                }
            } else if bytes_eq(&k, &key_balance_vec()) {
                match exec_string(bytes, j3) {
                    Some((v, j4)) => match exec_addr(&v) {
                        Some(a) => {
                            let j5 = exec_ws(bytes, j4);
                            if j5 < bytes.len() && bytes[j5] == 125 {
                                let j6 = exec_ws(bytes, j5 + 1);
                                if j6 == bytes.len() {
                                    Some(crate::tx::Query::Balance(a))
                                } else {
                                    None
                                }
                            } else {
                                None
                            }
                        },
                        None => None,
                    },
                    None => None,
                }
            } else {
                None
            }
        },
    }
}

// ---- Encoding ----

/// Appends all of `v`.
pub fn push_all(out: &mut Vec<u8>, v: &Vec<u8>)
    ensures
        final(out)@ == old(out)@ + v@,
{
    let mut i: usize = 0;
    while i < v.len()
        invariant
            i <= v@.len(),
            out@ == old(out)@ + v@.subrange(0, i as int),
        decreases v@.len() - i,
    {
        out.push(v[i]);
        proof {
            assert(out@ =~= old(out)@ + v@.subrange(0, i as int + 1));
        }
        i = i + 1;
    }
    proof {
        assert(v@.subrange(0, v@.len() as int) =~= v@);
        assert(out@ =~= old(out)@ + v@);
    }
}

/// Appends a quoted string literal.
pub fn push_quoted(out: &mut Vec<u8>, v: &Vec<u8>)
    ensures
        final(out)@ == old(out)@ + crate::json::enc_str(v@),
{
    out.push(34);
    push_all(out, v);
    out.push(34);
    proof {
        assert(out@ =~= old(out)@ + crate::json::enc_str(v@));
    }
}

/// Appends one member, with a comma before it unless it is the first.
pub fn push_member(out: &mut Vec<u8>, first: bool, key: &Vec<u8>, val: &Vec<u8>)
    ensures
        final(out)@ == old(out)@ + (if first {
            Seq::<u8>::empty()
        } else {
            seq![44u8]
        }) + crate::json::enc_pair(key@, val@),
{
    if !first {
        out.push(44);
    }
    push_quoted(out, key);
    out.push(58);
    push_quoted(out, val);
    proof {
        assert(out@ =~= old(out)@ + (if first {
            Seq::<u8>::empty()
        } else {
            seq![44u8]
        }) + crate::json::enc_pair(key@, val@));
    }
}

/// The rendered address value.
pub fn addr_str_vec(a: &Address) -> (r: Vec<u8>)
    ensures
        r@ == crate::json::addr_str(a@),
{
    let mut v: Vec<u8> = Vec::new();
    v.push(48);
    v.push(120);
    crate::hexcode::push_hex(&mut v, &a.bytes, 0);
    proof {
        assert(a.bytes@.skip(0) =~= a@);
        assert(v@ =~= crate::json::addr_str(a@));
    }
    v
}

/// The rendered quantity value.
pub fn qty_str_vec(q: &U256) -> (r: Vec<u8>)
    requires
        q.wf(),
    ensures
        r@ == crate::json::qty_str(q@),
{
    let mut v: Vec<u8> = Vec::new();
    v.push(48);
    v.push(120);
    crate::hexcode::push_qty_hex(&mut v, &q.be);
    proof {
        assert(v@ =~= crate::json::qty_str(q@));
    }
    v
}

/// The rendered byte-string value.
pub fn bytes_str_vec(d: &Vec<u8>) -> (r: Vec<u8>)
    ensures
        r@ == crate::json::bytes_str(d@),
{
    let mut v: Vec<u8> = Vec::new();
    v.push(48);
    v.push(120);
    crate::hexcode::push_hex(&mut v, d, 0);
    proof {
        assert(d@.skip(0) =~= d@);
        assert(v@ =~= crate::json::bytes_str(d@));
    }
    v
}

/// The rendered recipient value.
pub fn rec_str_vec(r: &Recipient) -> (res: Vec<u8>)
    ensures
        res@ == crate::json::rec_str(r@),
{
    match r {
        Recipient::Addr(a) => addr_str_vec(a),
        Recipient::Name(n) => {
            let mut v: Vec<u8> = Vec::new();
            push_all(&mut v, n);
            proof {
                assert(v@ =~= n@);
            }
            v
        },
    }
}

/// The rendered name of an exit code.
pub fn exit_str_vec(e: Exit) -> (r: Vec<u8>)
    ensures
        r@ == crate::json::exit_str(e),
{
    let mut v: Vec<u8> = Vec::new();
    match e {
        Exit::Stop => {
            v.push(83);
            v.push(116);
            v.push(111);
            v.push(112);
        },
        Exit::Return => {
            v.push(82);
            v.push(101);
            v.push(116);
            v.push(117);
            v.push(114);
            v.push(110);
        },
        Exit::SelfDestruct => {
            v.push(83);
            v.push(101);
            v.push(108);
            v.push(102);
            v.push(68);
            v.push(101);
            v.push(115);
            v.push(116);
            v.push(114);
            v.push(117);
            v.push(99);
            v.push(116);
        },
        Exit::Revert => {
            v.push(82);
            v.push(101);
            v.push(118);
            v.push(101);
            v.push(114);
            v.push(116);
        },
        Exit::Halt => {
            v.push(72);
            v.push(97);
            v.push(108);
            v.push(116);
        },
        Exit::Invalid => {
            v.push(73);
            v.push(110);
            v.push(118);
            v.push(97);
            v.push(108);
            v.push(105);
            v.push(100);
        },
    }
    proof {
        assert(v@ =~= crate::json::exit_str(e));
    }
    v
}

/// Appends the output of a transaction.
pub fn push_out(out: &mut Vec<u8>, o: &TxOutput)
    ensures
        final(out)@ == old(out)@ + crate::json::enc_out_spec(o@),
{
    match o {
        TxOutput::Call(d) => {
            out.push(123);
            push_quoted(out, &key_call_vec());
            out.push(58);
            let v = bytes_str_vec(d);
            push_quoted(out, &v);
            out.push(125);
            proof {
                assert(out@ =~= old(out)@ + crate::json::enc_out_spec(o@));
            }
        },
        TxOutput::Create(d, a) => {
            out.push(123);
            push_quoted(out, &key_create_vec());
            out.push(58);
            out.push(91);
            let v = bytes_str_vec(d);
            push_quoted(out, &v);
            out.push(44);
            match a {
                Some(a) => {
                    let av = addr_str_vec(a);
                    push_quoted(out, &av);
                },
                None => {
                    push_all(out, &lit_null_vec());
                },
            }
            out.push(93);
            out.push(125);
            proof {
                assert(out@ =~= old(out)@ + crate::json::enc_out_spec(o@));
            }
        },
    }
}

/// Appends one log record.
pub fn push_log(out: &mut Vec<u8>, l: &LogEntry)
    ensures
        final(out)@ == old(out)@ + crate::json::enc_log_spec(l@),
{
    let ghost base = out@;
    out.push(123);
    push_quoted(out, &key_address_vec());
    out.push(58);
    let av = addr_str_vec(&l.address);
    push_quoted(out, &av);
    out.push(44);
    push_quoted(out, &key_topics_vec());
    out.push(58);
    out.push(91);
    let ghost tmodel = l@.topics;
    let ghost items = Seq::new(tmodel.len(), |i: int| crate::json::enc_str(crate::json::bytes_str(tmodel[i])));
    let ghost mid = out@;
    let mut i: usize = 0;
    while i < l.topics.len()
        invariant
            i <= l.topics@.len(),
            tmodel == l@.topics,
            tmodel.len() == l.topics@.len(),
            items == Seq::new(tmodel.len(), |k: int| crate::json::enc_str(crate::json::bytes_str(tmodel[k]))),
            forall|k: int| 0 <= k < tmodel.len() ==> tmodel[k] == l.topics@[k]@,
            out@ == mid + crate::json::join_comma(items.subrange(0, i as int)),
        decreases l.topics@.len() - i,
    {
        if i > 0 {
            out.push(44);
        }
        let tv = bytes_str_vec(&l.topics[i].be);
        push_quoted(out, &tv);
        proof {
            crate::json::lemma_join_snoc(items.subrange(0, i as int), items[i as int]);
            assert(items.subrange(0, i as int).push(items[i as int]) =~= items.subrange(
                0,
                i as int + 1,
            ));
            assert(items[i as int] == crate::json::enc_str(crate::json::bytes_str(tmodel[i as int])));
            assert(out@ =~= mid + crate::json::join_comma(items.subrange(0, i as int + 1)));
        }
        i = i + 1;
    }
    proof {
        assert(items.subrange(0, items.len() as int) =~= items);
    }
    out.push(93);
    out.push(44);
    push_quoted(out, &key_data_vec());
    out.push(58);
    let dv = bytes_str_vec(&l.data);
    push_quoted(out, &dv);
    out.push(125);
    proof {
        assert(out@ =~= base + crate::json::enc_log_spec(l@));
    }
}

/// Appends one optional member and reports whether the next member is
/// still the first.
fn push_field(
    out: &mut Vec<u8>,
    first: bool,
    key: &Vec<u8>,
    val: Option<&Vec<u8>>,
    Ghost(pre): Ghost<Seq<u8>>,
    Ghost(done): Ghost<Seq<(Seq<u8>, Seq<u8>)>>,
) -> (nf: bool)
    requires
        old(out)@ == pre + crate::json::enc_members(done),
        first == (done.len() == 0),
    ensures
        ({
            let nd = done + crate::json::seg(
                key@,
                match val {
                    Some(v) => Some(v@),
                    None => None,
                },
            );
            final(out)@ == pre + crate::json::enc_members(nd) && nf == (nd.len() == 0)
        }),
{
    match val {
        Some(v) => {
            proof {
                crate::json::lemma_enc_members_snoc(done, (key@, v@));
                assert(done + crate::json::seg(key@, Some(v@)) =~= done.push((key@, v@)));
            }
            push_member(out, first, key, v);
            proof {
                let nd = done + crate::json::seg(key@, Some(v@));
                assert(out@ =~= pre + crate::json::enc_members(nd));
            }
            false
        },
        None => {
            proof {
                assert(done + crate::json::seg(key@, None::<Seq<u8>>) =~= done);
            }
            first
        },
    }
}

/// Appends a transaction request in its canonical encoding.
#[verifier::rlimit(100)]
pub fn push_tx(out: &mut Vec<u8>, t: &TransactionRequest)
    requires
        t.wf(),
    ensures
        final(out)@ == old(out)@ + crate::json::enc_tx_spec(t@),
{
    let ghost base = out@;
    out.push(123);
    let ghost pre = base + seq![123u8];
    let ghost d0: Seq<(Seq<u8>, Seq<u8>)> = Seq::empty();
    proof {
        assert(out@ =~= pre + crate::json::enc_members(d0));
    }
    let f_val = match &t.from {
        Some(a) => Some(addr_str_vec(a)),
        None => None,
    };
    let first = push_field(
        out,
        true,
        &key_from_vec(),
        f_val.as_ref(),
        Ghost(pre),
        Ghost(d0),
    );
    let ghost d1 = d0 + crate::json::seg(key_from(), crate::json::raw_from(t@));
    let t_val = match &t.to {
        Some(rc) => Some(rec_str_vec(rc)),
        None => None,
    };
    let first = push_field(out, first, &key_to_vec(), t_val.as_ref(), Ghost(pre), Ghost(d1));
    let ghost d2 = d1 + crate::json::seg(key_to(), crate::json::raw_to(t@));
    let g_val = match &t.gas {
        Some(q) => Some(qty_str_vec(q)),
        None => None,
    };
    let first = push_field(out, first, &key_gas_vec(), g_val.as_ref(), Ghost(pre), Ghost(d2));
    let ghost d3 = d2 + crate::json::seg(key_gas(), crate::json::raw_gas(t@));
    let gp_val = match &t.gas_price {
        Some(q) => Some(qty_str_vec(q)),
        None => None,
    };
    let first = push_field(
        out,
        first,
        &key_gas_price_vec(),
        gp_val.as_ref(),
        Ghost(pre),
        Ghost(d3),
    );
    let ghost d4 = d3 + crate::json::seg(key_gas_price(), crate::json::raw_gas_price(t@));
    let v_val = match &t.value {
        Some(q) => Some(qty_str_vec(q)),
        None => None,
    };
    let first = push_field(out, first, &key_value_vec(), v_val.as_ref(), Ghost(pre), Ghost(d4));
    let ghost d5 = d4 + crate::json::seg(key_value(), crate::json::raw_value(t@));
    let da_val = match &t.data {
        Some(d) => Some(bytes_str_vec(d)),
        None => None,
    };
    let first = push_field(out, first, &key_data_vec(), da_val.as_ref(), Ghost(pre), Ghost(d5));
    let ghost d6 = d5 + crate::json::seg(key_data(), crate::json::raw_data(t@));
    let n_val = match &t.nonce {
        Some(q) => Some(qty_str_vec(q)),
        None => None,
    };
    let _first = push_field(out, first, &key_nonce_vec(), n_val.as_ref(), Ghost(pre), Ghost(d6));
    let ghost d7 = d6 + crate::json::seg(key_nonce(), crate::json::raw_nonce(t@));
    proof {
        crate::json::lemma_tx_pairs_flat(t@);
        assert(d1 =~= crate::json::seg(key_from(), crate::json::raw_from(t@)));
        assert(d7 =~= crate::json::tx_pairs(t@));
    }
    out.push(125);
    proof {
        assert(out@ =~= base + crate::json::enc_tx_spec(t@));
    }
}

/// Encodes a transaction request.
pub fn encode_tx(t: &TransactionRequest) -> (r: Vec<u8>)
    requires
        t.wf(),
    ensures
        r@ == crate::json::enc_tx_spec(t@),
{
    let mut out: Vec<u8> = Vec::new();
    push_tx(&mut out, t);
    proof {
        assert(out@ =~= crate::json::enc_tx_spec(t@));
    }
    out
}

/// Appends a transaction result record.
#[verifier::rlimit(100)]
pub fn push_result(out: &mut Vec<u8>, r: &TransactionResult)
    requires
        r.transaction.wf(),
    ensures
        final(out)@ == old(out)@ + crate::json::enc_result_spec(r@),
{
    let ghost base = out@;
    out.push(123);
    push_quoted(out, &key_transaction_vec());
    out.push(58);
    push_tx(out, &r.transaction);
    out.push(44);
    let ghost c1 = base + seq![123u8] + crate::json::enc_str(crate::json::key_transaction())
        + seq![58u8] + crate::json::enc_tx_spec(r@.transaction) + seq![44u8];
    proof {
        assert(out@ =~= c1);
    }
    push_quoted(out, &key_exit_vec());
    out.push(58);
    let ev = exit_str_vec(r.exit);
    push_quoted(out, &ev);
    out.push(44);
    let ghost c2 = c1 + crate::json::enc_str(crate::json::key_exit()) + seq![58u8]
        + crate::json::enc_str(crate::json::exit_str(r@.exit)) + seq![44u8];
    proof {
        assert(out@ =~= c2);
    }
    push_quoted(out, &key_out_vec());
    out.push(58);
    push_out(out, &r.out);
    out.push(44);
    let ghost c3 = c2 + crate::json::enc_str(crate::json::key_out()) + seq![58u8]
        + crate::json::enc_out_spec(r@.out) + seq![44u8];
    proof {
        assert(out@ =~= c3);
    }
    push_quoted(out, &key_gas_vec());
    out.push(58);
    crate::hexcode::push_decimal(out, r.gas);
    out.push(44);
    push_quoted(out, &key_logs_vec());
    out.push(58);
    out.push(91);
    let ghost c4 = c3 + crate::json::enc_str(crate::json::key_gas()) + seq![58u8]
        + crate::hexcode::dec_digits(r@.gas) + seq![44u8] + crate::json::enc_str(
        crate::json::key_logs(),
    ) + seq![58u8] + seq![91u8];
    proof {
        assert(out@ =~= c4);
    }
    let ghost lmodel = r@.logs;
    let ghost items = Seq::new(lmodel.len(), |i: int| crate::json::enc_log_spec(lmodel[i]));
    let ghost mid = out@;
    let mut i: usize = 0;
    while i < r.logs.len()
        invariant
            i <= r.logs@.len(),
            lmodel == r@.logs,
            lmodel.len() == r.logs@.len(),
            items == Seq::new(lmodel.len(), |k: int| crate::json::enc_log_spec(lmodel[k])),
            forall|k: int| 0 <= k < lmodel.len() ==> lmodel[k] == r.logs@[k]@,
            out@ == mid + crate::json::join_comma(items.subrange(0, i as int)),
        decreases r.logs@.len() - i,
    {
        if i > 0 {
            out.push(44);
        }
        push_log(out, &r.logs[i]);
        proof {
            crate::json::lemma_join_snoc(items.subrange(0, i as int), items[i as int]);
            assert(items.subrange(0, i as int).push(items[i as int]) =~= items.subrange(
                0,
                i as int + 1,
            ));
            assert(items[i as int] == crate::json::enc_log_spec(lmodel[i as int]));
            assert(out@ =~= mid + crate::json::join_comma(items.subrange(0, i as int + 1)));
        }
        i = i + 1;
    }
    proof {
        assert(items.subrange(0, items.len() as int) =~= items);
        assert(out@ =~= c4 + crate::json::join_comma(items));
    }
    out.push(93);
    out.push(125);
    proof {
        assert(out@ =~= base + crate::json::enc_result_spec(r@));
    }
}

/// Encodes a transaction result record.
pub fn encode_result(r: &TransactionResult) -> (res: Vec<u8>)
    requires
        r.transaction.wf(),
    ensures
        res@ == crate::json::enc_result_spec(r@),
{
    let mut out: Vec<u8> = Vec::new();
    push_result(&mut out, r);
    proof {
        assert(out@ =~= crate::json::enc_result_spec(r@));
    }
    out
}

/// Encodes a read query.
pub fn encode_query(q: &crate::tx::Query) -> (r: Vec<u8>)
    requires
        (match q {
            crate::tx::Query::EthCall(t) => t.wf(),
            crate::tx::Query::Balance(_) => true,
        }),
    ensures
        r@ == crate::json::enc_query_spec(q@),
{
    let mut out: Vec<u8> = Vec::new();
    match q {
        crate::tx::Query::EthCall(t) => {
            out.push(123);
            push_quoted(&mut out, &key_eth_call_vec());
            out.push(58);
            push_tx(&mut out, t);
            out.push(125);
        },
        crate::tx::Query::Balance(a) => {
            out.push(123);
            push_quoted(&mut out, &key_balance_vec());
            out.push(58);
            let av = addr_str_vec(a);
            push_quoted(&mut out, &av);
            out.push(125);
        },
    }
    proof {
        assert(out@ =~= crate::json::enc_query_spec(q@));
    }
    out
}

/// Encodes a query answer.
pub fn encode_query_response(qr: &crate::tx::QueryResponse) -> (r: Vec<u8>)
    requires
        (match qr {
            crate::tx::QueryResponse::Tx(res) => res.transaction.wf(),
            crate::tx::QueryResponse::Balance(b) => b.wf(),
        }),
    ensures
        r@ == crate::json::enc_query_response_spec(qr@),
{
    let mut out: Vec<u8> = Vec::new();
    match qr {
        crate::tx::QueryResponse::Tx(res) => {
            out.push(123);
            push_quoted(&mut out, &key_tx_vec());
            out.push(58);
            push_result(&mut out, res);
            out.push(125);
        },
        crate::tx::QueryResponse::Balance(b) => {
            out.push(123);
            push_quoted(&mut out, &key_balance_vec());
            out.push(58);
            let bv = qty_str_vec(b);
            push_quoted(&mut out, &bv);
            out.push(125);
        },
    }
    proof {
        assert(out@ =~= crate::json::enc_query_response_spec(qr@));
    }
    out
}

} // verus!
