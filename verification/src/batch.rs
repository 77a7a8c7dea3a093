//! Worker batch messages and their binary encoding: a tagged union whose
//! one variant carries an ordered list of raw transactions, laid out as the
//! worker stores write it — a 4-byte little-endian variant tag, an 8-byte
//! little-endian count, and each transaction as an 8-byte little-endian
//! length followed by its bytes.

use vstd::prelude::*;

verus! {

/// A message recovered from a worker store.
pub enum WorkerMessage {
    /// An ordered batch of raw transactions.
    Batch(Vec<Vec<u8>>),
}

/// The transactions of a batch, viewed as byte strings.
pub open spec fn txs_view(txs: Seq<Vec<u8>>) -> Seq<Seq<u8>> {
    Seq::new(txs.len(), |i: int| txs[i]@)
}

/// The 8 little-endian bytes of a `u64`.
pub open spec fn u64_le_bytes(x: u64) -> Seq<u8> {
    seq![
        (x % 0x100) as u8,
        ((x / 0x100) % 0x100) as u8,
        ((x / 0x10000) % 0x100) as u8,
        ((x / 0x1000000) % 0x100) as u8,
        ((x / 0x100000000) % 0x100) as u8,
        ((x / 0x10000000000) % 0x100) as u8,
        ((x / 0x1000000000000) % 0x100) as u8,
        (x / 0x100000000000000) as u8,
    ]
}

/// The value of 8 little-endian bytes.
pub open spec fn le8_val(s: Seq<u8>) -> nat
    recommends
        s.len() == 8,
    decreases s.len(),
{
    if s.len() == 0 {
        0
    } else {
        (s[0] + 256 * le8_val(s.drop_first())) as nat
    }
}

/// The encoded transactions, each length-prefixed, in order.
pub open spec fn enc_txs_spec(txs: Seq<Seq<u8>>) -> Seq<u8>
    decreases txs.len(),
{
    if txs.len() == 0 {
        Seq::empty()
    } else {
        u64_le_bytes(txs[0].len() as u64) + txs[0] + enc_txs_spec(txs.drop_first())
    }
}

/// The encoded batch message: variant tag zero, count, transactions.
pub open spec fn enc_worker_message_spec(txs: Seq<Seq<u8>>) -> Seq<u8> {
    seq![0u8, 0u8, 0u8, 0u8] + u64_le_bytes(txs.len() as u64) + enc_txs_spec(txs)
}

/// Parses `count` length-prefixed items at `i`.
pub open spec fn sp_items(s: Seq<u8>, i: int, count: nat) -> Option<(Seq<Seq<u8>>, int)>
    decreases count,
{
    if count == 0 {
        Some((Seq::empty(), i))
    } else if !(0 <= i && i + 8 <= s.len()) {
        None
    } else {
        let l = le8_val(s.subrange(i, i + 8));
        if i + 8 + l > s.len() {
            None
        } else {
            let item = s.subrange(i + 8, i + 8 + l);
            match sp_items(s, i + 8 + l, (count - 1) as nat) {
                Some((rest, j)) => Some((seq![item] + rest, j)),
                None => None,
            }
        }
    }
}

/// Parses a whole batch message; `None` on any other layout.
pub open spec fn sp_dec_worker(s: Seq<u8>) -> Option<Seq<Seq<u8>>> {
    if s.len() < 12 || s[0] != 0 || s[1] != 0 || s[2] != 0 || s[3] != 0 {
        None
    } else {
        let count = le8_val(s.subrange(4, 12));
        match sp_items(s, 12, count) {
            Some((txs, j)) => if j == s.len() {
                Some(txs)
            } else {
                None
            },
            None => None,
        }
    }
}

/// The little-endian bytes of a packed `u64` are its pieces.
proof fn lemma_u64_le_pack(b0: u8, b1: u8, b2: u8, b3: u8, b4: u8, b5: u8, b6: u8, b7: u8)
    ensures
        ({
            let r = (b0 as u64) | ((b1 as u64) << 8) | ((b2 as u64) << 16) | ((b3 as u64) << 24)
                | ((b4 as u64) << 32) | ((b5 as u64) << 40) | ((b6 as u64) << 48) | ((b7 as u64)
                << 56);
            u64_le_bytes(r) == seq![b0, b1, b2, b3, b4, b5, b6, b7]
        }),
{
    let r = (b0 as u64) | ((b1 as u64) << 8) | ((b2 as u64) << 16) | ((b3 as u64) << 24) | ((b4
        as u64) << 32) | ((b5 as u64) << 40) | ((b6 as u64) << 48) | ((b7 as u64) << 56);
    assert((r % 0x100) as u8 == b0) by (bit_vector)
        requires
            r == (b0 as u64) | ((b1 as u64) << 8) | ((b2 as u64) << 16) | ((b3 as u64) << 24) | ((
            b4 as u64) << 32) | ((b5 as u64) << 40) | ((b6 as u64) << 48) | ((b7 as u64) << 56),
    ;
    assert(((r / 0x100) % 0x100) as u8 == b1) by (bit_vector)
        requires
            r == (b0 as u64) | ((b1 as u64) << 8) | ((b2 as u64) << 16) | ((b3 as u64) << 24) | ((
            b4 as u64) << 32) | ((b5 as u64) << 40) | ((b6 as u64) << 48) | ((b7 as u64) << 56),
    ;
    assert(((r / 0x10000) % 0x100) as u8 == b2) by (bit_vector)
        requires
            r == (b0 as u64) | ((b1 as u64) << 8) | ((b2 as u64) << 16) | ((b3 as u64) << 24) | ((
            b4 as u64) << 32) | ((b5 as u64) << 40) | ((b6 as u64) << 48) | ((b7 as u64) << 56),
    ;
    assert(((r / 0x1000000) % 0x100) as u8 == b3) by (bit_vector)
        requires
            r == (b0 as u64) | ((b1 as u64) << 8) | ((b2 as u64) << 16) | ((b3 as u64) << 24) | ((
            b4 as u64) << 32) | ((b5 as u64) << 40) | ((b6 as u64) << 48) | ((b7 as u64) << 56),
    ;
    assert(((r / 0x100000000) % 0x100) as u8 == b4) by (bit_vector)
        requires
            r == (b0 as u64) | ((b1 as u64) << 8) | ((b2 as u64) << 16) | ((b3 as u64) << 24) | ((
            b4 as u64) << 32) | ((b5 as u64) << 40) | ((b6 as u64) << 48) | ((b7 as u64) << 56),
    ;
    assert(((r / 0x10000000000) % 0x100) as u8 == b5) by (bit_vector)
        requires
            r == (b0 as u64) | ((b1 as u64) << 8) | ((b2 as u64) << 16) | ((b3 as u64) << 24) | ((
            b4 as u64) << 32) | ((b5 as u64) << 40) | ((b6 as u64) << 48) | ((b7 as u64) << 56),
    ;
    assert(((r / 0x1000000000000) % 0x100) as u8 == b6) by (bit_vector)
        requires
            r == (b0 as u64) | ((b1 as u64) << 8) | ((b2 as u64) << 16) | ((b3 as u64) << 24) | ((
            b4 as u64) << 32) | ((b5 as u64) << 40) | ((b6 as u64) << 48) | ((b7 as u64) << 56),
    ;
    assert((r / 0x100000000000000) as u8 == b7) by (bit_vector)
        requires
            r == (b0 as u64) | ((b1 as u64) << 8) | ((b2 as u64) << 16) | ((b3 as u64) << 24) | ((
            b4 as u64) << 32) | ((b5 as u64) << 40) | ((b6 as u64) << 48) | ((b7 as u64) << 56),
    ;
    assert(u64_le_bytes(r) =~= seq![b0, b1, b2, b3, b4, b5, b6, b7]);
}

/// The value of a `u64`'s little-endian bytes is the `u64`.
proof fn lemma_le8_val_of_bytes(x: u64)
    ensures
        le8_val(u64_le_bytes(x)) == x,
{
    let s = u64_le_bytes(x);
    let s1 = s.drop_first();
    let s2 = s1.drop_first();
    let s3 = s2.drop_first();
    let s4 = s3.drop_first();
    let s5 = s4.drop_first();
    let s6 = s5.drop_first();
    let s7 = s6.drop_first();
    let s8 = s7.drop_first();
    assert(s8.len() == 0);
    assert(le8_val(s8) == 0);
    assert(s7[0] == (x / 0x100000000000000) as u8);
    assert(le8_val(s7) == s7[0] + 256 * le8_val(s8));
    assert(s6[0] == ((x / 0x1000000000000) % 0x100) as u8);
    assert(le8_val(s6) == s6[0] + 256 * le8_val(s7));
    assert(s5[0] == ((x / 0x10000000000) % 0x100) as u8);
    assert(le8_val(s5) == s5[0] + 256 * le8_val(s6));
    assert(s4[0] == ((x / 0x100000000) % 0x100) as u8);
    assert(le8_val(s4) == s4[0] + 256 * le8_val(s5));
    assert(s3[0] == ((x / 0x1000000) % 0x100) as u8);
    assert(le8_val(s3) == s3[0] + 256 * le8_val(s4));
    assert(s2[0] == ((x / 0x10000) % 0x100) as u8);
    assert(le8_val(s2) == s2[0] + 256 * le8_val(s3));
    assert(s1[0] == ((x / 0x100) % 0x100) as u8);
    assert(le8_val(s1) == s1[0] + 256 * le8_val(s2));
    assert(s[0] == (x % 0x100) as u8);
    assert(le8_val(s) == s[0] + 256 * le8_val(s1));
    assert(x % 0x100 + 0x100 * ((x / 0x100) % 0x100 + 0x100 * ((x / 0x10000) % 0x100 + 0x100 * ((x
        / 0x1000000) % 0x100 + 0x100 * ((x / 0x100000000) % 0x100 + 0x100 * ((x / 0x10000000000)
        % 0x100 + 0x100 * ((x / 0x1000000000000) % 0x100 + 0x100 * (x / 0x100000000000000)))))))
        == x) by (bit_vector);
}

/// Reads 8 little-endian bytes at `i` as a `u64`.
fn read_le8(s: &Vec<u8>, i: usize) -> (r: u64)
    requires
        i + 8 <= s@.len(),
    ensures
        u64_le_bytes(r) == s@.subrange(i as int, i as int + 8),
        r == le8_val(s@.subrange(i as int, i as int + 8)),
{
    let n = s.len();
    let b0 = s[i];
    let b1 = s[i + 1];
    let b2 = s[i + 2];
    let b3 = s[i + 3];
    let b4 = s[i + 4];
    let b5 = s[i + 5];
    let b6 = s[i + 6];
    let b7 = s[i + 7];
    let r = (b0 as u64) | ((b1 as u64) << 8) | ((b2 as u64) << 16) | ((b3 as u64) << 24) | ((b4
        as u64) << 32) | ((b5 as u64) << 40) | ((b6 as u64) << 48) | ((b7 as u64) << 56);
    proof {
        lemma_u64_le_pack(b0, b1, b2, b3, b4, b5, b6, b7);
        assert(u64_le_bytes(r) =~= s@.subrange(i as int, i as int + 8));
        lemma_le8_val_of_bytes(r);
    }
    r
}

/// Appends the 8 little-endian bytes of `x`.
fn push_le8(out: &mut Vec<u8>, x: u64)
    ensures
        final(out)@ == old(out)@ + u64_le_bytes(x),
{
    out.push((x % 0x100) as u8);
    out.push(((x / 0x100) % 0x100) as u8);
    out.push(((x / 0x10000) % 0x100) as u8);
    out.push(((x / 0x1000000) % 0x100) as u8);
    out.push(((x / 0x100000000) % 0x100) as u8);
    out.push(((x / 0x10000000000) % 0x100) as u8);
    out.push(((x / 0x1000000000000) % 0x100) as u8);
    out.push((x / 0x100000000000000) as u8);
    proof {
        assert(out@ =~= old(out)@ + u64_le_bytes(x));
    }
}

impl WorkerMessage {
    /// Encodes the message in the worker stores' layout.
    pub fn encode(&self) -> (r: Vec<u8>)
        ensures
            (match self {
                WorkerMessage::Batch(txs) => r@ == enc_worker_message_spec(txs_view(txs@)),
            }),
    {
        let WorkerMessage::Batch(txs) = self;
        let mut out: Vec<u8> = Vec::new();
        out.push(0);
        out.push(0);
        out.push(0);
        out.push(0);
        push_le8(&mut out, txs.len() as u64);
        let ghost tv = txs_view(txs@);
        let ghost mid = out@;
        proof {
            assert(mid =~= seq![0u8, 0u8, 0u8, 0u8] + u64_le_bytes(txs@.len() as u64));
        }
        let mut i: usize = 0;
        while i < txs.len()
            invariant
                i <= txs@.len(),
                tv == txs_view(txs@),
                tv.len() == txs@.len(),
                forall|k: int| 0 <= k < tv.len() ==> tv[k] == txs@[k]@,
                out@ == mid + enc_txs_spec(tv.subrange(0, i as int)),
            decreases txs@.len() - i,
        {
            push_le8(&mut out, txs[i].len() as u64);
            crate::json_exec::push_all(&mut out, &txs[i]);
            proof {
                lemma_enc_txs_snoc(tv.subrange(0, i as int), tv[i as int]);
                assert(tv.subrange(0, i as int).push(tv[i as int]) =~= tv.subrange(
                    0,
                    i as int + 1,
                ));
                assert(out@ =~= mid + enc_txs_spec(tv.subrange(0, i as int + 1)));
            }
            i = i + 1;
        }
        proof {
            assert(tv.subrange(0, tv.len() as int) =~= tv);
            assert(out@ =~= enc_worker_message_spec(tv));
        }
        out
    }

    /// Decodes a worker store value, following the specification decoder
    /// exactly; any other layout is refused.
    pub fn decode(bytes: &Vec<u8>) -> (r: Option<WorkerMessage>)
        ensures
            (match (r, sp_dec_worker(bytes@)) {
                (Some(WorkerMessage::Batch(txs)), Some(m)) => txs_view(txs@) == m,
                (None, None) => true,
                _ => false,
            }),
    {
        if bytes.len() < 12 || bytes[0] != 0 || bytes[1] != 0 || bytes[2] != 0 || bytes[3] != 0 {
            return None;
        }
        let count = read_le8(bytes, 4);
        let mut txs: Vec<Vec<u8>> = Vec::new();
        let mut i: usize = 12;
        let mut done: u64 = 0;
        proof {
            assert(txs_view(txs@) =~= Seq::<Seq<u8>>::empty());
        }
        while done < count
            invariant
                12 <= i <= bytes@.len(),
                done <= count,
                count == le8_val(bytes@.subrange(4, 12)),
                sp_items(bytes@, 12, count as nat) == (match sp_items(
                    bytes@,
                    i as int,
                    (count - done) as nat,
                ) {
                    Some((rest, j)) => Some((txs_view(txs@) + rest, j)),
                    None => None::<(Seq<Seq<u8>>, int)>,
                }),
            decreases count - done,
        {
            if bytes.len() - i < 8 {
                return None;
            }
            let l = read_le8(bytes, i);
            let rem = (bytes.len() - (i + 8)) as u64;
            if l > rem {
                proof {
                    assert(i + 8 + le8_val(bytes@.subrange(i as int, i as int + 8))
                        > bytes@.len());
                }
                return None;
            }
            let ll = l as usize;
            let top = i + 8 + ll;
            let mut item: Vec<u8> = Vec::new();
            let mut k = i + 8;
            while k < top
                invariant
                    i + 8 <= k <= top,
                    top == i + 8 + ll,
                    top <= bytes@.len(),
                    item@ == bytes@.subrange(i as int + 8, k as int),
                decreases top - k,
            {
                item.push(bytes[k]);
                proof {
                    assert(item@ =~= bytes@.subrange(i as int + 8, k as int + 1));
                }
                k = k + 1;
            }
            let ghost prevtxs = txs_view(txs@);
            let ghost previ = i as int;
            txs.push(item);
            proof {
                assert(txs_view(txs@) =~= prevtxs.push(
                    bytes@.subrange(previ + 8, previ + 8 + ll),
                ));
                let l_spec = le8_val(bytes@.subrange(previ, previ + 8));
                assert(l_spec == l as nat);
                assert(prevtxs.push(bytes@.subrange(previ + 8, previ + 8 + ll)) =~= prevtxs + seq![
                    bytes@.subrange(previ + 8, previ + 8 + l_spec as int),
                ]);
            }
            i = i + 8 + ll;
            done = done + 1;
            proof {
                let rest_case = sp_items(bytes@, i as int, (count - done) as nat);
                assert(sp_items(bytes@, previ, (count - done + 1) as nat) == (match rest_case {
                    Some((rest, j)) => Some(
                        (seq![bytes@.subrange(previ + 8, i as int)] + rest, j),
                    ),
                    None => None::<(Seq<Seq<u8>>, int)>,
                }));
                match rest_case {
                    Some((rest, j)) => {
                        assert(txs_view(txs@) + rest =~= prevtxs + (seq![
                            bytes@.subrange(previ + 8, i as int),
                        ] + rest));
                    },
                    None => {},
                }
            }
        }
        proof {
            assert(sp_items(bytes@, i as int, 0) == Some((Seq::<Seq<u8>>::empty(), i as int)));
            assert(txs_view(txs@) + Seq::<Seq<u8>>::empty() =~= txs_view(txs@));
        }
        if i != bytes.len() {
            return None;
        }
        Some(WorkerMessage::Batch(txs))
    }
}

/// Concatenation of byte strings is associative.
proof fn lemma_bytes_assoc(a: Seq<u8>, b: Seq<u8>, c: Seq<u8>)
    ensures
        a + (b + c) == (a + b) + c,
{
    assert(a + (b + c) =~= (a + b) + c);
}

/// A single transaction renders as its length and bytes.
proof fn lemma_enc_txs_single(t: Seq<u8>)
    ensures
        enc_txs_spec(seq![t]) == u64_le_bytes(t.len() as u64) + t,
{
    let one = seq![t];
    assert(one.drop_first() =~= Seq::<Seq<u8>>::empty());
    assert(enc_txs_spec(one.drop_first()) == Seq::<u8>::empty());
    assert(enc_txs_spec(one) == u64_le_bytes(t.len() as u64) + t + enc_txs_spec(one.drop_first()));
    assert(u64_le_bytes(t.len() as u64) + t + Seq::<u8>::empty() =~= u64_le_bytes(t.len() as u64)
        + t);
}

/// Appending one transaction to the rendering appends its length and bytes.
proof fn lemma_enc_txs_snoc(txs: Seq<Seq<u8>>, t: Seq<u8>)
    ensures
        enc_txs_spec(txs.push(t)) == enc_txs_spec(txs) + u64_le_bytes(t.len() as u64) + t,
    decreases txs.len(),
{
    if txs.len() == 0 {
        assert(txs.push(t) =~= seq![t]);
        lemma_enc_txs_single(t);
        assert(enc_txs_spec(txs) == Seq::<u8>::empty());
        assert(Seq::<u8>::empty() + u64_le_bytes(t.len() as u64) =~= u64_le_bytes(t.len() as u64));
    } else {
        lemma_enc_txs_snoc(txs.drop_first(), t);
        assert(txs.push(t).drop_first() =~= txs.drop_first().push(t));
        assert(txs.push(t)[0] == txs[0]);
        assert(txs.push(t).len() == txs.len() + 1);
        let h0 = u64_le_bytes(txs[0].len() as u64);
        let h1 = txs[0];
        let mid = enc_txs_spec(txs.drop_first());
        let lt = u64_le_bytes(t.len() as u64);
        assert(enc_txs_spec(txs.push(t)) == h0 + h1 + (mid + lt + t));
        assert(enc_txs_spec(txs) == h0 + h1 + mid);
        lemma_bytes_assoc(h0 + h1, mid + lt, t);
        lemma_bytes_assoc(h0 + h1, mid, lt);
        lemma_bytes_assoc(h0, h1, mid);
    }
}

} // verus!
