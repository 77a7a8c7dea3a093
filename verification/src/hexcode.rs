//! Lowercase hexadecimal encoding of byte strings and 256-bit quantities,
//! with the inversion lemmas the wire codec's round-trip law rests on.

use vstd::prelude::*;

use crate::types::{pad32, zero_bytes};

verus! {

/// The lowercase hex digit for a value below 16.
pub open spec fn hex_digit(n: u8) -> u8
    recommends
        n < 16,
{
    if n < 10 {
        (48 + n) as u8
    } else {
        (87 + n) as u8
    }
}

/// Whether `c` is an ASCII hex digit (either case).
pub open spec fn is_hex(c: u8) -> bool {
    (48 <= c <= 57) || (97 <= c <= 102) || (65 <= c <= 70)
}

/// The value of an ASCII hex digit.
pub open spec fn hex_val(c: u8) -> u8
    recommends
        is_hex(c),
{
    if 48 <= c <= 57 {
        (c - 48) as u8
    } else if 97 <= c <= 102 {
        (c - 87) as u8
    } else {
        (c - 55) as u8
    }
}

/// Two hex digits per byte, most significant first.
pub open spec fn bytes_to_hex(s: Seq<u8>) -> Seq<u8>
    decreases s.len(),
{
    if s.len() == 0 {
        Seq::empty()
    } else {
        bytes_to_hex(s.drop_last()) + seq![hex_digit(s.last() / 16), hex_digit(s.last() % 16)]
    }
}

/// Decodes an even number of hex digits into bytes; `None` on an odd count
/// or any non-digit.
pub open spec fn hex_to_bytes(d: Seq<u8>) -> Option<Seq<u8>>
    decreases d.len(),
{
    if d.len() == 0 {
        Some(Seq::empty())
    } else if d.len() == 1 {
        None
    } else if !is_hex(d[d.len() - 2]) || !is_hex(d[d.len() - 1]) {
        None
    } else {
        match hex_to_bytes(d.drop_last().drop_last()) {
            Some(rest) => Some(
                rest + seq![(hex_val(d[d.len() - 2]) * 16 + hex_val(d[d.len() - 1])) as u8],
            ),
            None => None,
        }
    }
}

/// Every emitted digit is a digit, and decoding undoes encoding.
pub proof fn lemma_hex_round_trip(s: Seq<u8>)
    ensures
        bytes_to_hex(s).len() == 2 * s.len(),
        hex_to_bytes(bytes_to_hex(s)) == Some(s),
    decreases s.len(),
{
    if s.len() == 0 {
        assert(hex_to_bytes(bytes_to_hex(s)) == Some(s));
    } else {
        lemma_hex_round_trip(s.drop_last());
        let d = bytes_to_hex(s);
        let hi = hex_digit(s.last() / 16);
        let lo = hex_digit(s.last() % 16);
        assert(d == bytes_to_hex(s.drop_last()) + seq![hi, lo]);
        assert(d.drop_last().drop_last() =~= bytes_to_hex(s.drop_last()));
        assert(is_hex(hi) && is_hex(lo));
        assert(hex_val(hi) == s.last() / 16 && hex_val(lo) == s.last() % 16);
        assert((hex_val(hi) * 16 + hex_val(lo)) as u8 == s.last());
        assert(hex_to_bytes(d) == Some(s.drop_last() + seq![s.last()]));
        assert(s.drop_last() + seq![s.last()] =~= s);
    }
}

/// A successful hex decode yields one byte per digit pair.
pub proof fn lemma_hex_to_bytes_len(d: Seq<u8>)
    ensures
        hex_to_bytes(d) is Some ==> 2 * hex_to_bytes(d).unwrap().len() == d.len(),
    decreases d.len(),
{
    if d.len() >= 2 {
        lemma_hex_to_bytes_len(d.drop_last().drop_last());
    }
}

/// Every byte the hex encoder emits is a hex digit.
pub proof fn lemma_hex_all_digits(s: Seq<u8>)
    ensures
        forall|j: int| 0 <= j < bytes_to_hex(s).len() ==> is_hex(#[trigger] bytes_to_hex(s)[j]),
    decreases s.len(),
{
    if s.len() > 0 {
        lemma_hex_all_digits(s.drop_last());
        assert(bytes_to_hex(s) == bytes_to_hex(s.drop_last()) + seq![
            hex_digit(s.last() / 16),
            hex_digit(s.last() % 16),
        ]);
        assert(is_hex(hex_digit(s.last() / 16)));
        assert(is_hex(hex_digit(s.last() % 16)));
    }
}

/// Every byte the minimal quantity encoder emits is a hex digit.
pub proof fn lemma_qty_hex_all_digits(s: Seq<u8>)
    ensures
        forall|j: int| 0 <= j < qty_to_hex(s).len() ==> is_hex(#[trigger] qty_to_hex(s)[j]),
{
    let t = strip_zeros(s);
    if t.len() == 0 {
        assert(is_hex(qty_to_hex(s)[0]));
    } else if t[0] < 16 {
        lemma_hex_all_digits(t.drop_first());
        assert(qty_to_hex(s) == seq![hex_digit(t[0])] + bytes_to_hex(t.drop_first()));
        assert(is_hex(hex_digit(t[0])));
        assert forall|j: int| 0 <= j < qty_to_hex(s).len() implies is_hex(
            #[trigger] qty_to_hex(s)[j],
        ) by {
            if j > 0 {
                assert(qty_to_hex(s)[j] == bytes_to_hex(t.drop_first())[j - 1]);
            }
        }
    } else {
        lemma_hex_all_digits(t);
    }
}

/// `s` with its leading zero bytes removed.
pub open spec fn strip_zeros(s: Seq<u8>) -> Seq<u8>
    decreases s.len(),
{
    if s.len() == 0 {
        s
    } else if s[0] == 0 {
        strip_zeros(s.drop_first())
    } else {
        s
    }
}

/// Stripping removes exactly the leading zeroes.
pub proof fn lemma_strip_zeros(s: Seq<u8>)
    ensures
        strip_zeros(s).len() <= s.len(),
        s =~= zero_bytes((s.len() - strip_zeros(s).len()) as nat) + strip_zeros(s),
        strip_zeros(s).len() > 0 ==> strip_zeros(s)[0] != 0,
    decreases s.len(),
{
    if s.len() == 0 {
    } else if s[0] == 0 {
        lemma_strip_zeros(s.drop_first());
        assert(s =~= seq![s[0]] + s.drop_first());
        assert(seq![0u8] + zero_bytes((s.len() - 1 - strip_zeros(s.drop_first()).len()) as nat)
            =~= zero_bytes((s.len() - strip_zeros(s.drop_first()).len()) as nat));
    } else {
        assert(s =~= zero_bytes(0) + s);
    }
}

/// The minimal-length hex rendering of a 32-byte quantity: no leading zero
/// digit, and a single `0` for zero.
pub open spec fn qty_to_hex(s: Seq<u8>) -> Seq<u8> {
    let t = strip_zeros(s);
    if t.len() == 0 {
        seq![48u8]
    } else if t[0] < 16 {
        seq![hex_digit(t[0])] + bytes_to_hex(t.drop_first())
    } else {
        bytes_to_hex(t)
    }
}

/// Decodes 1 to 64 hex digits (leading zeroes allowed) into a 32-byte
/// quantity; `None` otherwise.
pub open spec fn qty_from_hex(d: Seq<u8>) -> Option<Seq<u8>> {
    if d.len() < 1 || d.len() > 64 {
        None
    } else if d.len() % 2 == 1 {
        if !is_hex(d[0]) {
            None
        } else {
            match hex_to_bytes(d.drop_first()) {
                Some(rest) => Some(pad32(seq![hex_val(d[0])] + rest)),
                None => None,
            }
        }
    } else {
        match hex_to_bytes(d) {
            Some(b) => Some(pad32(b)),
            None => None,
        }
    }
}

/// Decoding undoes the minimal hex rendering of any 32-byte quantity.
pub proof fn lemma_qty_round_trip(s: Seq<u8>)
    requires
        s.len() == 32,
    ensures
        qty_from_hex(qty_to_hex(s)) == Some(s),
{
    let t = strip_zeros(s);
    lemma_strip_zeros(s);
    if t.len() == 0 {
        let d = qty_to_hex(s);
        assert(d == seq![48u8]);
        assert(is_hex(48u8) && hex_val(48u8) == 0);
        assert(d.drop_first() =~= Seq::<u8>::empty());
        assert(hex_to_bytes(d.drop_first()) == Some(Seq::<u8>::empty()));
        assert(seq![0u8] + Seq::<u8>::empty() =~= seq![0u8]);
        assert(qty_from_hex(d) == Some(pad32(seq![0u8])));
        assert(pad32(seq![0u8]) =~= s);
    } else if t[0] < 16 {
        let d = qty_to_hex(s);
        lemma_hex_round_trip(t.drop_first());
        assert(d == seq![hex_digit(t[0])] + bytes_to_hex(t.drop_first()));
        assert(d.len() == 1 + 2 * (t.len() - 1));
        assert(d.len() % 2 == 1);
        assert(d[0] == hex_digit(t[0]));
        assert(is_hex(d[0]) && hex_val(d[0]) == t[0]);
        assert(d.drop_first() =~= bytes_to_hex(t.drop_first()));
        assert(hex_to_bytes(d.drop_first()) == Some(t.drop_first()));
        assert(seq![t[0]] + t.drop_first() =~= t);
        assert(qty_from_hex(d) == Some(pad32(t)));
        assert(pad32(t) =~= s);
    } else {
        let d = qty_to_hex(s);
        lemma_hex_round_trip(t);
        assert(d == bytes_to_hex(t));
        assert(d.len() == 2 * t.len());
        assert(d.len() % 2 == 0 && 1 <= d.len() <= 64);
        assert(hex_to_bytes(d) == Some(t));
        assert(qty_from_hex(d) == Some(pad32(t)));
        assert(pad32(t) =~= s);
    }
}

/// The decimal digits of a natural number.
pub open spec fn dec_digits(n: nat) -> Seq<u8>
    decreases n,
{
    if n < 10 {
        seq![(48 + n) as u8]
    } else {
        dec_digits(n / 10) + seq![(48 + n % 10) as u8]
    }
}

/// Renders a byte as two lowercase hex digits onto `out`.
fn push_hex_byte(out: &mut Vec<u8>, b: u8)
    ensures
        final(out)@ == old(out)@ + seq![hex_digit(b / 16), hex_digit(b % 16)],
{
    let hi = b / 16;
    let lo = b % 16;
    out.push(if hi < 10 { 48 + hi } else { 87 + hi });
    out.push(if lo < 10 { 48 + lo } else { 87 + lo });
    proof {
        assert(out@ =~= old(out)@ + seq![hex_digit(b / 16), hex_digit(b % 16)]);
    }
}

/// Renders `v[from..]` as lowercase hex onto `out`.
pub fn push_hex(out: &mut Vec<u8>, v: &Vec<u8>, from: usize)
    requires
        from <= v@.len(),
    ensures
        final(out)@ == old(out)@ + bytes_to_hex(v@.skip(from as int)),
{
    let ghost tail = v@.skip(from as int);
    let mut i: usize = from;
    while i < v.len()
        invariant
            from <= i <= v@.len(),
            tail == v@.skip(from as int),
            out@ == old(out)@ + bytes_to_hex(v@.subrange(from as int, i as int)),
        decreases v@.len() - i,
    {
        push_hex_byte(out, v[i]);
        proof {
            let cur = v@.subrange(from as int, (i + 1) as int);
            assert(cur.drop_last() =~= v@.subrange(from as int, i as int));
            assert(cur.last() == v@[i as int]);
        }
        i = i + 1;
    }
    proof {
        assert(v@.subrange(from as int, v@.len() as int) =~= v@.skip(from as int));
    }
}

/// Renders the minimal hex form of a 32-byte quantity onto `out`.
pub fn push_qty_hex(out: &mut Vec<u8>, v: &Vec<u8>)
    requires
        v@.len() == 32,
    ensures
        final(out)@ == old(out)@ + qty_to_hex(v@),
{
    let ghost t = strip_zeros(v@);
    proof {
        lemma_strip_zeros(v@);
        assert(v@.skip(0) =~= v@);
    }
    let mut k: usize = 0;
    while k < v.len() && v[k] == 0
        invariant
            k <= v@.len(),
            v@.len() == 32,
            forall|j: int| 0 <= j < k ==> v@[j] == 0,
            strip_zeros(v@.skip(k as int)) == t,
        decreases v@.len() - k,
    {
        proof {
            assert(v@.skip(k as int)[0] == v@[k as int]);
            assert(v@.skip(k as int).drop_first() =~= v@.skip((k + 1) as int));
        }
        k = k + 1;
    }
    proof {
        if k < v@.len() {
            assert(v@.skip(k as int)[0] == v@[k as int]);
            assert(v@.skip(k as int)[0] != 0);
        } else {
            assert(v@.skip(k as int) =~= Seq::<u8>::empty());
        }
        assert(t == v@.skip(k as int));
    }
    if k == v.len() {
        out.push(48u8);
        proof {
            assert(out@ =~= old(out)@ + qty_to_hex(v@));
        }
    } else if v[k] < 16 {
        let d = v[k];
        out.push(if d < 10 { 48 + d } else { 87 + d });
        push_hex(out, v, k + 1);
        proof {
            assert(v@.skip((k + 1) as int) =~= t.drop_first());
            assert(out@ =~= old(out)@ + qty_to_hex(v@));
        }
    } else {
        push_hex(out, v, k);
        proof {
            assert(out@ =~= old(out)@ + qty_to_hex(v@));
        }
    }
}

/// Renders the decimal digits of `n` onto `out`.
pub fn push_decimal(out: &mut Vec<u8>, n: u64)
    ensures
        final(out)@ == old(out)@ + dec_digits(n as nat),
    decreases n,
{
    if n < 10 {
        out.push(48 + (n as u8));
        proof {
            assert(out@ =~= old(out)@ + dec_digits(n as nat));
        }
    } else {
        push_decimal(out, n / 10);
        out.push(48 + ((n % 10) as u8));
        proof {
            assert(out@ =~= old(out)@ + dec_digits(n as nat));
        }
    }
}

} // verus!
