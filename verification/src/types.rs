//! Plain value types shared across the ledger: addresses, 256-bit words and
//! batch digests, all carried as fixed-width big-endian byte vectors.

use vstd::prelude::*;

verus! {

/// A 20-byte account address.
#[derive(Clone, Debug, PartialEq, Eq)]
pub struct Address {
    pub bytes: Vec<u8>,
}

impl View for Address {
    type V = Seq<u8>;

    open spec fn view(&self) -> Seq<u8> {
        self.bytes@
    }
}

impl Address {
    /// An address is exactly 20 bytes.
    pub open spec fn wf(&self) -> bool {
        self@.len() == 20
    }

    /// Builds an address from raw bytes; rejects any length but 20.
    pub fn from_bytes(bytes: Vec<u8>) -> (r: Option<Address>)
        ensures
            match r {
                Some(a) => a.wf() && a@ == bytes@,
                None => bytes@.len() != 20,
            },
    {
        if bytes.len() == 20 {
            Some(Address { bytes })
        } else {
            None
        }
    }

    /// The all-zero address, used as the default caller.
    pub fn zero() -> (r: Address)
        ensures
            r.wf(),
            r@ == zero_bytes(20),
    {
        let mut bytes: Vec<u8> = Vec::new();
        let mut i: usize = 0;
        while i < 20
            invariant
                i <= 20,
                bytes@ =~= zero_bytes(i as nat),
            decreases 20 - i,
        {
            bytes.push(0u8);
            proof {
                assert(bytes@ =~= zero_bytes((i + 1) as nat));
            }
            i = i + 1;
        }
        Address { bytes }
    }
}

/// A 256-bit unsigned word, stored as 32 big-endian bytes. Used for balances,
/// transferred values and log topics.
#[derive(Clone, Debug, PartialEq, Eq)]
pub struct U256 {
    pub be: Vec<u8>,
}

impl View for U256 {
    type V = Seq<u8>;

    open spec fn view(&self) -> Seq<u8> {
        self.be@
    }
}

/// A sequence of `n` zero bytes.
pub open spec fn zero_bytes(n: nat) -> Seq<u8> {
    Seq::new(n, |i: int| 0u8)
}

/// `s` left-padded with zero bytes up to 32 bytes; the well-formed encoding
/// of any quantity that fits in 256 bits.
pub open spec fn pad32(s: Seq<u8>) -> Seq<u8>
    recommends
        s.len() <= 32,
{
    zero_bytes((32 - s.len()) as nat) + s
}

impl U256 {
    /// A word is exactly 32 bytes.
    pub open spec fn wf(&self) -> bool {
        self@.len() == 32
    }

    /// The zero word.
    pub fn zero() -> (r: U256)
        ensures
            r.wf(),
            r@ == zero_bytes(32),
    {
        let mut be: Vec<u8> = Vec::new();
        let mut i: usize = 0;
        while i < 32
            invariant
                i <= 32,
                be@ =~= zero_bytes(i as nat),
            decreases 32 - i,
        {
            be.push(0u8);
            proof {
                assert(be@ =~= zero_bytes((i + 1) as nat));
            }
            i = i + 1;
        }
        U256 { be }
    }

    /// Builds a word from up to 32 big-endian bytes, left-padding with
    /// zeroes; rejects longer inputs.
    pub fn from_be_bytes(bytes: &Vec<u8>) -> (r: Option<U256>)
        ensures
            match r {
                Some(w) => w.wf() && w@ == pad32(bytes@),
                None => bytes@.len() > 32,
            },
    {
        if bytes.len() > 32 {
            return None;
        }
        let mut be: Vec<u8> = Vec::new();
        let pad: usize = 32 - bytes.len();
        let mut i: usize = 0;
        while i < pad
            invariant
                i <= pad,
                be@ =~= zero_bytes(i as nat),
            decreases pad - i,
        {
            be.push(0u8);
            proof {
                assert(be@ =~= zero_bytes((i + 1) as nat));
            }
            i = i + 1;
        }
        let mut j: usize = 0;
        while j < bytes.len()
            invariant
                j <= bytes@.len(),
                bytes@.len() + pad == 32,
                be@ =~= zero_bytes(pad as nat) + bytes@.subrange(0, j as int),
            decreases bytes@.len() - j,
        {
            be.push(bytes[j]);
            proof {
                assert(be@ =~= zero_bytes(pad as nat) + bytes@.subrange(0, (j + 1) as int));
            }
            j = j + 1;
        }
        proof {
            assert(bytes@.subrange(0, bytes@.len() as int) =~= bytes@);
            assert(be@ =~= pad32(bytes@));
        }
        Some(U256 { be })
    }

    /// Builds the word for a small quantity given as a `u64`.
    pub fn from_u64(x: u64) -> (r: U256)
        ensures
            r.wf(),
            r@ == pad32(u64_be_bytes(x)),
    {
        let b = u64_to_be_bytes(x);
        let r = U256::from_be_bytes(&b);
        r.unwrap()
    }
}

/// The 8 big-endian bytes of a `u64`.
pub open spec fn u64_be_bytes(x: u64) -> Seq<u8> {
    seq![
        (x / 0x100000000000000) as u8,
        ((x / 0x1000000000000) % 0x100) as u8,
        ((x / 0x10000000000) % 0x100) as u8,
        ((x / 0x100000000) % 0x100) as u8,
        ((x / 0x1000000) % 0x100) as u8,
        ((x / 0x10000) % 0x100) as u8,
        ((x / 0x100) % 0x100) as u8,
        (x % 0x100) as u8,
    ]
}

/// Splits a `u64` into its 8 big-endian bytes.
pub fn u64_to_be_bytes(x: u64) -> (r: Vec<u8>)
    ensures
        r@ == u64_be_bytes(x),
{
    let mut r: Vec<u8> = Vec::new();
    r.push((x / 0x100000000000000) as u8);
    r.push(((x / 0x1000000000000) % 0x100) as u8);
    r.push(((x / 0x10000000000) % 0x100) as u8);
    r.push(((x / 0x100000000) % 0x100) as u8);
    r.push(((x / 0x1000000) % 0x100) as u8);
    r.push(((x / 0x10000) % 0x100) as u8);
    r.push(((x / 0x100) % 0x100) as u8);
    r.push((x % 0x100) as u8);
    proof {
        assert(r@ =~= u64_be_bytes(x));
    }
    r
}

/// The 16 big-endian bytes of a `u128`.
pub open spec fn u128_be_bytes(x: u128) -> Seq<u8> {
    u64_be_bytes((x / 0x10000000000000000) as u64) + u64_be_bytes((x % 0x10000000000000000) as u64)
}

/// Whether the first `n` bytes of a 32-byte word are zero, so that the rest
/// fits a machine integer.
pub open spec fn leading_zeros(q: Seq<u8>, n: int) -> bool {
    forall|j: int| 0 <= j < n ==> q[j] == 0
}

impl U256 {
    /// Whether the word fits a `u64`.
    pub fn fits_u64(&self) -> (r: bool)
        requires
            self.wf(),
        ensures
            r == leading_zeros(self@, 24),
    {
        let mut i: usize = 0;
        while i < 24
            invariant
                i <= 24,
                self@.len() == 32,
                forall|j: int| 0 <= j < i ==> self@[j] == 0,
            decreases 24 - i,
        {
            if self.be[i] != 0 {
                return false;
            }
            i = i + 1;
        }
        true
    }

    /// Whether the word fits a `u128`.
    pub fn fits_u128(&self) -> (r: bool)
        requires
            self.wf(),
        ensures
            r == leading_zeros(self@, 16),
    {
        let mut i: usize = 0;
        while i < 16
            invariant
                i <= 16,
                self@.len() == 32,
                forall|j: int| 0 <= j < i ==> self@[j] == 0,
            decreases 16 - i,
        {
            if self.be[i] != 0 {
                return false;
            }
            i = i + 1;
        }
        true
    }

    /// The low 8 bytes as a `u64`; exact when the word fits.
    pub fn low_u64(&self) -> (r: u64)
        requires
            self.wf(),
        ensures
            u64_be_bytes(r) == self@.skip(24),
    {
        let b0 = self.be[24];
        let b1 = self.be[25];
        let b2 = self.be[26];
        let b3 = self.be[27];
        let b4 = self.be[28];
        let b5 = self.be[29];
        let b6 = self.be[30];
        let b7 = self.be[31];
        let r = ((b0 as u64) << 56) | ((b1 as u64) << 48) | ((b2 as u64) << 40) | ((b3 as u64)
            << 32) | ((b4 as u64) << 24) | ((b5 as u64) << 16) | ((b6 as u64) << 8) | (b7 as u64);
        proof {
            lemma_u64_bytes(b0, b1, b2, b3, b4, b5, b6, b7);
            assert(u64_be_bytes(r) =~= self@.skip(24));
        }
        r
    }

    /// The low 16 bytes as a `u128`; exact when the word fits.
    pub fn low_u128(&self) -> (r: u128)
        requires
            self.wf(),
        ensures
            u128_be_bytes(r) == self@.skip(16),
    {
        let hi: u64 = {
            let b0 = self.be[16];
            let b1 = self.be[17];
            let b2 = self.be[18];
            let b3 = self.be[19];
            let b4 = self.be[20];
            let b5 = self.be[21];
            let b6 = self.be[22];
            let b7 = self.be[23];
            let h = ((b0 as u64) << 56) | ((b1 as u64) << 48) | ((b2 as u64) << 40) | ((b3 as u64)
                << 32) | ((b4 as u64) << 24) | ((b5 as u64) << 16) | ((b6 as u64) << 8) | (b7
                as u64);
            proof {
                lemma_u64_bytes(b0, b1, b2, b3, b4, b5, b6, b7);
            }
            h
        };
        let lo = self.low_u64();
        let r = ((hi as u128) << 64) | (lo as u128);
        proof {
            lemma_u128_split(hi, lo);
            assert(u128_be_bytes(r) =~= u64_be_bytes(hi) + u64_be_bytes(lo));
            assert(u64_be_bytes(hi) =~= self@.subrange(16, 24));
            assert(u128_be_bytes(r) =~= self@.skip(16));
        }
        r
    }
}

/// Appends all of `v` onto `out`.
pub fn copy_into(out: &mut Vec<u8>, v: &Vec<u8>)
    ensures
        final(out)@ == old(out)@ + v@,
{
    let mut i: usize = 0;
    while i < v.len()
        invariant
            i <= v@.len(),
            out@ == old(out)@ + v@.subrange(0, i as int),
        decreases v@.len() - i,
    {
        out.push(v[i]);
        proof {
            assert(out@ =~= old(out)@ + v@.subrange(0, i as int + 1));
        }
        i = i + 1;
    }
    proof {
        assert(v@.subrange(0, v@.len() as int) =~= v@);
        assert(out@ =~= old(out)@ + v@);
    }
}

/// Copies a byte string.
pub fn copy_bytes(v: &Vec<u8>) -> (r: Vec<u8>)
    ensures
        r@ == v@,
{
    let mut r: Vec<u8> = Vec::new();
    copy_into(&mut r, v);
    proof {
        assert(Seq::<u8>::empty() + v@ =~= v@);
    }
    r
}

/// The big-endian bytes of a packed `u64` are its pieces.
proof fn lemma_u64_bytes(b0: u8, b1: u8, b2: u8, b3: u8, b4: u8, b5: u8, b6: u8, b7: u8)
    ensures
        ({
            let r = ((b0 as u64) << 56) | ((b1 as u64) << 48) | ((b2 as u64) << 40) | ((b3 as u64)
                << 32) | ((b4 as u64) << 24) | ((b5 as u64) << 16) | ((b6 as u64) << 8) | (b7
                as u64);
            u64_be_bytes(r) == seq![b0, b1, b2, b3, b4, b5, b6, b7]
        }),
{
    let r = ((b0 as u64) << 56) | ((b1 as u64) << 48) | ((b2 as u64) << 40) | ((b3 as u64) << 32)
        | ((b4 as u64) << 24) | ((b5 as u64) << 16) | ((b6 as u64) << 8) | (b7 as u64);
    assert((r / 0x100000000000000) as u8 == b0) by (bit_vector)
        requires
            r == ((b0 as u64) << 56) | ((b1 as u64) << 48) | ((b2 as u64) << 40) | ((b3 as u64)
                << 32) | ((b4 as u64) << 24) | ((b5 as u64) << 16) | ((b6 as u64) << 8) | (b7
                as u64),
    ;
    assert(((r / 0x1000000000000) % 0x100) as u8 == b1) by (bit_vector)
        requires
            r == ((b0 as u64) << 56) | ((b1 as u64) << 48) | ((b2 as u64) << 40) | ((b3 as u64)
                << 32) | ((b4 as u64) << 24) | ((b5 as u64) << 16) | ((b6 as u64) << 8) | (b7
                as u64),
    ;
    assert(((r / 0x10000000000) % 0x100) as u8 == b2) by (bit_vector)
        requires
            r == ((b0 as u64) << 56) | ((b1 as u64) << 48) | ((b2 as u64) << 40) | ((b3 as u64)
                << 32) | ((b4 as u64) << 24) | ((b5 as u64) << 16) | ((b6 as u64) << 8) | (b7
                as u64),
    ;
    assert(((r / 0x100000000) % 0x100) as u8 == b3) by (bit_vector)
        requires
            r == ((b0 as u64) << 56) | ((b1 as u64) << 48) | ((b2 as u64) << 40) | ((b3 as u64)
                << 32) | ((b4 as u64) << 24) | ((b5 as u64) << 16) | ((b6 as u64) << 8) | (b7
                as u64),
    ;
    assert(((r / 0x1000000) % 0x100) as u8 == b4) by (bit_vector)
        requires
            r == ((b0 as u64) << 56) | ((b1 as u64) << 48) | ((b2 as u64) << 40) | ((b3 as u64)
                << 32) | ((b4 as u64) << 24) | ((b5 as u64) << 16) | ((b6 as u64) << 8) | (b7
                as u64),
    ;
    assert(((r / 0x10000) % 0x100) as u8 == b5) by (bit_vector)
        requires
            r == ((b0 as u64) << 56) | ((b1 as u64) << 48) | ((b2 as u64) << 40) | ((b3 as u64)
                << 32) | ((b4 as u64) << 24) | ((b5 as u64) << 16) | ((b6 as u64) << 8) | (b7
                as u64),
    ;
    assert(((r / 0x100) % 0x100) as u8 == b6) by (bit_vector)
        requires
            r == ((b0 as u64) << 56) | ((b1 as u64) << 48) | ((b2 as u64) << 40) | ((b3 as u64)
                << 32) | ((b4 as u64) << 24) | ((b5 as u64) << 16) | ((b6 as u64) << 8) | (b7
                as u64),
    ;
    assert((r % 0x100) as u8 == b7) by (bit_vector)
        requires
            r == ((b0 as u64) << 56) | ((b1 as u64) << 48) | ((b2 as u64) << 40) | ((b3 as u64)
                << 32) | ((b4 as u64) << 24) | ((b5 as u64) << 16) | ((b6 as u64) << 8) | (b7
                as u64),
    ;
    assert(u64_be_bytes(r) =~= seq![b0, b1, b2, b3, b4, b5, b6, b7]);
}

/// Packing two `u64` halves into a `u128` concatenates their bytes.
proof fn lemma_u128_split(hi: u64, lo: u64)
    ensures
        ({
            let r = ((hi as u128) << 64) | (lo as u128);
            (r / 0x10000000000000000) as u64 == hi && (r % 0x10000000000000000) as u64 == lo
        }),
{
    let r = ((hi as u128) << 64) | (lo as u128);
    assert((r / 0x10000000000000000) as u64 == hi) by (bit_vector)
        requires
            r == ((hi as u128) << 64) | (lo as u128),
    ;
    assert((r % 0x10000000000000000) as u64 == lo) by (bit_vector)
        requires
            r == ((hi as u128) << 64) | (lo as u128),
    ;
}

/// A 32-byte digest keying a batch in a worker store.
#[derive(Clone, Debug, PartialEq, Eq)]
pub struct Digest {
    pub bytes: Vec<u8>,
}

impl View for Digest {
    type V = Seq<u8>;

    open spec fn view(&self) -> Seq<u8> {
        self.bytes@
    }
}

impl Digest {
    /// A digest is exactly 32 bytes.
    pub open spec fn wf(&self) -> bool {
        self@.len() == 32
    }

    /// Builds a digest from raw bytes; rejects any length but 32.
    pub fn from_bytes(bytes: Vec<u8>) -> (r: Option<Digest>)
        ensures
            match r {
                Some(d) => d.wf() && d@ == bytes@,
                None => bytes@.len() != 32,
            },
    {
        if bytes.len() == 32 {
            Some(Digest { bytes })
        } else {
            None
        }
    }
}

} // verus!
