//! Bit sequences: endian-aware encoding of unsigned scalars into bits, and
//! the append-only bit sink that packs accumulated bits into bytes,
//! most-significant-bit first.

use vstd::prelude::*;
use vstd::arithmetic::power2::{
    lemma2_to64, lemma2_to64_rest, lemma_pow2_adds, lemma_pow2_pos, lemma_pow2_strictly_increases,
    lemma_pow2_unfold, pow2,
};
use crate::error::Error;

verus! {

/// The byte order used when a scalar wider than one byte is emitted.
#[derive(Clone, Copy, Debug, PartialEq, Eq, Structural)]
pub enum Endian {
    Big,
    Little,
}

/// The low `w` bits of `v`, most significant bit first.
pub open spec fn be_bits(v: nat, w: nat) -> Seq<bool>
    decreases w,
{
    if w == 0 {
        Seq::empty()
    } else {
        be_bits(v / 2, (w - 1) as nat).push(v % 2 == 1)
    }
}

/// The low `w` bits of `v` in little-endian byte order: the least significant
/// byte comes first, each byte most significant bit first. When `w` is not a
/// multiple of eight, the final group carries the remaining high-order bits.
pub open spec fn le_bits(v: nat, w: nat) -> Seq<bool>
    decreases w,
{
    if w <= 8 {
        be_bits(v, w)
    } else {
        be_bits(v % 256, 8) + le_bits(v / 256, (w - 8) as nat)
    }
}

/// The bit encoding of `v` in width `w` under byte order `e`.
pub open spec fn uint_bits(v: nat, w: nat, e: Endian) -> Seq<bool> {
    match e {
        Endian::Big => be_bits(v, w),
        Endian::Little => le_bits(v, w),
    }
}

/// What encoding a scalar into `w` bits returns: the bit sequence when the
/// value fits the width, and a codec error otherwise. A value that needs
/// more bits than the declared width fails; it is never silently truncated.
pub open spec fn spec_encode_uint(v: u64, w: nat, e: Endian) -> Result<Seq<bool>, Error> {
    if (v as nat) < pow2(w) {
        Ok(uint_bits(v as nat, w, e))
    } else {
        Err(Error::Codec)
    }
}

/// An encoded scalar occupies exactly its width.
pub proof fn lemma_be_bits_len(v: nat, w: nat)
    ensures
        be_bits(v, w).len() == w,
    decreases w,
{
    if w > 0 {
        lemma_be_bits_len(v / 2, (w - 1) as nat);
    }
}

/// An encoded scalar occupies exactly its width in either byte order.
pub proof fn lemma_uint_bits_len(v: nat, w: nat, e: Endian)
    ensures
        uint_bits(v, w, e).len() == w,
    decreases w,
{
    match e {
        Endian::Big => lemma_be_bits_len(v, w),
        Endian::Little => {
            if w <= 8 {
                lemma_be_bits_len(v, w);
            } else {
                lemma_be_bits_len(v % 256, 8);
                lemma_uint_bits_len(v / 256, (w - 8) as nat, e);
            }
        }
    }
}

/// Computes two to the power `w` as a machine word.
pub fn pow2_u64(w: usize) -> (r: u64)
    requires
        w <= 63,
    ensures
        r as nat == pow2(w as nat),
{
    let mut r: u64 = 1;
    let mut i: usize = 0;
    proof {
        lemma2_to64();
    }
    while i < w
        invariant
            i <= w,
            w <= 63,
            r as nat == pow2(i as nat),
        decreases w - i,
    {
        proof {
            lemma2_to64();
            lemma2_to64_rest();
            if (i as nat) < 62 {
                lemma_pow2_strictly_increases(i as nat, 62);
            }
            lemma_pow2_unfold((i + 1) as nat);
        }
        r = r * 2;
        i = i + 1;
    }
    r
}

/// Encodes the low `w` bits of `v`, most significant bit first.
pub fn encode_be(v: u64, w: usize) -> (r: Vec<bool>)
    requires
        w <= 64,
    ensures
        r@ == be_bits(v as nat, w as nat),
    decreases w,
{
    if w == 0 {
        Vec::new()
    } else {
        let mut r = encode_be(v / 2, w - 1);
        r.push(v % 2 == 1);
        r
    }
}

/// Encodes the low `w` bits of `v` in little-endian byte order.
pub fn encode_le(v: u64, w: usize) -> (r: Vec<bool>)
    requires
        w <= 64,
    ensures
        r@ == le_bits(v as nat, w as nat),
    decreases w,
{
    if w <= 8 {
        encode_be(v, w)
    } else {
        let mut r = encode_be(v % 256, 8);
        let mut rest = encode_le(v / 256, w - 8);
        r.append(&mut rest);
        r
    }
}

/// Encodes `v` into exactly `w` bits under byte order `e`, failing with a
/// codec error when `v` does not fit the width.
pub fn encode_uint(v: u64, w: usize, e: Endian) -> (r: Result<Vec<bool>, Error>)
    requires
        1 <= w && w <= 64,
    ensures
        match r {
            Ok(b) => spec_encode_uint(v, w as nat, e) == Ok::<Seq<bool>, Error>(b@),
            Err(err) => spec_encode_uint(v, w as nat, e) == Err::<Seq<bool>, Error>(err),
        },
{
    let fits: bool = if w >= 64 {
        proof {
            lemma2_to64();
        }
        true
    } else {
        v < pow2_u64(w)
    };
    if fits {
        match e {
            Endian::Big => Ok(encode_be(v, w)),
            Endian::Little => Ok(encode_le(v, w)),
        }
    } else {
        Err(Error::Codec)
    }
}

/// The value of a bit string read most significant bit first.
pub open spec fn prefix_val(bits: Seq<bool>) -> nat
    decreases bits.len(),
{
    if bits.len() == 0 {
        0
    } else {
        prefix_val(bits.drop_last()) * 2 + (if bits.last() {
            1nat
        } else {
            0nat
        })
    }
}

/// The byte that a final, possibly short, chunk of at most eight bits packs
/// to: the bits sit in the high-order positions and the rest are zero.
pub open spec fn chunk_byte(bits: Seq<bool>) -> nat {
    prefix_val(bits) * pow2((8 - bits.len()) as nat)
}

/// The bytes that a bit sequence packs to, most significant bit first, the
/// final byte padded with zero bits when the length is not a multiple of
/// eight.
pub open spec fn bytes_of_bits(bits: Seq<bool>) -> Seq<u8>
    decreases bits.len(),
{
    if bits.len() == 0 {
        Seq::empty()
    } else if bits.len() < 8 {
        seq![chunk_byte(bits) as u8]
    } else {
        seq![chunk_byte(bits.take(8)) as u8] + bytes_of_bits(bits.skip(8))
    }
}

/// A bit string's value is bounded by two to the power of its length.
pub proof fn lemma_prefix_val_bound(bits: Seq<bool>)
    ensures
        prefix_val(bits) < pow2(bits.len()),
    decreases bits.len(),
{
    lemma2_to64();
    if bits.len() > 0 {
        lemma_prefix_val_bound(bits.drop_last());
        lemma_pow2_unfold(bits.len());
    }
}

/// A packed chunk of at most eight bits fits in one byte.
pub proof fn lemma_chunk_byte_bound(bits: Seq<bool>)
    requires
        bits.len() <= 8,
    ensures
        chunk_byte(bits) < 256,
{
    lemma_prefix_val_bound(bits);
    lemma_pow2_adds(bits.len(), (8 - bits.len()) as nat);
    lemma2_to64();
    lemma_pow2_pos((8 - bits.len()) as nat);
    let p = pow2((8 - bits.len()) as nat);
    let v = prefix_val(bits);
    assert((v + 1) * p <= pow2(bits.len()) * p) by (nonlinear_arith)
        requires
            v + 1 <= pow2(bits.len()),
            p >= 0,
    ;
    assert(v * p < (v + 1) * p) by (nonlinear_arith)
        requires
            p >= 1,
    ;
}

/// An append-only, growable sequence of bits: the sink that every field
/// writer emits into. It is created fresh per top-level write call and
/// finally packed into bytes.
pub struct BitSink {
    bits: Vec<bool>,
}

impl View for BitSink {
    type V = Seq<bool>;

    closed spec fn view(&self) -> Seq<bool> {
        self.bits@
    }
}

impl BitSink {
    /// An empty sink.
    pub fn new() -> (s: Self)
        ensures
            s@ == Seq::<bool>::empty(),
    {
        BitSink { bits: Vec::new() }
    }

    /// Appends a bit sequence, preserving order.
    pub fn extend(&mut self, mut more: Vec<bool>)
        ensures
            final(self)@ == old(self)@ + more@,
    {
        self.bits.append(&mut more);
    }

    /// How many bits the sink holds.
    pub fn len(&self) -> (n: usize)
        ensures
            n == self@.len(),
    {
        self.bits.len()
    }

    /// The bit at position `i`, counted from the first bit appended.
    pub fn get(&self, i: usize) -> (b: bool)
        requires
            i < self@.len(),
        ensures
            b == self@[i as int],
    {
        self.bits[i]
    }

    /// Consumes the sink and hands its bits out as a plain vector.
    pub fn into_bits(self) -> (r: Vec<bool>)
        ensures
            r@ == self@,
    {
        self.bits
    }

    /// Packs the accumulated bits into bytes, most significant bit first,
    /// padding the final byte with zero bits when the total length is not a
    /// multiple of eight.
    pub fn into_bytes(self) -> (r: Vec<u8>)
        ensures
            r@ == bytes_of_bits(self@),
    {
        proof {
            assert(self.bits@.skip(0) =~= self.bits@);
        }
        pack_bits(&self.bits, 0)
    }
}

/// Packs the bits from position `i` on into bytes, eight at a time.
fn pack_bits(bits: &Vec<bool>, i: usize) -> (r: Vec<u8>)
    requires
        i <= bits@.len(),
    ensures
        r@ == bytes_of_bits(bits@.skip(i as int)),
    decreases bits@.len() - i,
{
    let n: usize = bits.len();
    if i == n {
        proof {
            assert(bits@.skip(i as int) =~= Seq::<bool>::empty());
        }
        Vec::new()
    } else {
        let cnt: usize = if n - i >= 8 {
            8
        } else {
            n - i
        };
        let ghost chunk: Seq<bool> = bits@.subrange(i as int, (i + cnt) as int);
        let mut acc: u64 = 0;
        let mut t: usize = 0;
        proof {
            assert(bits@.subrange(i as int, i as int) =~= Seq::<bool>::empty());
        }
        while t < cnt
            invariant
                t <= cnt,
                cnt <= 8,
                i + cnt <= n,
                n == bits@.len(),
                acc as nat == prefix_val(bits@.subrange(i as int, (i + t) as int)),
            decreases cnt - t,
        {
            proof {
                lemma_prefix_val_bound(bits@.subrange(i as int, (i + t) as int));
                lemma2_to64();
                if (t as nat) < 7 {
                    lemma_pow2_strictly_increases(t as nat, 7);
                }
                assert(bits@.subrange(i as int, (i + t + 1) as int).drop_last() =~= bits@.subrange(
                    i as int,
                    (i + t) as int,
                ));
            }
            acc = acc * 2 + (if bits[i + t] {
                1
            } else {
                0
            });
            t = t + 1;
        }
        let scale: u64 = pow2_u64(8 - cnt);
        proof {
            lemma_chunk_byte_bound(chunk);
        }
        let byte: u64 = acc * scale;
        let b8: u8 = byte as u8;
        let mut rest = pack_bits(bits, i + cnt);
        proof {
            let s = bits@.skip(i as int);
            if cnt < 8 {
                assert(chunk =~= s);
                assert(bits@.skip((i + cnt) as int) =~= Seq::<bool>::empty());
                assert(rest@.insert(0, b8) =~= seq![chunk_byte(s) as u8]);
            } else {
                assert(chunk =~= s.take(8));
                assert(bits@.skip((i + cnt) as int) =~= s.skip(8));
                assert(rest@.insert(0, b8) =~= seq![chunk_byte(s.take(8)) as u8] + bytes_of_bits(
                    s.skip(8),
                ));
            }
        }
        rest.insert(0, b8);
        rest
    }
}

} // verus!
