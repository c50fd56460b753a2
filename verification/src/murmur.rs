//! A 32-bit multiply-rotate-xor mixing hasher, finalized to a 64-bit result.
//!
//! The hasher consumes a byte stream in 4-byte blocks, keeping at most three
//! pending bytes in an internal partial-word buffer, and finishes with an
//! avalanche mix that incorporates the total input length. Its whole
//! behaviour is captured by [`mm3_hash`]: `finish` returns exactly
//! `mm3_hash(seed, stream)` for the bytes written so far, which makes the
//! hash deterministic for identical input and seed.

use vstd::prelude::*;
use vstd::arithmetic::power2::{pow2, lemma_pow2_adds, lemma2_to64};
use vstd::bits::{lemma_u32_shl_is_mul, lemma_u32_pow2_no_overflow};

verus! {

pub const C1: u32 = 0xcc9e2d51;
pub const C2: u32 = 0x1b873593;
pub const F1: u32 = 0x85ebca6b;
pub const F2: u32 = 0xc2b2ae35;
pub const H_STEP: u32 = 0xe6546b64;

/// Little-endian value of a byte sequence.
pub open spec fn le_val(s: Seq<u8>) -> nat
    decreases s.len(),
{
    if s.len() == 0 {
        0
    } else {
        s[0] as nat + 256 * le_val(s.drop_first())
    }
}

/// The mixing applied to each 32-bit input word.
#[verifier::opaque]
pub open spec fn mix_k1(k: u32) -> u32 {
    let a = k.wrapping_mul(C1);
    let b = (a << 15u32) | (a >> 17u32);
    b.wrapping_mul(C2)
}

/// How one mixed word is folded into the running state.
#[verifier::opaque]
pub open spec fn mix_h1(h: u32, k: u32) -> u32 {
    let x = h ^ mix_k1(k);
    let y = (x << 13u32) | (x >> 19u32);
    y.wrapping_mul(5).wrapping_add(H_STEP)
}

/// State after folding every whole 4-byte block of `bytes` into `h`.
pub open spec fn mm3_blocks(h: u32, bytes: Seq<u8>) -> u32
    decreases bytes.len(),
{
    if bytes.len() < 4 {
        h
    } else {
        mm3_blocks(mix_h1(h, le_val(bytes.take(4)) as u32), bytes.skip(4))
    }
}

/// Folding of the last, partial block (at most three bytes).
pub open spec fn mm3_tail(h: u32, tail: Seq<u8>) -> u32 {
    if tail.len() == 0 {
        h
    } else {
        h ^ mix_k1(le_val(tail) as u32)
    }
}

/// The final avalanche mix over the folded state and the input length.
#[verifier::opaque]
pub open spec fn avalanche(h: u32, len: nat) -> u32 {
    let a = h ^ ((len % 0x1_0000_0000) as u32);
    let b = a ^ (a >> 16u32);
    let c = b.wrapping_mul(F1);
    let d = c ^ (c >> 13u32);
    let e = d.wrapping_mul(F2);
    e ^ (e >> 16u32)
}

/// The hash of a whole byte stream under a given seed.
pub open spec fn mm3_hash(seed: u32, bytes: Seq<u8>) -> u64 {
    let cut = (bytes.len() - bytes.len() % 4) as int;
    avalanche(mm3_tail(mm3_blocks(seed, bytes.take(cut)), bytes.skip(cut)), bytes.len()) as u64
}

/// The eight bytes of a 64-bit value, least significant first.
pub open spec fn spec_le_bytes_u64(x: u64) -> Seq<u8> {
    seq![
        (x & 0xff) as u8,
        ((x >> 8u64) & 0xff) as u8,
        ((x >> 16u64) & 0xff) as u8,
        ((x >> 24u64) & 0xff) as u8,
        ((x >> 32u64) & 0xff) as u8,
        ((x >> 40u64) & 0xff) as u8,
        ((x >> 48u64) & 0xff) as u8,
        ((x >> 56u64) & 0xff) as u8,
    ]
}

/// The hash the estimator uses for a 64-bit value: the value's
/// little-endian bytes fed to a hasher built with `seed`.
pub open spec fn spec_hash_u64(seed: u32, x: u64) -> u64 {
    mm3_hash(seed, spec_le_bytes_u64(x))
}

proof fn lemma_le_val_bound(s: Seq<u8>)
    ensures
        le_val(s) < pow2((8 * s.len()) as nat),
    decreases s.len(),
{
    lemma2_to64();
    if s.len() == 0 {
    } else {
        lemma_le_val_bound(s.drop_first());
        lemma_pow2_adds(8, (8 * (s.len() - 1)) as nat);
    }
}

proof fn lemma_le_val_snoc(s: Seq<u8>, b: u8)
    ensures
        le_val(s.push(b)) == le_val(s) + (b as nat) * pow2((8 * s.len()) as nat),
    decreases s.len(),
{
    lemma2_to64();
    reveal_with_fuel(le_val, 2);
    if s.len() == 0 {
        assert(s.push(b).drop_first() =~= Seq::<u8>::empty());
        assert(le_val(s.push(b)) == b as nat);
    } else {
        assert(s.push(b).drop_first() =~= s.drop_first().push(b));
        lemma_le_val_snoc(s.drop_first(), b);
        let p = pow2((8 * (s.len() - 1)) as nat);
        lemma_pow2_adds(8, (8 * (s.len() - 1)) as nat);
        assert(pow2((8 * s.len()) as nat) == 256 * p);
        assert(le_val(s.push(b)) == s[0] as nat + 256 * le_val(s.drop_first().push(b)));
        assert(256 * (le_val(s.drop_first()) + (b as nat) * p)
            == 256 * le_val(s.drop_first()) + (b as nat) * (256 * p)) by (nonlinear_arith);
    }
}

#[verifier::rlimit(50)]
proof fn lemma_blocks_snoc(h: u32, s: Seq<u8>, c: Seq<u8>)
    requires
        s.len() % 4 == 0,
        c.len() == 4,
    ensures
        mm3_blocks(h, s + c) == mix_h1(mm3_blocks(h, s), le_val(c) as u32),
    decreases s.len(),
{
    reveal_with_fuel(mm3_blocks, 3);
    if s.len() == 0 {
        assert(s + c =~= c);
        assert(c.take(4) =~= c);
        assert(c.skip(4) =~= Seq::<u8>::empty());
    } else {
        assert((s + c).take(4) =~= s.take(4));
        assert((s + c).skip(4) =~= s.skip(4) + c);
        lemma_blocks_snoc(mix_h1(h, le_val(s.take(4)) as u32), s.skip(4), c);
    }
}

proof fn lemma_or_shift_24(t32: u32, b: u8)
    by (bit_vector)
    requires
        t32 < 0x1000000u32,
    ensures
        t32 | ((b as u32) << 24u32) == t32 + (b as u32) * 0x1000000,
{
}

proof fn lemma_or_shift_byte(t32: u32, b: u8, sh: u32, tl: u8)
    by (bit_vector)
    requires
        sh == 8 * (tl as u32),
        tl < 3,
        t32 < (1u32 << sh),
    ensures
        t32 | ((b as u32) << sh) == t32 + (b as u32) * (1u32 << sh),
{
}

fn mix_word(k: u32) -> (r: u32)
    ensures
        r == mix_k1(k),
{
    proof {
        reveal(mix_k1);
    }
    let a = k.wrapping_mul(C1);
    let b = (a << 15u32) | (a >> 17u32);
    b.wrapping_mul(C2)
}

fn mix_block(h: u32, k: u32) -> (r: u32)
    ensures
        r == mix_h1(h, k),
{
    proof {
        reveal(mix_h1);
    }
    let x = h ^ mix_word(k);
    let y = (x << 13u32) | (x >> 19u32);
    y.wrapping_mul(5).wrapping_add(H_STEP)
}

/// A streaming hasher: 4-byte blocks are folded into `h1` as soon as they
/// are complete; up to three pending bytes wait in `tail`, packed
/// little-endian, and `len` counts every byte written.
pub struct Murmur3Hasher {
    h1: u32,
    tail: u32,
    tail_len: u8,
    len: usize,
    seed: Ghost<u32>,
    stream: Ghost<Seq<u8>>,
}

impl Murmur3Hasher {
    /// The seed this hasher was built with.
    pub closed spec fn seed(&self) -> u32 {
        self.seed@
    }

    /// Every byte written so far, in order.
    pub closed spec fn stream(&self) -> Seq<u8> {
        self.stream@
    }

    /// The concrete fields follow the abstract stream: `h1` has folded every
    /// whole block, `tail` holds the remainder as a little-endian word, and
    /// `len` is the stream's length.
    pub closed spec fn wf(&self) -> bool {
        let n = self.stream@.len() as int;
        let t = self.tail_len as int;
        &&& self.tail_len < 4
        &&& self.len == self.stream@.len()
        &&& t == n % 4
        &&& self.tail as nat == le_val(self.stream@.skip(n - t))
        &&& self.h1 == mm3_blocks(self.seed@, self.stream@.take(n - t))
    }

    pub fn new(seed: u32) -> (r: Self)
        ensures
            r.wf(),
            r.seed() == seed,
            r.stream() == Seq::<u8>::empty(),
    {
        let r = Murmur3Hasher {
            h1: seed,
            tail: 0,
            tail_len: 0,
            len: 0,
            seed: Ghost(seed),
            stream: Ghost(Seq::empty()),
        };
        proof {
            assert(r.stream@.skip(0) =~= Seq::<u8>::empty());
            assert(r.stream@.take(0) =~= Seq::<u8>::empty());
        }
        r
    }

    #[verifier::rlimit(100)]
    fn push_byte(&mut self, b: u8)
        requires
            old(self).wf(),
            old(self).stream().len() < usize::MAX,
        ensures
            final(self).wf(),
            final(self).seed() == old(self).seed(),
            final(self).stream() == old(self).stream().push(b),
    {
        let ghost s_old = self.stream@;
        let ghost n = s_old.len() as int;
        let ghost t = self.tail_len as int;
        let ghost pend = s_old.skip(n - t);
        let ghost blocks = s_old.take(n - t);
        proof {
            lemma_le_val_bound(pend);
            lemma_le_val_snoc(pend, b);
            lemma2_to64();
        }
        if self.tail_len == 3 {
            let t32 = self.tail;
            proof {
                lemma_or_shift_24(t32, b);
                lemma_blocks_snoc(self.seed@, blocks, pend.push(b));
                assert(s_old.push(b) =~= blocks + pend.push(b));
            }
            let k1: u32 = t32 | ((b as u32) << 24u32);
            self.h1 = mix_block(self.h1, k1);
            self.tail = 0;
            self.tail_len = 0;
            self.len = self.len + 1;
            self.stream = Ghost(s_old.push(b));
            proof {
                assert(self.stream@.take(n + 1) =~= blocks + pend.push(b));
                assert(self.stream@.skip(n + 1) =~= Seq::<u8>::empty());
                assert(self.h1 == mm3_blocks(self.seed@, self.stream@.take(n + 1)));
                assert((n + 1) % 4 == 0);
            }
        } else {
            let t32 = self.tail;
            let tl = self.tail_len;
            let sh: u32 = 8 * (tl as u32);
            proof {
                lemma_u32_pow2_no_overflow(sh as nat);
                lemma_u32_shl_is_mul(1u32, sh);
                assert(t32 < (1u32 << sh));
                lemma_or_shift_byte(t32, b, sh, tl);
            }
            self.tail = t32 | ((b as u32) << sh);
            self.tail_len = tl + 1;
            self.len = self.len + 1;
            self.stream = Ghost(s_old.push(b));
            proof {
                assert(self.stream@.take(n - t) =~= blocks);
                assert(self.stream@.skip(n - t) =~= pend.push(b));
                assert((n + 1) % 4 == t + 1);
                assert(self.tail as nat == le_val(pend.push(b)));
            }
        }
    }

    /// Feeds `bytes` to the hasher, after any bytes written before.
    pub fn write(&mut self, bytes: &[u8])
        requires
            old(self).wf(),
            old(self).stream().len() + bytes@.len() <= usize::MAX,
        ensures
            final(self).wf(),
            final(self).seed() == old(self).seed(),
            final(self).stream() == old(self).stream() + bytes@,
    {
        let n = bytes.len();
        let mut i: usize = 0;
        while i < n
            invariant
                i <= n,
                n == bytes@.len(),
                self.wf(),
                self.seed() == old(self).seed(),
                self.stream() == old(self).stream() + bytes@.take(i as int),
                old(self).stream().len() + bytes@.len() <= usize::MAX,
            decreases n - i,
        {
            let b = bytes[i];
            self.push_byte(b);
            proof {
                assert((old(self).stream() + bytes@.take(i as int)).push(b)
                    =~= old(self).stream() + bytes@.take(i + 1));
            }
            i = i + 1;
        }
        proof {
            assert(old(self).stream() + bytes@.take(n as int) =~= old(self).stream() + bytes@);
        }
    }

    /// The 64-bit hash of everything written so far: the remaining tail
    /// bytes are mixed in, then the avalanche mix incorporates the total
    /// length. The hasher itself is left untouched, so more bytes may still
    /// be written afterwards.
    pub fn finish(&self) -> (r: u64)
        requires
            self.wf(),
        ensures
            r == mm3_hash(self.seed(), self.stream()),
    {
        let ghost n = self.stream@.len() as int;
        let ghost t = self.tail_len as int;
        let ghost pend = self.stream@.skip(n - t);
        proof {
            reveal(avalanche);
            lemma_le_val_bound(pend);
            lemma2_to64();
            if self.tail_len == 0 {
                assert(pend =~= Seq::<u8>::empty());
            }
        }
        let mut h = self.h1;
        if self.tail_len > 0 {
            h = h ^ mix_word(self.tail);
        }
        let len64: u64 = self.len as u64;
        let len_low: u32 = (len64 % 0x1_0000_0000) as u32;
        h = h ^ len_low;
        h = h ^ (h >> 16u32);
        h = h.wrapping_mul(F1);
        h = h ^ (h >> 13u32);
        h = h.wrapping_mul(F2);
        h = h ^ (h >> 16u32);
        h as u64
    }
}

/// Builds [`Murmur3Hasher`] instances that all start from one seed, so that
/// repeated hashing of equal input gives equal output.
#[derive(Default, Debug, Eq, PartialEq)]
pub struct Murmur3BuildHasher {
    seed: u32,
}

impl Murmur3BuildHasher {
    /// The seed every built hasher starts from.
    pub closed spec fn seed(&self) -> u32 {
        self.seed
    }

    pub fn new(seed: u32) -> (r: Self)
        ensures
            r.seed() == seed,
    {
        Murmur3BuildHasher { seed }
    }

    /// A fresh hasher, seeded with this builder's seed, with nothing written.
    pub fn build_hasher(&self) -> (r: Murmur3Hasher)
        ensures
            r.wf(),
            r.seed() == self.seed(),
            r.stream() == Seq::<u8>::empty(),
    {
        Murmur3Hasher::new(self.seed)
    }
}

fn le_bytes_u64(x: u64) -> (v: Vec<u8>)
    ensures
        v@ == spec_le_bytes_u64(x),
{
    proof {
        assert((x & 0xff) < 256 && ((x >> 8u64) & 0xff) < 256 && ((x >> 16u64) & 0xff) < 256
            && ((x >> 24u64) & 0xff) < 256 && ((x >> 32u64) & 0xff) < 256
            && ((x >> 40u64) & 0xff) < 256 && ((x >> 48u64) & 0xff) < 256
            && ((x >> 56u64) & 0xff) < 256) by (bit_vector);
    }
    let mut v: Vec<u8> = Vec::new();
    v.push((x & 0xff) as u8);
    v.push(((x >> 8u64) & 0xff) as u8);
    v.push(((x >> 16u64) & 0xff) as u8);
    v.push(((x >> 24u64) & 0xff) as u8);
    v.push(((x >> 32u64) & 0xff) as u8);
    v.push(((x >> 40u64) & 0xff) as u8);
    v.push(((x >> 48u64) & 0xff) as u8);
    v.push(((x >> 56u64) & 0xff) as u8);
    proof {
        assert(v@ =~= spec_le_bytes_u64(x));
    }
    v
}

/// Hashes one 64-bit value with a fresh hasher built by `b`.
pub fn hash_u64(b: &Murmur3BuildHasher, x: u64) -> (r: u64)
    ensures
        r == spec_hash_u64(b.seed(), x),
{
    let mut h = b.build_hasher();
    let bytes = le_bytes_u64(x);
    h.write(bytes.as_slice());
    proof {
        assert(h.stream() =~= spec_le_bytes_u64(x));
    }
    h.finish()
}

} // verus!
