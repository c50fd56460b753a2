//! A HyperLogLog cardinality estimator with verified state handling.
//!
//! An estimator owns a fixed array of `2^percision` single-byte registers
//! and a seeded hasher. Every inserted value is hashed; the hash's low bits
//! select a register and the following run of zero bits (plus one) is the
//! candidate run length, which the register keeps as a running maximum.
//! Estimators of equal percision can be merged register-wise, and the whole
//! state round-trips through a compact byte dump.
//!
//! The registers, insertions, merging and the dump format are specified and
//! verified here, down to the hash function itself. The floating-point
//! estimation formula over the registers is the one part that cannot live in
//! verified code and is left to the embedding application.

use vstd::prelude::*;
use vstd::pervasive::VecAdditionalExecFns;
use vstd::arithmetic::power2::{pow2, lemma_pow2_strictly_increases, lemma2_to64, lemma2_to64_rest};
use vstd::bits::{lemma_u64_shl_is_mul, lemma_u64_pow2_no_overflow};

pub mod laws;
pub mod murmur;
pub mod utils;

use murmur::{Murmur3BuildHasher, spec_hash_u64, hash_u64};
use utils::{pow_two, get_bucket, longest_run, spec_bucket, spec_run};

verus! {

/// Lower clamp boundary for the percision of every constructor.
pub const MIN_PERCISION: u8 = 4;

/// Upper clamp boundary for the percision of every constructor.
pub const MAX_PERCISION: u8 = 20;

/// Percision used by constructors that take none; sufficient for most uses.
pub const DEFAULT_PERCISION: u8 = 14;

/// Abstract state of an estimator: the hasher seed, the percision, and the
/// register array. Two estimators hold the same accumulated information iff
/// percision and registers match; the seed only affects future inserts.
#[verifier::ext_equal]
pub struct HllState {
    pub seed: u32,
    pub percision: u8,
    pub registers: Seq<u8>,
}

impl HllState {
    /// The percision fits the hash width and the register array has exactly
    /// `2^percision` entries.
    pub open spec fn wf(self) -> bool {
        &&& self.percision <= 63
        &&& self.registers.len() == pow2(self.percision as nat)
    }
}

/// The larger of two register values.
pub open spec fn max8(a: u8, b: u8) -> u8 {
    if a < b {
        b
    } else {
        a
    }
}

/// One hash folded into a register array: the register selected by the
/// hash's bucket keeps the maximum of its old value and the hash's run
/// length; every other register is untouched.
pub open spec fn spec_insert_hash(regs: Seq<u8>, p: u8, hash: u64) -> Seq<u8> {
    let i = spec_bucket(p, hash) as int;
    regs.update(i, max8(regs[i], spec_run(p, hash)))
}

/// State after inserting one value: its hash under the state's seed, folded
/// into the registers.
pub open spec fn spec_insert(st: HllState, value: u64) -> HllState {
    HllState {
        registers: spec_insert_hash(
            st.registers,
            st.percision,
            spec_hash_u64(st.seed, value),
        ),
        ..st
    }
}

/// State after inserting a sequence of values, first to last.
pub open spec fn spec_insert_many(st: HllState, values: Seq<u64>) -> HllState
    decreases values.len(),
{
    if values.len() == 0 {
        st
    } else {
        spec_insert_many(spec_insert(st, values[0]), values.drop_first())
    }
}

/// Element-wise maximum of two register arrays of equal length.
pub open spec fn spec_merge_regs(a: Seq<u8>, b: Seq<u8>) -> Seq<u8> {
    Seq::new(a.len(), |i: int| max8(a[i], b[i]))
}

/// The merge of two states: register-wise maximum, percision unchanged,
/// hasher configuration taken from the first.
pub open spec fn spec_merge(a: HllState, b: HllState) -> HllState {
    HllState { seed: a.seed, percision: a.percision, registers: spec_merge_regs(a.registers, b.registers) }
}

/// The serialized form: the registers in index order, then one byte holding
/// the percision.
pub open spec fn spec_dump(st: HllState) -> Seq<u8> {
    st.registers.push(st.percision)
}

/// What decoding a byte buffer yields: the last byte is the percision and
/// the rest are the registers, accepted verbatim. Decoding fails iff the
/// buffer is empty or the register count does not match the percision byte.
/// The hasher of a decoded estimator is the default one (seed zero).
pub open spec fn spec_load(bytes: Seq<u8>) -> Option<HllState> {
    if bytes.len() == 0 {
        None
    } else if bytes.drop_last().len() == pow2(bytes.last() as nat) {
        Some(HllState { seed: 0, percision: bytes.last(), registers: bytes.drop_last() })
    } else {
        None
    }
}

/// The percision a constructor actually uses for a requested one.
pub open spec fn clamp_percision(p: u8) -> u8 {
    if p < MIN_PERCISION {
        MIN_PERCISION
    } else if p > MAX_PERCISION {
        MAX_PERCISION
    } else {
        p
    }
}

/// A freshly constructed state: every register zero.
pub open spec fn spec_new(p: u8, seed: u32) -> HllState {
    HllState { seed, percision: p, registers: Seq::new(pow2(p as nat), |i: int| 0u8) }
}

fn zeroed_registers(m: u32) -> (v: Vec<u8>)
    ensures
        v@ == Seq::new(m as nat, |i: int| 0u8),
{
    let mut v: Vec<u8> = Vec::new();
    let mut i: u32 = 0;
    while i < m
        invariant
            i <= m,
            v@.len() == i as nat,
            forall|j: int| 0 <= j < i as int ==> v@[j] == 0u8,
        decreases m - i,
    {
        v.push(0u8);
        i = i + 1;
    }
    proof {
        assert(v@ =~= Seq::new(m as nat, |i: int| 0u8));
    }
    v
}

/// A HyperLogLog estimator: approximate distinct-counting in `2^percision`
/// bytes of state, with register-wise merging of independently built
/// instances and a compact binary dump.
pub struct Hypeerlog {
    hasher: Murmur3BuildHasher,
    percision: u8,
    registers: Vec<u8>,
}

impl View for Hypeerlog {
    type V = HllState;

    closed spec fn view(&self) -> HllState {
        HllState { seed: self.hasher.seed(), percision: self.percision, registers: self.registers@ }
    }
}

impl Hypeerlog {
    /// The estimator's state is well formed.
    pub open spec fn wf(&self) -> bool {
        self@.wf()
    }

    /// Constructs an estimator with the given percision and seed for the
    /// internal hasher. The percision is silently clamped to the supported
    /// range. An unpredictable seed defends an estimator exposed to outside
    /// users against hash flooding.
    pub fn with_percision_seed(percision: u8, seed: u32) -> (r: Self)
        ensures
            r@ == spec_new(clamp_percision(percision), seed),
            r.wf(),
    {
        let p = if percision < MIN_PERCISION {
            MIN_PERCISION
        } else if percision > MAX_PERCISION {
            MAX_PERCISION
        } else {
            percision
        };
        let m = pow_two(p);
        let registers = zeroed_registers(m);
        Hypeerlog { hasher: Murmur3BuildHasher::new(seed), percision: p, registers }
    }

    /// Creates an estimator with the default percision, sufficient for most
    /// cases, and the default hasher.
    pub fn new() -> (r: Self)
        ensures
            r@ == spec_new(DEFAULT_PERCISION, 0),
            r.wf(),
    {
        Self::with_percision_seed(DEFAULT_PERCISION, 0)
    }

    /// Constructs an estimator with the given percision, silently clamped
    /// to the supported range.
    pub fn with_percision(percision: u8) -> (r: Self)
        ensures
            r@ == spec_new(clamp_percision(percision), 0),
            r.wf(),
    {
        Self::with_percision_seed(percision, 0)
    }

    /// Constructs an estimator with the default percision and the given
    /// seed for the internal hasher.
    pub fn with_seed(seed: u32) -> (r: Self)
        ensures
            r@ == spec_new(DEFAULT_PERCISION, seed),
            r.wf(),
    {
        Self::with_percision_seed(DEFAULT_PERCISION, seed)
    }

    /// The number of registers used internally.
    pub fn registers(&self) -> (r: usize)
        ensures
            r == self@.registers.len(),
    {
        self.registers.len()
    }

    /// Inserts one value: its hash selects a register, which keeps the
    /// maximum of its old value and the hash's run length.
    pub fn insert(&mut self, data: u64)
        requires
            old(self).wf(),
        ensures
            final(self).wf(),
            final(self)@ == spec_insert(old(self)@, data),
    {
        let m = self.registers.len();
        proof {
            assert(m == pow2(self.percision as nat));
        }
        let hash = hash_u64(&self.hasher, data);
        let idx = get_bucket(self.percision, hash);
        let run = longest_run(self.percision, hash);
        let cur = self.registers[idx];
        let nv = if run > cur {
            run
        } else {
            cur
        };
        self.registers.set(idx, nv);
    }

    /// Inserts every element of a slice, in input order. The resulting
    /// registers do not depend on that order (see
    /// [`laws::lemma_insert_many_order_independent`]).
    pub fn insert_many(&mut self, data: &[u64])
        requires
            old(self).wf(),
        ensures
            final(self).wf(),
            final(self)@ == spec_insert_many(old(self)@, data@),
    {
        let n = data.len();
        let mut i: usize = 0;
        while i < n
            invariant
                i <= n,
                n == data@.len(),
                self.wf(),
                self@ == spec_insert_many(old(self)@, data@.take(i as int)),
            decreases n - i,
        {
            let x = data[i];
            self.insert(x);
            proof {
                lemma_insert_many_snoc(old(self)@, data@.take(i as int), x);
                assert(data@.take(i as int).push(x) =~= data@.take(i + 1));
            }
            i = i + 1;
        }
        proof {
            assert(data@.take(n as int) =~= data@);
        }
    }

    /// True iff every register is zero, that is, nothing was ever inserted
    /// (or the estimator was cleared since).
    pub fn is_empty(&self) -> (r: bool)
        ensures
            r <==> (forall|i: int|
                0 <= i < self@.registers.len() ==> self@.registers[i] == 0u8),
    {
        let n = self.registers.len();
        let mut i: usize = 0;
        while i < n
            invariant
                i <= n,
                n == self@.registers.len(),
                forall|j: int| 0 <= j < i as int ==> self@.registers[j] == 0u8,
            decreases n - i,
        {
            if self.registers[i] != 0 {
                return false;
            }
            i = i + 1;
        }
        true
    }

    /// Resets every register to zero. Percision and hasher configuration
    /// are kept.
    pub fn clear(&mut self)
        requires
            old(self).wf(),
        ensures
            final(self).wf(),
            final(self)@ == (HllState {
                registers: Seq::new(old(self)@.registers.len(), |i: int| 0u8),
                ..old(self)@
            }),
    {
        let n = self.registers.len();
        let mut i: usize = 0;
        while i < n
            invariant
                i <= n,
                n == self.registers@.len(),
                self.percision == old(self).percision,
                self.hasher == old(self).hasher,
                self.registers@.len() == old(self)@.registers.len(),
                forall|j: int| 0 <= j < i as int ==> self.registers@[j] == 0u8,
            decreases n - i,
        {
            self.registers.set(i, 0);
            i = i + 1;
        }
        proof {
            assert(self.registers@ =~= Seq::new(old(self)@.registers.len(), |i: int| 0u8));
        }
    }

    /// Merges two estimators, returning the merged one: the register-wise
    /// maximum, with the first estimator's hasher. The percisions must be
    /// equal, or an error is returned and nothing is combined.
    pub fn merge(self, other: Self) -> (r: Result<Self, ()>)
        requires
            self.wf(),
            other.wf(),
        ensures
            r is Ok <==> self@.percision == other@.percision,
            r is Ok ==> r->Ok_0@ == spec_merge(self@, other@) && r->Ok_0.wf(),
    {
        let ghost a = self@;
        let ghost b = other@;
        if self.percision != other.percision {
            return Err(());
        }
        let mut s = self;
        let n = s.registers.len();
        let mut i: usize = 0;
        while i < n
            invariant
                i <= n,
                s.registers@.len() == n,
                n == a.registers.len(),
                b.registers.len() == n,
                s.percision == a.percision,
                s.hasher.seed() == a.seed,
                other@ == b,
                other.registers@.len() == n,
                forall|j: int|
                    0 <= j < i as int ==> s.registers@[j] == max8(a.registers[j], b.registers[j]),
                forall|j: int| i as int <= j < n as int ==> s.registers@[j] == a.registers[j],
            decreases n - i,
        {
            let x = s.registers[i];
            let y = other.registers[i];
            let nv = if x < y {
                y
            } else {
                x
            };
            s.registers.set(i, nv);
            i = i + 1;
        }
        proof {
            assert(s.registers@ =~= spec_merge_regs(a.registers, b.registers));
        }
        Ok(s)
    }

    /// Serializes the estimator: the registers in index order, followed by
    /// one byte holding the percision. The dump can be stored or sent, and
    /// later reloaded with [`Hypeerlog::load`].
    pub fn dump(&self) -> (r: Vec<u8>)
        ensures
            r@ == spec_dump(self@),
    {
        let mut clone = self.registers.clone();
        proof {
            assert(clone@ =~= self.registers@);
        }
        clone.push(self.percision);
        clone
    }

    /// Reconstructs a dumped estimator, with the default hasher. Returns an
    /// error iff the buffer is empty or its length does not fit the
    /// trailing percision byte; nothing is constructed then.
    pub fn load(bytes: Vec<u8>) -> (r: Result<Self, ()>)
        ensures
            r is Ok <==> spec_load(bytes@) is Some,
            r is Ok ==> r->Ok_0@ == spec_load(bytes@)->Some_0 && r->Ok_0.wf(),
    {
        let mut b = bytes;
        let p = match b.pop() {
            None => {
                return Err(());
            },
            Some(p) => p,
        };
        let blen = b.len();
        proof {
            lemma2_to64();
            lemma2_to64_rest();
            if p > 64 {
                lemma_pow2_strictly_increases(64, p as nat);
            }
        }
        if p >= 64 {
            return Err(());
        }
        proof {
            lemma_u64_pow2_no_overflow(p as nat);
            lemma_u64_shl_is_mul(1u64, p as u64);
        }
        let m64: u64 = 1u64 << (p as u64);
        if (blen as u64) != m64 {
            return Err(());
        }
        Ok(Hypeerlog { hasher: Murmur3BuildHasher::new(0), percision: p, registers: b })
    }
}

impl PartialEq for Hypeerlog {
    /// Content equality: percision and every register must match. The
    /// hasher seed only affects how future inserts are hashed, not the
    /// state already accumulated, so it is no part of equality.
    fn eq(&self, other: &Self) -> (r: bool) {
        if self.percision != other.percision {
            return false;
        }
        let n = self.registers.len();
        if n != other.registers.len() {
            return false;
        }
        let mut i: usize = 0;
        while i < n
            invariant
                i <= n,
                n == self.registers@.len(),
                n == other.registers@.len(),
                forall|j: int| 0 <= j < i as int ==> self.registers@[j] == other.registers@[j],
            decreases n - i,
        {
            if self.registers[i] != other.registers[i] {
                return false;
            }
            i = i + 1;
        }
        proof {
            assert(self.registers@ =~= other.registers@);
        }
        true
    }
}

impl vstd::std_specs::cmp::PartialEqSpecImpl for Hypeerlog {
    open spec fn obeys_eq_spec() -> bool {
        true
    }

    open spec fn eq_spec(&self, other: &Self) -> bool {
        self@.percision == other@.percision && self@.registers == other@.registers
    }
}

proof fn lemma_insert_many_snoc(st: HllState, values: Seq<u64>, x: u64)
    ensures
        spec_insert_many(st, values.push(x)) == spec_insert(spec_insert_many(st, values), x),
    decreases values.len(),
{
    reveal_with_fuel(spec_insert_many, 2);
    if values.len() == 0 {
        assert(values.push(x).drop_first() =~= Seq::<u64>::empty());
    } else {
        assert(values.push(x).drop_first() =~= values.drop_first().push(x));
        lemma_insert_many_snoc(spec_insert(st, values[0]), values.drop_first(), x);
    }
}

} // verus!
