//! The algebraic laws of the estimator, proved over its abstract state:
//! insertion order does not matter, a dump reloads to the same content,
//! and merging is commutative, associative, and combines the registers of
//! independently filled estimators exactly as one estimator over all the
//! values would have filled them.

use vstd::prelude::*;
use vstd::arithmetic::power2::lemma_pow2_pos;

use crate::{
    HllState, max8, spec_dump, spec_insert, spec_insert_hash, spec_insert_many, spec_load,
    spec_merge, spec_merge_regs, spec_new,
};
use crate::utils::spec_bucket;

verus! {

/// A freshly constructed estimator has every register at zero: it reports
/// empty, and the estimation formula's explicit zero case applies to it.
pub proof fn lemma_new_estimator_empty(p: u8, seed: u32)
    ensures
        forall|i: int|
            0 <= i < spec_new(p, seed).registers.len() ==> spec_new(p, seed).registers[i] == 0u8,
{
}

proof fn lemma_bucket_in_range(st: HllState, hash: u64)
    requires
        st.wf(),
    ensures
        0 <= spec_bucket(st.percision, hash) < st.registers.len(),
{
    lemma_pow2_pos(st.percision as nat);
}

proof fn lemma_insert_shape(st: HllState, v: u64)
    requires
        st.wf(),
    ensures
        spec_insert(st, v).wf(),
        spec_insert(st, v).seed == st.seed,
        spec_insert(st, v).percision == st.percision,
        spec_insert(st, v).registers.len() == st.registers.len(),
        forall|i: int|
            0 <= i < st.registers.len() ==> spec_insert(st, v).registers[i] >= st.registers[i],
{
    lemma_bucket_in_range(st, crate::murmur::spec_hash_u64(st.seed, v));
}

/// Inserting a sequence keeps seed, percision and register count, keeps
/// the state well formed, and never decreases any register.
pub proof fn lemma_insert_many_shape(st: HllState, values: Seq<u64>)
    requires
        st.wf(),
    ensures
        spec_insert_many(st, values).wf(),
        spec_insert_many(st, values).seed == st.seed,
        spec_insert_many(st, values).percision == st.percision,
        spec_insert_many(st, values).registers.len() == st.registers.len(),
        forall|i: int|
            0 <= i < st.registers.len() ==> spec_insert_many(st, values).registers[i]
                >= st.registers[i],
    decreases values.len(),
{
    if values.len() != 0 {
        lemma_insert_shape(st, values[0]);
        lemma_insert_many_shape(spec_insert(st, values[0]), values.drop_first());
    }
}

proof fn lemma_insert_commutes(st: HllState, a: u64, b: u64)
    requires
        st.wf(),
    ensures
        spec_insert(spec_insert(st, a), b) == spec_insert(spec_insert(st, b), a),
{
    lemma_bucket_in_range(st, crate::murmur::spec_hash_u64(st.seed, a));
    lemma_bucket_in_range(st, crate::murmur::spec_hash_u64(st.seed, b));
    assert(spec_insert(spec_insert(st, a), b).registers =~= spec_insert(
        spec_insert(st, b),
        a,
    ).registers);
}

proof fn lemma_pull_to_front(st: HllState, values: Seq<u64>, j: int)
    requires
        st.wf(),
        0 <= j < values.len(),
    ensures
        spec_insert_many(st, values) == spec_insert_many(
            spec_insert(st, values[j]),
            values.remove(j),
        ),
    decreases j,
{
    reveal_with_fuel(spec_insert_many, 2);
    if j == 0 {
        assert(values.remove(0) =~= values.drop_first());
    } else {
        let rest = values.drop_first();
        lemma_insert_shape(st, values[0]);
        lemma_pull_to_front(spec_insert(st, values[0]), rest, j - 1);
        lemma_insert_commutes(st, values[0], values[j]);
        assert(values.remove(j)[0] == values[0]);
        assert(values.remove(j).drop_first() =~= rest.remove(j - 1));
        lemma_insert_shape(st, values[j]);
    }
}

/// Insertion order does not matter: two sequences holding the same values
/// the same number of times drive an estimator to identical states.
pub proof fn lemma_insert_many_order_independent(st: HllState, xs: Seq<u64>, ys: Seq<u64>)
    requires
        st.wf(),
        xs.to_multiset() == ys.to_multiset(),
    ensures
        spec_insert_many(st, xs) == spec_insert_many(st, ys),
    decreases xs.len(),
{
    xs.to_multiset_ensures();
    ys.to_multiset_ensures();
    if xs.len() == 0 {
        assert(ys.len() == ys.to_multiset().len());
    } else {
        let a = xs[0];
        assert(xs.contains(a));
        assert(ys.to_multiset().count(a) > 0);
        assert(ys.contains(a));
        let j = choose|j: int| 0 <= j < ys.len() && ys[j] == a;
        lemma_pull_to_front(st, ys, j);
        assert(xs.remove(0) =~= xs.drop_first());
        assert(xs.drop_first().to_multiset() == xs.to_multiset().remove(a));
        assert(ys.remove(j).to_multiset() == ys.to_multiset().remove(a));
        lemma_insert_shape(st, a);
        lemma_insert_many_order_independent(spec_insert(st, a), xs.drop_first(), ys.remove(j));
    }
}

/// Round trip: a dump decodes, and decodes to the dumped content — the
/// same percision and the same registers (the decoded estimator carries
/// the default hasher, which is no part of content equality).
pub proof fn lemma_dump_load_roundtrip(st: HllState)
    requires
        st.wf(),
    ensures
        spec_load(spec_dump(st)) is Some,
        spec_load(spec_dump(st))->Some_0.percision == st.percision,
        spec_load(spec_dump(st))->Some_0.registers == st.registers,
{
    assert(spec_dump(st).drop_last() =~= st.registers);
}

/// Merging is commutative: the combined registers do not depend on the
/// order of the two estimators. (The merged hasher configuration does: it
/// is taken from the first.)
pub proof fn lemma_merge_commutative(a: HllState, b: HllState)
    requires
        a.wf(),
        b.wf(),
        a.percision == b.percision,
    ensures
        spec_merge(a, b).registers == spec_merge(b, a).registers,
{
    assert(spec_merge(a, b).registers =~= spec_merge(b, a).registers);
}

/// Merging is associative: three same-percision estimators combine to the
/// same state either way around.
pub proof fn lemma_merge_associative(a: HllState, b: HllState, c: HllState)
    requires
        a.wf(),
        b.wf(),
        c.wf(),
        a.percision == b.percision,
        b.percision == c.percision,
    ensures
        spec_merge(spec_merge(a, b), c) == spec_merge(a, spec_merge(b, c)),
{
    assert(spec_merge(spec_merge(a, b), c).registers =~= spec_merge(
        a,
        spec_merge(b, c),
    ).registers);
}

proof fn lemma_insert_many_append(st: HllState, xs: Seq<u64>, ys: Seq<u64>)
    ensures
        spec_insert_many(st, xs + ys) == spec_insert_many(spec_insert_many(st, xs), ys),
    decreases xs.len(),
{
    if xs.len() == 0 {
        assert(xs + ys =~= ys);
    } else {
        assert((xs + ys)[0] == xs[0]);
        assert((xs + ys).drop_first() =~= xs.drop_first() + ys);
        lemma_insert_many_append(spec_insert(st, xs[0]), xs.drop_first(), ys);
    }
}

proof fn lemma_merge_insert_step(a: Seq<u8>, st: HllState, v: u64)
    requires
        st.wf(),
        a.len() == st.registers.len(),
    ensures
        spec_merge_regs(a, spec_insert(st, v).registers) == spec_insert_hash(
            spec_merge_regs(a, st.registers),
            st.percision,
            crate::murmur::spec_hash_u64(st.seed, v),
        ),
{
    lemma_bucket_in_range(st, crate::murmur::spec_hash_u64(st.seed, v));
    assert(spec_merge_regs(a, spec_insert(st, v).registers) =~= spec_insert_hash(
        spec_merge_regs(a, st.registers),
        st.percision,
        crate::murmur::spec_hash_u64(st.seed, v),
    ));
}

proof fn lemma_merge_insert_many(a: Seq<u8>, st: HllState, values: Seq<u64>)
    requires
        st.wf(),
        a.len() == st.registers.len(),
    ensures
        spec_merge_regs(a, spec_insert_many(st, values).registers) == spec_insert_many(
            (HllState { seed: st.seed, percision: st.percision, registers: spec_merge_regs(a, st.registers) }),
            values,
        ).registers,
    decreases values.len(),
{
    let merged = HllState {
        seed: st.seed,
        percision: st.percision,
        registers: spec_merge_regs(a, st.registers),
    };
    if values.len() == 0 {
    } else {
        let v = values[0];
        lemma_insert_shape(st, v);
        lemma_merge_insert_many(a, spec_insert(st, v), values.drop_first());
        lemma_merge_insert_step(a, st, v);
        assert(spec_insert(merged, v).registers == spec_merge_regs(
            a,
            spec_insert(st, v).registers,
        ));
    }
}

/// The foundation of distributed counting: merging two estimators that
/// were filled independently from one starting state yields exactly the
/// state one estimator would reach over all the values together.
pub proof fn lemma_merge_of_parts(st: HllState, xs: Seq<u64>, ys: Seq<u64>)
    requires
        st.wf(),
    ensures
        spec_merge(spec_insert_many(st, xs), spec_insert_many(st, ys)) == spec_insert_many(
            st,
            xs + ys,
        ),
{
    let a = spec_insert_many(st, xs);
    lemma_insert_many_shape(st, xs);
    lemma_insert_many_shape(st, ys);
    lemma_insert_many_shape(st, xs + ys);
    lemma_merge_insert_many(a.registers, st, ys);
    assert(spec_merge_regs(a.registers, st.registers) =~= a.registers);
    assert((HllState { seed: st.seed, percision: st.percision, registers: a.registers }) =~= a);
    lemma_insert_many_append(st, xs, ys);
    assert(spec_merge(a, spec_insert_many(st, ys)) =~= spec_insert_many(st, xs + ys));
}

} // verus!
