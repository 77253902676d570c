//! Small verified helpers on byte vectors.

use vstd::prelude::*;

verus! {

/// The concatenation of a sequence of byte sequences, in order.
pub open spec fn spec_concat_bytes(parts: Seq<Seq<u8>>) -> Seq<u8>
    decreases parts.len(),
{
    if parts.len() == 0 {
        Seq::empty()
    } else {
        spec_concat_bytes(parts.drop_last()) + parts.last()
    }
}

/// Concatenation grows one part at a time: taking one more part appends
/// exactly that part.
pub proof fn lemma_concat_bytes_take_step(parts: Seq<Seq<u8>>, i: int)
    requires
        0 <= i < parts.len(),
    ensures
        spec_concat_bytes(parts.take(i + 1)) == spec_concat_bytes(parts.take(i)) + parts[i],
{
    assert(parts.take(i + 1).drop_last() =~= parts.take(i));
    assert(parts.take(i + 1).last() == parts[i]);
}

/// If every part has the same length `k`, the concatenation of `n`
/// parts has length `n * k`, and part `j` sits at offset `j * k`.
pub proof fn lemma_concat_bytes_uniform(parts: Seq<Seq<u8>>, k: int)
    requires
        k >= 0,
        forall|j: int| 0 <= j < parts.len() ==> (#[trigger] parts[j]).len() == k,
    ensures
        spec_concat_bytes(parts).len() == parts.len() * k,
        forall|j: int| 0 <= j < parts.len() ==> #[trigger] spec_concat_bytes(parts).subrange(
            j * k,
            j * k + k,
        ) == parts[j],
    decreases parts.len(),
{
    if parts.len() > 0 {
        let prefix = parts.drop_last();
        lemma_concat_bytes_uniform(prefix, k);
        assert(spec_concat_bytes(parts).len() == parts.len() * k) by (nonlinear_arith)
            requires
                spec_concat_bytes(parts).len() == spec_concat_bytes(prefix).len() + parts.last().len(),
                spec_concat_bytes(prefix).len() == prefix.len() * k,
                parts.last().len() == k,
                prefix.len() == parts.len() - 1,
        ;
        assert forall|j: int| 0 <= j < parts.len() implies #[trigger] spec_concat_bytes(
            parts,
        ).subrange(j * k, j * k + k) == parts[j] by {
            assert(j * k >= 0 && j * k + k <= parts.len() * k) by (nonlinear_arith)
                requires
                    0 <= j < parts.len(),
                    k >= 0,
            ;
            if j < parts.len() - 1 {
                assert(j * k + k <= spec_concat_bytes(prefix).len()) by (nonlinear_arith)
                    requires
                        j + 1 <= parts.len() - 1,
                        k >= 0,
                        spec_concat_bytes(prefix).len() == (parts.len() - 1) * k,
                ;
                assert(spec_concat_bytes(parts).subrange(j * k, j * k + k) =~= spec_concat_bytes(
                    prefix,
                ).subrange(j * k, j * k + k));
                assert(prefix[j] == parts[j]);
            } else {
                assert((parts.len() - 1) * k == spec_concat_bytes(prefix).len());
                assert(j * k == spec_concat_bytes(prefix).len()) by (nonlinear_arith)
                    requires
                        j == parts.len() - 1,
                        spec_concat_bytes(prefix).len() == (parts.len() - 1) * k,
                ;
                assert(spec_concat_bytes(parts).subrange(j * k, j * k + k) =~= parts.last());
            }
        }
    }
}

/// A copy of a byte vector.
pub fn clone_bytes(v: &Vec<u8>) -> (r: Vec<u8>)
    ensures
        r@ == v@,
{
    let r = v.clone();
    proof {
        assert forall|i: int| 0 <= i < v@.len() implies r@[i] == v@[i] by {
            assert(cloned::<u8>(v@[i], r@[i]));
        }
        assert(r@ =~= v@);
    }
    r
}

/// The bytes of `v` from `start` (inclusive) to `end` (exclusive).
pub fn sub_bytes(v: &Vec<u8>, start: usize, end: usize) -> (r: Vec<u8>)
    requires
        start <= end <= v@.len(),
    ensures
        r@ == v@.subrange(start as int, end as int),
{
    let mut r: Vec<u8> = Vec::new();
    let mut i: usize = start;
    while i < end
        invariant
            start <= i <= end <= v@.len(),
            r@ == v@.subrange(start as int, i as int),
        decreases end - i,
    {
        r.push(v[i]);
        proof {
            assert(v@.subrange(start as int, i + 1 as int) =~= v@.subrange(start as int, i as int).push(v@[i as int]));
        }
        i = i + 1;
    }
    r
}

/// Appends all of `src` to `dst`.
pub fn extend_bytes(dst: &mut Vec<u8>, src: &Vec<u8>)
    ensures
        final(dst)@ == old(dst)@ + src@,
{
    let mut i: usize = 0;
    while i < src.len()
        invariant
            i <= src@.len(),
            dst@ == old(dst)@ + src@.subrange(0, i as int),
        decreases src@.len() - i,
    {
        dst.push(src[i]);
        proof {
            assert(old(dst)@ + src@.subrange(0, i + 1 as int) =~= (old(dst)@ + src@.subrange(0, i as int)).push(src@[i as int]));
        }
        i = i + 1;
    }
    proof {
        assert(src@.subrange(0, src@.len() as int) =~= src@);
    }
}

} // verus!
