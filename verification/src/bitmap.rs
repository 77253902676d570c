//! The 32-bit signer bitmap of a threshold signature.
//!
//! Bit `p` of the bitmap — counted from the most significant bit of the
//! first byte — says that signer position `p` contributed a signature.

use vstd::prelude::*;

verus! {

/// The one-bit mask of a signer position.
pub open spec fn spec_position_mask(p: u8) -> u32
    recommends
        p < 32,
{
    1u32 << ((31 - p) as u32)
}

/// The bitmap with exactly the given positions set.
pub open spec fn spec_bitmap(positions: Seq<u8>) -> u32
    decreases positions.len(),
{
    if positions.len() == 0 {
        0u32
    } else {
        spec_bitmap(positions.drop_last()) | spec_position_mask(positions.last())
    }
}

/// Whether position `p` is set in a bitmap.
pub open spec fn spec_bit_set(bm: u32, p: int) -> bool {
    0 <= p < 32 && (bm >> ((31 - p) as u32)) & 1u32 == 1u32
}

/// The four-byte big-endian wire form of a bitmap.
pub open spec fn spec_bitmap_bytes(bm: u32) -> Seq<u8> {
    seq![
        ((bm >> 24) & 0xff) as u8,
        ((bm >> 16) & 0xff) as u8,
        ((bm >> 8) & 0xff) as u8,
        (bm & 0xff) as u8,
    ]
}

/// The bitmap read back from its four wire bytes.
pub open spec fn spec_bitmap_of_bytes(b0: u8, b1: u8, b2: u8, b3: u8) -> u32 {
    ((b0 as u32) << 24) | ((b1 as u32) << 16) | ((b2 as u32) << 8) | (b3 as u32)
}

/// The positions below `n` that are set in a bitmap, in increasing
/// order.
pub open spec fn spec_positions_upto(bm: u32, n: int) -> Seq<u8>
    decreases n,
{
    if n <= 0 {
        Seq::empty()
    } else if spec_bit_set(bm, n - 1) {
        spec_positions_upto(bm, n - 1).push((n - 1) as u8)
    } else {
        spec_positions_upto(bm, n - 1)
    }
}

/// All positions set in a bitmap, in increasing order.
pub open spec fn spec_bitmap_positions(bm: u32) -> Seq<u8> {
    spec_positions_upto(bm, 32)
}

/// The mask selecting positions below `n`.
pub open spec fn spec_himask(n: int) -> u32 {
    if n <= 0 {
        0u32
    } else if n >= 32 {
        0xffff_ffffu32
    } else {
        0xffff_ffffu32 << ((32 - n) as u32)
    }
}

/// Reading the positions of a bitmap and re-assembling them gives the
/// bitmap back, masked to the positions considered.
pub proof fn lemma_positions_upto_bitmap(bm: u32, n: int)
    requires
        0 <= n <= 32,
    ensures
        spec_bitmap(spec_positions_upto(bm, n)) == bm & spec_himask(n),
    decreases n,
{
    if n == 0 {
        assert(bm & 0u32 == 0u32) by (bit_vector);
    } else {
        lemma_positions_upto_bitmap(bm, n - 1);
        let prev = spec_positions_upto(bm, n - 1);
        let h1 = spec_himask(n - 1);
        let h2 = spec_himask(n);
        let k = (n - 1) as u32;
        assert(h1 == (if k == 0 { 0u32 } else { 0xffff_ffffu32 << ((32 - k) as u32) }));
        assert(h2 == (if k == 31 { 0xffff_ffffu32 } else { 0xffff_ffffu32 << ((31 - k) as u32) }));
        if spec_bit_set(bm, n - 1) {
            assert(spec_positions_upto(bm, n).drop_last() =~= prev);
            assert(spec_bitmap(spec_positions_upto(bm, n)) == spec_bitmap(prev) | spec_position_mask(
                k as u8,
            ));
            assert((bm & h1) | (1u32 << ((31 - k) as u32)) == bm & h2) by (bit_vector)
                requires
                    k < 32,
                    (bm >> ((31 - k) as u32)) & 1u32 == 1u32,
                    h1 == (if k == 0 { 0u32 } else { 0xffff_ffffu32 << ((32 - k) as u32) }),
                    h2 == (if k == 31 { 0xffff_ffffu32 } else { 0xffff_ffffu32 << ((31 - k) as u32) }),
            ;
        } else {
            assert(bm & h1 == bm & h2) by (bit_vector)
                requires
                    k < 32,
                    (bm >> ((31 - k) as u32)) & 1u32 != 1u32,
                    h1 == (if k == 0 { 0u32 } else { 0xffff_ffffu32 << ((32 - k) as u32) }),
                    h2 == (if k == 31 { 0xffff_ffffu32 } else { 0xffff_ffffu32 << ((31 - k) as u32) }),
            ;
        }
    }
}

/// The positions read from a bitmap are strictly increasing and below
/// the bound considered.
pub proof fn lemma_positions_upto_sorted(bm: u32, n: int)
    requires
        n <= 32,
    ensures
        forall|i: int|
            0 <= i < spec_positions_upto(bm, n).len() ==> (#[trigger] spec_positions_upto(bm, n)[i])
                < n,
        forall|i: int, j: int|
            0 <= i < j < spec_positions_upto(bm, n).len() ==> spec_positions_upto(bm, n)[i]
                < spec_positions_upto(bm, n)[j],
        spec_positions_upto(bm, n).len() <= (if n >= 0 { n } else { 0 }),
    decreases n,
{
    if n > 0 {
        lemma_positions_upto_sorted(bm, n - 1);
    }
}

/// Considering more positions never drops any that were already read.
pub proof fn lemma_positions_upto_len_mono(bm: u32, a: int, b: int)
    requires
        a <= b,
    ensures
        spec_positions_upto(bm, a).len() <= spec_positions_upto(bm, b).len(),
    decreases b - a,
{
    if a < b {
        lemma_positions_upto_len_mono(bm, a, b - 1);
    }
}

/// Over the whole width the mask selects everything.
pub proof fn lemma_bitmap_positions_bitmap(bm: u32)
    ensures
        spec_bitmap(spec_bitmap_positions(bm)) == bm,
{
    lemma_positions_upto_bitmap(bm, 32);
    assert(bm & 0xffff_ffffu32 == bm) by (bit_vector);
}

/// A bit of an assembled bitmap is set exactly for the positions
/// assembled into it.
pub proof fn lemma_bitmap_bit_contains(ps: Seq<u8>)
    requires
        forall|i: int| 0 <= i < ps.len() ==> (#[trigger] ps[i]) < 32,
    ensures
        forall|q: int| 0 <= q < 32 ==> (spec_bit_set(spec_bitmap(ps), q) <==> ps.contains(q as u8)),
    decreases ps.len(),
{
    if ps.len() == 0 {
        assert forall|q: int| 0 <= q < 32 implies !spec_bit_set(spec_bitmap(ps), q) by {
            let qq = (31 - q) as u32;
            assert((0u32 >> qq) & 1u32 != 1u32) by (bit_vector);
        }
        assert(forall|q: int| 0 <= q < 32 ==> !ps.contains(#[trigger] (q as u8)));
    } else {
        let prev = ps.drop_last();
        let p = ps.last();
        lemma_bitmap_bit_contains(prev);
        let bm0 = spec_bitmap(prev);
        let bm = spec_bitmap(ps);
        assert(bm == bm0 | spec_position_mask(p));
        assert forall|q: int| 0 <= q < 32 implies (spec_bit_set(bm, q) <==> (spec_bit_set(bm0, q)
            || q == p as int)) by {
            let qq = (31 - q) as u32;
            let pp = p as u32;
            assert((((bm0 | (1u32 << ((31 - pp) as u32))) >> qq) & 1u32 == 1u32) <==> (((bm0 >> qq)
                & 1u32 == 1u32) || qq == (31 - pp) as u32)) by (bit_vector)
                requires
                    pp < 32,
                    qq < 32,
            ;
            assert(qq == (31 - pp) as u32 <==> q == p as int);
        }
        assert forall|q: int| 0 <= q < 32 implies (ps.contains(#[trigger] (q as u8)) <==> (
        prev.contains(q as u8) || q == p as int)) by {
            if ps.contains(q as u8) {
                let i = choose|i: int| 0 <= i < ps.len() && ps[i] == q as u8;
                if i < ps.len() - 1 {
                    assert(prev[i] == q as u8);
                    assert(prev.contains(q as u8));
                }
            }
            if prev.contains(q as u8) {
                let i = choose|i: int| 0 <= i < prev.len() && prev[i] == q as u8;
                assert(ps[i] == q as u8);
            }
            if q == p as int {
                assert(ps[ps.len() - 1] == q as u8);
            }
        }
    }
}

/// Reading positions looks only at the bits below the bound.
pub proof fn lemma_positions_upto_same_bits(b1: u32, b2: u32, n: int)
    requires
        n <= 32,
        forall|i: int| 0 <= i < n ==> (spec_bit_set(b1, i) <==> spec_bit_set(b2, i)),
    ensures
        spec_positions_upto(b1, n) == spec_positions_upto(b2, n),
    decreases n,
{
    if n > 0 {
        lemma_positions_upto_same_bits(b1, b2, n - 1);
    }
}

/// Reading the positions of an assembled bitmap gives back exactly
/// the positions that were assembled, when they were strictly
/// increasing.
pub proof fn lemma_bitmap_positions_roundtrip(ps: Seq<u8>)
    requires
        forall|i: int| 0 <= i < ps.len() ==> (#[trigger] ps[i]) < 32,
        forall|i: int, j: int| 0 <= i < j < ps.len() ==> ps[i] < ps[j],
    ensures
        spec_bitmap_positions(spec_bitmap(ps)) == ps,
{
    lemma_positions_upto_exact(ps, 32);
}

/// The inductive core of the round trip: positions below `n` read
/// back exactly, for position lists bounded by `n`.
proof fn lemma_positions_upto_exact(ps: Seq<u8>, n: int)
    requires
        0 <= n <= 32,
        forall|i: int| 0 <= i < ps.len() ==> (#[trigger] ps[i]) < n,
        forall|i: int, j: int| 0 <= i < j < ps.len() ==> ps[i] < ps[j],
    ensures
        spec_positions_upto(spec_bitmap(ps), n) == ps,
    decreases n,
{
    let bm = spec_bitmap(ps);
    if n == 0 {
        assert(ps =~= Seq::empty());
        assert(spec_positions_upto(bm, 0) =~= Seq::empty());
    } else {
        lemma_bitmap_bit_contains(ps);
        if ps.len() > 0 && ps.last() == (n - 1) as u8 {
            let prev = ps.drop_last();
            let bm0 = spec_bitmap(prev);
            assert(bm == bm0 | spec_position_mask((n - 1) as u8));
            assert forall|i: int| 0 <= i < prev.len() implies (#[trigger] prev[i]) < n - 1 by {
                assert(prev[i] == ps[i]);
                assert(ps[i] < ps[ps.len() - 1]);
            }
            lemma_positions_upto_exact(prev, n - 1);
            assert forall|i: int| 0 <= i < n - 1 implies (spec_bit_set(bm0, i) <==> spec_bit_set(
                bm,
                i,
            )) by {
                let qq = (31 - i) as u32;
                let pp = (n - 1) as u32;
                assert((((bm0 | (1u32 << ((31 - pp) as u32))) >> qq) & 1u32 == 1u32) <==> ((bm0
                    >> qq) & 1u32 == 1u32)) by (bit_vector)
                    requires
                        pp < 32,
                        qq < 32,
                        qq != (31 - pp) as u32,
                ;
            }
            lemma_positions_upto_same_bits(bm0, bm, n - 1);
            assert(spec_bit_set(bm, n - 1)) by {
                assert(ps.contains((n - 1) as u8));
            }
            assert(spec_positions_upto(bm, n) == spec_positions_upto(bm, n - 1).push(
                (n - 1) as u8,
            ));
            assert(spec_positions_upto(bm, n) =~= ps);
        } else {
            assert forall|i: int| 0 <= i < ps.len() implies (#[trigger] ps[i]) < n - 1 by {
                if ps[i] == (n - 1) as u8 {
                    assert(i < ps.len() - 1 ==> ps[i] < ps[ps.len() - 1]);
                }
            }
            lemma_positions_upto_exact(ps, n - 1);
            assert(!ps.contains((n - 1) as u8)) by {
                if ps.contains((n - 1) as u8) {
                    let i = choose|i: int| 0 <= i < ps.len() && ps[i] == (n - 1) as u8;
                }
            }
            assert(!spec_bit_set(bm, n - 1));
            assert(spec_positions_upto(bm, n) == spec_positions_upto(bm, n - 1));
        }
    }
}

/// Writing a bitmap out as four bytes and reading them back is the
/// identity.
pub proof fn lemma_bitmap_bytes_roundtrip(bm: u32)
    ensures
        spec_bitmap_of_bytes(
            ((bm >> 24) & 0xff) as u8,
            ((bm >> 16) & 0xff) as u8,
            ((bm >> 8) & 0xff) as u8,
            (bm & 0xff) as u8,
        ) == bm,
{
    let b0 = ((bm >> 24) & 0xff) as u8;
    let b1 = ((bm >> 16) & 0xff) as u8;
    let b2 = ((bm >> 8) & 0xff) as u8;
    let b3 = (bm & 0xff) as u8;
    assert(((b0 as u32) << 24) | ((b1 as u32) << 16) | ((b2 as u32) << 8) | (b3 as u32) == bm)
        by (bit_vector)
        requires
            b0 == ((bm >> 24) & 0xff) as u8,
            b1 == ((bm >> 16) & 0xff) as u8,
            b2 == ((bm >> 8) & 0xff) as u8,
            b3 == (bm & 0xff) as u8,
    ;
}

/// Reading four bytes as a bitmap and writing it out again gives the
/// same bytes.
pub proof fn lemma_bytes_bitmap_roundtrip(b0: u8, b1: u8, b2: u8, b3: u8)
    ensures
        spec_bitmap_bytes(spec_bitmap_of_bytes(b0, b1, b2, b3)) == seq![b0, b1, b2, b3],
{
    let bm = spec_bitmap_of_bytes(b0, b1, b2, b3);
    assert(((bm >> 24) & 0xff) as u8 == b0 && ((bm >> 16) & 0xff) as u8 == b1 && ((bm >> 8)
        & 0xff) as u8 == b2 && (bm & 0xff) as u8 == b3) by (bit_vector)
        requires
            bm == ((b0 as u32) << 24) | ((b1 as u32) << 16) | ((b2 as u32) << 8) | (b3 as u32),
    ;
    assert(spec_bitmap_bytes(bm) =~= seq![b0, b1, b2, b3]);
}

/// Sets one position in a bitmap.
pub fn bitmap_or_mask(bm: u32, p: u8) -> (r: u32)
    requires
        p < 32,
    ensures
        r == bm | spec_position_mask(p),
{
    bm | (1u32 << ((31 - p) as u32))
}

/// Tests one position of a bitmap.
pub fn bitmap_test(bm: u32, p: u8) -> (r: bool)
    requires
        p < 32,
    ensures
        r == spec_bit_set(bm, p as int),
{
    (bm >> ((31 - p) as u32)) & 1u32 == 1u32
}

/// The four-byte big-endian wire form of a bitmap.
pub fn bitmap_to_bytes(bm: u32) -> (r: Vec<u8>)
    ensures
        r@ == spec_bitmap_bytes(bm),
{
    let mut r: Vec<u8> = Vec::new();
    r.push(((bm >> 24) & 0xff) as u8);
    r.push(((bm >> 16) & 0xff) as u8);
    r.push(((bm >> 8) & 0xff) as u8);
    r.push((bm & 0xff) as u8);
    proof {
        assert(r@ =~= spec_bitmap_bytes(bm));
    }
    r
}

/// Reads a bitmap back from its four wire bytes.
pub fn bitmap_of_bytes(b0: u8, b1: u8, b2: u8, b3: u8) -> (r: u32)
    ensures
        r == spec_bitmap_of_bytes(b0, b1, b2, b3),
{
    ((b0 as u32) << 24) | ((b1 as u32) << 16) | ((b2 as u32) << 8) | (b3 as u32)
}

} // verus!
