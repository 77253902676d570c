//! The library-wide laws: wire round trips, the quorum gate, and
//! shard-merge counting, proved over the spec-level models that the
//! executable functions' contracts are stated in.

use vstd::prelude::*;

use vstd::arithmetic::div_mod::lemma_div_multiples_vanish;
use vstd::arithmetic::div_mod::lemma_mod_multiples_basic;

use crate::authenticator::account_public_key_decodable;
use crate::authenticator::account_signature_decodable;
use crate::authenticator::spec_is_merge_of;
use crate::authenticator::spec_multi_entries_verify;
use crate::authenticator::spec_multi_signature_authorizes;
use crate::authenticator::AccountPublicKey;
use crate::authenticator::AccountSignature;
use crate::bitmap::lemma_bitmap_positions_roundtrip;
use crate::bitmap::lemma_bytes_bitmap_roundtrip;
use crate::bitmap::spec_bitmap;
use crate::bitmap::spec_bitmap_bytes;
use crate::bitmap::spec_bitmap_of_bytes;
use crate::bitmap::spec_bitmap_positions;
use crate::bytes_util::lemma_concat_bytes_uniform;
use crate::bytes_util::spec_concat_bytes;
use crate::multi_ed25519::lemma_position_set_len;
use crate::multi_ed25519::multi_public_key_decodable;
use crate::multi_ed25519::multi_signature_decodable;
use crate::multi_ed25519::MultiPublicKeyModel;
use crate::multi_ed25519::MultiSignatureModel;
use crate::multi_ed25519::MultiSignatureShardModel;

verus! {

/// The wire bytes of a well-formed multi public key decode, and the
/// chunks decode to the keys that were encoded.
pub proof fn lemma_multi_public_key_encoding_decodable(k: MultiPublicKeyModel)
    requires
        k.wf(),
    ensures
        multi_public_key_decodable(k.to_bytes()),
{
    let b = k.to_bytes();
    let n = k.keys.len() as int;
    lemma_concat_bytes_uniform(k.keys, 32);
    assert(b.len() == n * 32 + 1);
    lemma_mod_multiples_basic(n, 32);
    assert((b.len() - 1) % 32 == 0);
    lemma_div_multiples_vanish(n, 32);
    assert((b.len() - 1) / 32 == n);
    assert(b.last() == k.threshold);
    assert forall|j: int| 0 <= j < n implies crate::crypto::ed25519_point_valid(
        #[trigger] b.subrange(32 * j, 32 * j + 32),
    ) by {
        assert(j * 32 + 32 <= n * 32) by (nonlinear_arith)
            requires
                0 <= j < n,
        ;
        assert(spec_concat_bytes(k.keys).subrange(j * 32, j * 32 + 32) == k.keys[j]);
        assert(b.subrange(j * 32, j * 32 + 32) =~= spec_concat_bytes(k.keys).subrange(
            j * 32,
            j * 32 + 32,
        ));
    }
}

/// Round trip for account public keys: the raw-bytes encoding of any
/// well-formed key decodes, and — by the decoder's own contract —
/// re-encoding what was decoded yields the original bytes, for both
/// the single and the multi variant.
pub proof fn lemma_account_public_key_round_trip(k: AccountPublicKey)
    requires
        k.wf(),
    ensures
        account_public_key_decodable(k.spec_to_bytes()),
{
    match k {
        AccountPublicKey::Single(_) => {
        },
        AccountPublicKey::Multi(mk) => {
            lemma_multi_public_key_encoding_decodable(mk@);
            assert(mk@.to_bytes().len() != 32) by {
                if mk@.to_bytes().len() == 32 {
                    assert((mk@.to_bytes().len() - 1) % 32 == 31);
                }
            }
        },
    }
}

/// The wire bytes of a well-formed aggregated multi signature decode.
pub proof fn lemma_multi_signature_encoding_decodable(s: MultiSignatureModel)
    requires
        s.wf(),
    ensures
        multi_signature_decodable(s.to_bytes()),
        s.to_bytes().len() == s.entries.len() * 64 + 4,
{
    let b = s.to_bytes();
    let m = s.entries.len() as int;
    let sigs = s.entries.map_values(|e: (u8, Seq<u8>)| e.1);
    assert(forall|i: int| 0 <= i < m ==> (#[trigger] sigs[i]).len() == 64);
    lemma_concat_bytes_uniform(sigs, 64);
    assert(b.len() == m * 64 + 4);
    lemma_mod_multiples_basic(m, 64);
    lemma_div_multiples_vanish(m, 64);
    assert((b.len() - 4) % 64 == 0);
    assert((b.len() - 4) / 64 == m);
    let bm = spec_bitmap(s.positions());
    assert(s.positions().len() == m);
    assert forall|i: int| 0 <= i < m implies (#[trigger] s.positions()[i]) < 32 by {
        assert(s.positions()[i] == s.entries[i].0);
    }
    assert forall|i: int, j: int| 0 <= i < j < m implies s.positions()[i] < s.positions()[j] by {
        assert(s.positions()[i] == s.entries[i].0);
        assert(s.positions()[j] == s.entries[j].0);
    }
    lemma_bitmap_positions_roundtrip(s.positions());
    assert(spec_bitmap_positions(bm) == s.positions());
    let bb = spec_bitmap_bytes(bm);
    assert(b =~= spec_concat_bytes(sigs) + bb);
    assert(b[b.len() - 4] == bb[0] && b[b.len() - 3] == bb[1] && b[b.len() - 2] == bb[2] && b[b.len()
        - 1] == bb[3]);
    lemma_bytes_bitmap_roundtrip(bb[0], bb[1], bb[2], bb[3]);
    assert(spec_bitmap_bytes(spec_bitmap_of_bytes(bb[0], bb[1], bb[2], bb[3])) == seq![
        bb[0],
        bb[1],
        bb[2],
        bb[3],
    ]);
    assert(spec_bitmap_of_bytes(bb[0], bb[1], bb[2], bb[3]) == bm) by {
        crate::bitmap::lemma_bitmap_bytes_roundtrip(bm);
    }
    assert(spec_bitmap_positions(spec_bitmap_of_bytes(bb[0], bb[1], bb[2], bb[3])).len() == m);
}

/// Round trip for account signatures: the raw-bytes encoding of a
/// well-formed signature decodes — and, by the decoder's contract,
/// re-encodes to the original bytes — for the single variant always,
/// and for a threshold shard in which every signer position has
/// contributed.  (A partial shard's encoding re-parses against a
/// different key count, because the decoder solves the key count from
/// the total length assuming one signature per key; that is a wire
/// constraint of the format, not of this implementation.)
pub proof fn lemma_account_signature_round_trip(s: AccountSignature)
    requires
        s.wf(),
        s matches AccountSignature::Multi(k, sh) ==> sh@.signature.entries.len()
            == k@.keys.len(),
    ensures
        account_signature_decodable(s.spec_to_bytes()),
{
    match s {
        AccountSignature::Single(k, sg) => {
            let b = s.spec_to_bytes();
            assert(b.len() == 96);
            assert(b.subrange(0, 32) =~= k@);
        },
        AccountSignature::Multi(k, sh) => {
            let b = s.spec_to_bytes();
            let n = k@.keys.len() as int;
            let pkb = k@.to_bytes();
            let sgb = sh@.signature.to_bytes();
            lemma_concat_bytes_uniform(k@.keys, 32);
            assert(pkb.len() == n * 32 + 1);
            lemma_multi_signature_encoding_decodable(sh@.signature);
            assert(sgb.len() == n * 64 + 4);
            assert(b.len() == pkb.len() + sgb.len() + 1);
            assert(b.len() == n * 96 + 6) by (nonlinear_arith)
                requires
                    b.len() == (n * 32 + 1) + (n * 64 + 4) + 1,
            ;
            assert(b.len() >= 102) by (nonlinear_arith)
                requires
                    b.len() == n * 96 + 6,
                    n >= 1,
            ;
            lemma_mod_multiples_basic(n, 96);
            lemma_div_multiples_vanish(n, 96);
            assert((b.len() - 6) / 96 == n);
            let key_len = n * 32 + 1;
            assert(((b.len() - 6) / 96) * 32 + 1 == key_len);
            assert(key_len + 1 <= b.len()) by (nonlinear_arith)
                requires
                    key_len == n * 32 + 1,
                    b.len() == n * 96 + 6,
                    n >= 1,
            ;
            assert(b.subrange(0, key_len) =~= pkb);
            lemma_multi_public_key_encoding_decodable(k@);
            assert(b.subrange(key_len, b.len() - 1) =~= sgb);
        },
    }
}

/// The quorum gate, spec side: a shard whose contributions all check
/// out and whose count meets the key's quorum authorizes the message
/// as a complete threshold signature.  Together with
/// `build_transaction`'s contract — which promotes exactly the
/// shard's aggregated signature and key, and only at quorum — and
/// `TransactionAuthenticator::verify`'s contract, the authenticator
/// built from such a shard verifies against the original message.
pub proof fn lemma_complete_shard_authorizes(
    pk: MultiPublicKeyModel,
    shard: MultiSignatureShardModel,
    message: Seq<u8>,
)
    requires
        shard.is_complete(),
        shard.threshold == pk.threshold,
        spec_multi_entries_verify(pk, shard.signature, message),
    ensures
        spec_multi_signature_authorizes(pk, shard.signature, message),
{
}

/// Merging shards over disjoint signer positions adds their counts:
/// the merged shard covers the union, and the union of disjoint sets
/// is as large as both together.
pub proof fn lemma_merge_disjoint_counts(m: AccountSignature, a: AccountSignature, b: AccountSignature)
    requires
        a.wf(),
        b.wf(),
        spec_is_merge_of(m, a, b),
        a matches AccountSignature::Multi(k1, s1) ==> (b matches AccountSignature::Multi(k2, s2)
            ==> s1@.signature.position_set().disjoint(s2@.signature.position_set())),
    ensures
        m matches AccountSignature::Multi(mk, ms) ==> (a matches AccountSignature::Multi(k1, s1)
            ==> (b matches AccountSignature::Multi(k2, s2) ==> ms@.signature.entries.len()
            == s1@.signature.entries.len() + s2@.signature.entries.len())),
{
    match (m, a, b) {
        (
            AccountSignature::Multi(mk, ms),
            AccountSignature::Multi(k1, s1),
            AccountSignature::Multi(k2, s2),
        ) => {
            let sa = s1@.signature.position_set();
            let sb = s2@.signature.position_set();
            lemma_position_set_len(s1@.signature);
            lemma_position_set_len(s2@.signature);
            vstd::set_lib::lemma_set_disjoint_lens(sa, sb);
            assert(sa + sb == sa.union(sb));
        },
        _ => {
        },
    }
}

/// Shards for the same account and message stay combinable: if every
/// contribution of both shards checks out, every contribution of
/// their merge does too, since each merged entry came from one of the
/// two sides and both speak for the same key.
pub proof fn lemma_merge_preserves_verification(
    m: AccountSignature,
    a: AccountSignature,
    b: AccountSignature,
    message: Seq<u8>,
)
    requires
        spec_is_merge_of(m, a, b),
        a.spec_verifies(message),
        b.spec_verifies(message),
    ensures
        m.spec_verifies(message),
{
    match (m, a, b) {
        (
            AccountSignature::Multi(mk, ms),
            AccountSignature::Multi(k1, s1),
            AccountSignature::Multi(k2, s2),
        ) => {
            assert forall|i: int| 0 <= i < ms@.signature.entries.len() implies ((
            #[trigger] ms@.signature.entries[i]).0 as int) < mk@.keys.len() && crate::crypto::ed25519_verifies(
                mk@.keys[ms@.signature.entries[i].0 as int],
                message,
                ms@.signature.entries[i].1,
            ) by {
                let e = ms@.signature.entries[i];
                if s1@.signature.entries.contains(e) {
                    let t = choose|t: int|
                        0 <= t < s1@.signature.entries.len() && s1@.signature.entries[t] == e;
                    assert((s1@.signature.entries[t].0 as int) < k1@.keys.len());
                    assert(crate::crypto::ed25519_verifies(
                        k1@.keys[s1@.signature.entries[t].0 as int],
                        message,
                        s1@.signature.entries[t].1,
                    ));
                } else {
                    assert(s2@.signature.entries.contains(e));
                    let t = choose|t: int|
                        0 <= t < s2@.signature.entries.len() && s2@.signature.entries[t] == e;
                    assert((s2@.signature.entries[t].0 as int) < k2@.keys.len());
                    assert(crate::crypto::ed25519_verifies(
                        k2@.keys[s2@.signature.entries[t].0 as int],
                        message,
                        s2@.signature.entries[t].1,
                    ));
                }
            }
        },
        _ => {
        },
    }
}

/// Merging a shard with one whose positions it already covers does
/// not change the count: repeated contributions are never counted
/// twice.
pub proof fn lemma_merge_no_double_count(m: AccountSignature, a: AccountSignature, b: AccountSignature)
    requires
        a.wf(),
        b.wf(),
        spec_is_merge_of(m, a, b),
        a matches AccountSignature::Multi(k1, s1) ==> (b matches AccountSignature::Multi(k2, s2)
            ==> s2@.signature.position_set().subset_of(s1@.signature.position_set())),
    ensures
        m matches AccountSignature::Multi(mk, ms) ==> (a matches AccountSignature::Multi(k1, s1)
            ==> ms@.signature.entries.len() == s1@.signature.entries.len()),
{
    match (m, a, b) {
        (
            AccountSignature::Multi(mk, ms),
            AccountSignature::Multi(k1, s1),
            AccountSignature::Multi(k2, s2),
        ) => {
            let sa = s1@.signature.position_set();
            let sb = s2@.signature.position_set();
            lemma_position_set_len(s1@.signature);
            assert(sa.union(sb) =~= sa);
        },
        _ => {
        },
    }
}

} // verus!
