//! Threshold multi-signer ed25519 material: the full public key, the
//! partial signature shard, and the local private-key shard.
//!
//! A multi public key is up to 32 ed25519 public keys with a quorum
//! threshold; its wire form is the concatenated key encodings followed by
//! one threshold byte.  A signature shard records which signer positions
//! have signed so far, as 64-byte signatures in position order followed
//! by a four-byte bitmap; the shard's wire form appends its own
//! threshold byte.

use vstd::prelude::*;

use crate::bitmap::spec_bitmap;
use crate::bitmap::spec_bitmap_bytes;
use crate::bitmap::spec_bitmap_of_bytes;
use crate::bitmap::spec_bitmap_positions;
use crate::bitmap::spec_positions_upto;
use crate::bitmap::bitmap_of_bytes;
use crate::bitmap::bitmap_or_mask;
use crate::bitmap::bitmap_test;
use crate::bitmap::bitmap_to_bytes;
use crate::bitmap::lemma_bitmap_positions_bitmap;
use crate::bitmap::lemma_positions_upto_len_mono;
use crate::bitmap::lemma_positions_upto_sorted;
use crate::bitmap::lemma_bytes_bitmap_roundtrip;
use crate::bytes_util::extend_bytes;
use crate::bytes_util::lemma_concat_bytes_take_step;
use crate::bytes_util::lemma_concat_bytes_uniform;
use crate::bytes_util::spec_concat_bytes;
use crate::bytes_util::sub_bytes;
use crate::crypto::ed25519_point_valid;
use crate::crypto::ed25519_signature_of;
use crate::ed25519::Ed25519PrivateKey;
use crate::ed25519::Ed25519PublicKey;
use crate::ed25519::Ed25519Signature;
use crate::error::AuthenticatorError;

verus! {

/// The largest number of signers a multi key may gather.
pub const MAX_NUM_OF_KEYS: usize = 32;

/// The mathematical content of a multi public key: the keys' raw
/// encodings, in signer-position order, and the quorum threshold.
#[verifier::ext_equal]
pub struct MultiPublicKeyModel {
    pub keys: Seq<Seq<u8>>,
    pub threshold: u8,
}

impl MultiPublicKeyModel {
    /// At least one key, at most 32, a threshold the key count can
    /// meet, and every key a valid 32-byte curve point.
    pub open spec fn wf(self) -> bool {
        &&& 1 <= self.threshold as int <= self.keys.len() <= 32
        &&& forall|i: int|
            0 <= i < self.keys.len() ==> (#[trigger] self.keys[i]).len() == 32
                && ed25519_point_valid(self.keys[i])
    }

    /// The wire form: each key's 32 bytes in order, then the threshold
    /// byte.
    pub open spec fn to_bytes(self) -> Seq<u8> {
        spec_concat_bytes(self.keys) + seq![self.threshold]
    }
}

/// Whether raw bytes are a decodable multi public key: between one and
/// 32 key-sized chunks plus a threshold byte the chunk count can meet,
/// every chunk a valid curve point.
pub open spec fn multi_public_key_decodable(b: Seq<u8>) -> bool {
    &&& b.len() >= 1
    &&& (b.len() - 1) % 32 == 0
    &&& 1 <= (b.len() - 1) / 32 <= 32
    &&& 1 <= b.last() as int <= (b.len() - 1) / 32
    &&& forall|j: int|
        0 <= j < (b.len() - 1) / 32 ==> ed25519_point_valid(
            #[trigger] b.subrange(32 * j, 32 * j + 32),
        )
}

/// A threshold multi-signer public key.  Its view is the key material
/// as plain values.
#[derive(Debug)]
pub struct MultiEd25519PublicKey {
    public_keys: Vec<Ed25519PublicKey>,
    threshold: u8,
}

impl View for MultiEd25519PublicKey {
    type V = MultiPublicKeyModel;

    closed spec fn view(&self) -> MultiPublicKeyModel {
        MultiPublicKeyModel {
            keys: self.public_keys@.map_values(|k: Ed25519PublicKey| k@),
            threshold: self.threshold,
        }
    }
}

impl MultiEd25519PublicKey {
    /// A key is well-formed when its model is.
    pub open spec fn wf(self) -> bool {
        self@.wf()
    }

    /// Gathers validated keys and a threshold into a multi key.
    /// More than 32 keys is `InvalidKeyLength`; a zero threshold or one
    /// the key count cannot meet is `InvalidKeyEncoding`.
    pub fn new(public_keys: Vec<Ed25519PublicKey>, threshold: u8) -> (r: Result<
        Self,
        AuthenticatorError,
    >)
        requires
            forall|i: int| 0 <= i < public_keys@.len() ==> (#[trigger] public_keys@[i]).wf(),
        ensures
            r is Ok <==> 1 <= threshold as int <= public_keys@.len() <= 32,
            r matches Ok(k) ==> k.wf() && k@ == (MultiPublicKeyModel {
                keys: public_keys@.map_values(|key: Ed25519PublicKey| key@),
                threshold,
            }),
            public_keys@.len() > 32 ==> r == Err::<Self, _>(AuthenticatorError::InvalidKeyLength),
            public_keys@.len() <= 32 && !(1 <= threshold as int <= public_keys@.len()) ==> r
                == Err::<Self, _>(AuthenticatorError::InvalidKeyEncoding),
    {
        if public_keys.len() > MAX_NUM_OF_KEYS {
            return Err(AuthenticatorError::InvalidKeyLength);
        }
        if threshold == 0 || (threshold as usize) > public_keys.len() {
            return Err(AuthenticatorError::InvalidKeyEncoding);
        }
        Ok(MultiEd25519PublicKey { public_keys, threshold })
    }

    /// The quorum threshold.
    pub fn threshold(&self) -> (r: u8)
        ensures
            r == self@.threshold,
    {
        self.threshold
    }

    /// How many signer positions the key has.
    pub fn key_count(&self) -> (r: usize)
        ensures
            r == self@.keys.len(),
    {
        self.public_keys.len()
    }

    /// The raw encoding of the key at one signer position.
    pub fn key_bytes(&self, i: usize) -> (r: Vec<u8>)
        requires
            i < self@.keys.len(),
        ensures
            r@ == self@.keys[i as int],
    {
        self.public_keys[i].to_bytes()
    }

    /// A copy of the key.
    pub fn duplicate(&self) -> (r: Self)
        ensures
            r@ == self@,
    {
        let mut keys: Vec<Ed25519PublicKey> = Vec::new();
        let mut i: usize = 0;
        while i < self.public_keys.len()
            invariant
                i <= self.public_keys@.len(),
                keys@.len() == i,
                forall|j: int| 0 <= j < i ==> (#[trigger] keys@[j])@ == self.public_keys@[j]@,
            decreases self.public_keys@.len() - i,
        {
            keys.push(self.public_keys[i].duplicate());
            i = i + 1;
        }
        let r = MultiEd25519PublicKey { public_keys: keys, threshold: self.threshold };
        proof {
            assert(r@.keys =~= self@.keys);
            assert(r@ =~= self@);
        }
        r
    }

    /// The wire form of the key: each key's bytes in position order,
    /// then the threshold byte.
    pub fn to_bytes(&self) -> (r: Vec<u8>)
        ensures
            r@ == self@.to_bytes(),
    {
        let ghost keys = self@.keys;
        let mut r: Vec<u8> = Vec::new();
        let mut i: usize = 0;
        while i < self.public_keys.len()
            invariant
                i <= self.public_keys@.len(),
                keys == self@.keys,
                keys.len() == self.public_keys@.len(),
                r@ == spec_concat_bytes(keys.take(i as int)),
            decreases self.public_keys@.len() - i,
        {
            let kb = self.public_keys[i].to_bytes();
            extend_bytes(&mut r, &kb);
            proof {
                lemma_concat_bytes_take_step(keys, i as int);
            }
            i = i + 1;
        }
        proof {
            assert(keys.take(self.public_keys@.len() as int) =~= keys);
        }
        r.push(self.threshold);
        proof {
            assert(r@ =~= self@.to_bytes());
        }
        r
    }

    /// Decodes a multi public key from its wire form.
    pub fn try_from(bytes: &Vec<u8>) -> (r: Result<Self, AuthenticatorError>)
        ensures
            r is Ok <==> multi_public_key_decodable(bytes@),
            r matches Ok(k) ==> k.wf() && k@.to_bytes() == bytes@ && k@.threshold == bytes@.last()
                && k@.keys.len() == (bytes@.len() - 1) / 32,
            r is Err ==> (r == Err::<Self, _>(AuthenticatorError::InvalidKeyLength) || r == Err::<
                Self,
                _,
            >(AuthenticatorError::InvalidKeyEncoding)),
    {
        let n = bytes.len();
        if n < 1 || (n - 1) % 32 != 0 {
            return Err(AuthenticatorError::InvalidKeyLength);
        }
        let count = (n - 1) / 32;
        if count < 1 || count > MAX_NUM_OF_KEYS {
            return Err(AuthenticatorError::InvalidKeyLength);
        }
        let threshold = bytes[n - 1];
        if threshold == 0 || (threshold as usize) > count {
            return Err(AuthenticatorError::InvalidKeyEncoding);
        }
        proof {
            vstd::arithmetic::div_mod::lemma_fundamental_div_mod((bytes@.len() - 1) as int, 32);
        }
        let mut keys: Vec<Ed25519PublicKey> = Vec::new();
        let mut j: usize = 0;
        while j < count
            invariant
                j <= count,
                1 <= count <= 32,
                count == (bytes@.len() - 1) / 32,
                32 * count + 1 == bytes@.len(),
                keys@.len() == j,
                forall|t: int|
                    0 <= t < j ==> (#[trigger] keys@[t])@ == bytes@.subrange(32 * t, 32 * t + 32)
                        && keys@[t].wf(),
            decreases count - j,
        {
            proof {
                assert(32 * (j as int) + 32 <= 32 * (count as int)) by (nonlinear_arith)
                    requires
                        (j as int) + 1 <= count as int,
                ;
            }
            let chunk = sub_bytes(bytes, 32 * j, 32 * j + 32);
            match Ed25519PublicKey::try_from(&chunk) {
                Ok(k) => {
                    keys.push(k);
                },
                Err(_) => {
                    proof {
                        assert(!multi_public_key_decodable(bytes@));
                    }
                    return Err(AuthenticatorError::InvalidKeyEncoding);
                },
            }
            j = j + 1;
        }
        let ghost kseqs = keys@.map_values(|k: Ed25519PublicKey| k@);
        proof {
            assert forall|t: int| 0 <= t < count implies (#[trigger] kseqs[t]).len() == 32
                && ed25519_point_valid(kseqs[t]) && kseqs[t] == bytes@.subrange(
                32 * t,
                32 * t + 32,
            ) by {
                assert(keys@[t].wf());
                assert(kseqs[t] == keys@[t]@);
            }
            lemma_concat_bytes_uniform(kseqs, 32);
            assert forall|i: int| 0 <= i < 32 * (count as int) implies spec_concat_bytes(kseqs)[i]
                == bytes@[i] by {
                let t = i / 32;
                vstd::arithmetic::div_mod::lemma_fundamental_div_mod(i, 32);
                assert(0 <= t < count);
                assert(spec_concat_bytes(kseqs).subrange(t * 32, t * 32 + 32) == kseqs[t]);
                assert(kseqs[t] == bytes@.subrange(32 * t, 32 * t + 32));
                assert(spec_concat_bytes(kseqs)[i] == spec_concat_bytes(kseqs).subrange(
                    t * 32,
                    t * 32 + 32,
                )[i - 32 * t]);
                assert(bytes@[i] == bytes@.subrange(32 * t, 32 * t + 32)[i - 32 * t]);
            }
            assert(spec_concat_bytes(kseqs).len() == 32 * count);
            assert forall|j2: int| 0 <= j2 < (bytes@.len() - 1) / 32 implies ed25519_point_valid(
                #[trigger] bytes@.subrange(32 * j2, 32 * j2 + 32),
            ) by {
                assert(kseqs[j2] == bytes@.subrange(32 * j2, 32 * j2 + 32));
                assert(ed25519_point_valid(kseqs[j2]));
            }
            assert(multi_public_key_decodable(bytes@));
        }
        let r = MultiEd25519PublicKey { public_keys: keys, threshold };
        proof {
            assert(r@.keys =~= kseqs);
            assert(r@.to_bytes() =~= bytes@);
        }
        Ok(r)
    }
}

/// The mathematical content of a partial multi signature: for each
/// contributing signer position, in increasing order, the 64-byte
/// signature it produced.
#[verifier::ext_equal]
pub struct MultiSignatureModel {
    pub entries: Seq<(u8, Seq<u8>)>,
}

impl MultiSignatureModel {
    /// The contributing positions, in order.
    pub open spec fn positions(self) -> Seq<u8> {
        self.entries.map_values(|e: (u8, Seq<u8>)| e.0)
    }

    /// The contributing positions as a set.
    pub open spec fn position_set(self) -> Set<u8> {
        self.positions().to_set()
    }

    /// At most 32 entries, positions strictly increasing and below 32,
    /// each signature 64 bytes.
    pub open spec fn wf(self) -> bool {
        &&& self.entries.len() <= 32
        &&& forall|i: int|
            0 <= i < self.entries.len() ==> (#[trigger] self.entries[i]).0 < 32
                && self.entries[i].1.len() == 64
        &&& forall|i: int, j: int|
            0 <= i < j < self.entries.len() ==> self.entries[i].0 < self.entries[j].0
    }

    /// The wire form: the signatures in position order, then the
    /// four-byte bitmap of contributing positions.
    pub open spec fn to_bytes(self) -> Seq<u8> {
        spec_concat_bytes(self.entries.map_values(|e: (u8, Seq<u8>)| e.1)) + spec_bitmap_bytes(
            spec_bitmap(self.positions()),
        )
    }
}

/// Whether raw bytes are a decodable aggregated multi signature: up to
/// 32 signature-sized chunks followed by a four-byte bitmap with
/// exactly one set bit per chunk.
pub open spec fn multi_signature_decodable(b: Seq<u8>) -> bool {
    &&& b.len() >= 4
    &&& (b.len() - 4) % 64 == 0
    &&& (b.len() - 4) / 64 <= 32
    &&& spec_bitmap_positions(
        spec_bitmap_of_bytes(
            b[b.len() - 4],
            b[b.len() - 3],
            b[b.len() - 2],
            b[b.len() - 1],
        ),
    ).len() == (b.len() - 4) / 64
}

/// One signer's contribution to a threshold signature: its position and
/// its signature.
#[derive(Debug)]
pub struct PositionedSignature {
    pub position: u8,
    pub signature: Ed25519Signature,
}

impl View for PositionedSignature {
    type V = (u8, Seq<u8>);

    open spec fn view(&self) -> (u8, Seq<u8>) {
        (self.position, self.signature@)
    }
}

impl PositionedSignature {
    /// Pairs a signer position with its signature.
    pub fn new(position: u8, signature: Ed25519Signature) -> (r: Self)
        ensures
            r@ == (position, signature@),
    {
        PositionedSignature { position, signature }
    }

    /// A copy of the contribution.
    pub fn duplicate(&self) -> (r: Self)
        ensures
            r@ == self@,
    {
        PositionedSignature { position: self.position, signature: self.signature.duplicate() }
    }
}

/// Strictly increasing adjacent positions order every pair.
proof fn lemma_adjacent_positions_ordered(entries: Seq<(u8, Seq<u8>)>, i: int, j: int)
    requires
        forall|t: int|
            0 <= t < entries.len() - 1 ==> (#[trigger] entries[t]).0 < entries[t + 1].0,
        0 <= i < j < entries.len(),
    ensures
        entries[i].0 < entries[j].0,
    decreases j - i,
{
    if i + 1 < j {
        lemma_adjacent_positions_ordered(entries, i, j - 1);
    }
}

/// An aggregated, possibly partial, multi-signer signature: one
/// signature per contributing position.  Its view is the contributions
/// as plain values.
#[derive(Debug)]
pub struct MultiEd25519Signature {
    entries: Vec<PositionedSignature>,
}

impl View for MultiEd25519Signature {
    type V = MultiSignatureModel;

    closed spec fn view(&self) -> MultiSignatureModel {
        MultiSignatureModel { entries: self.entries@.map_values(|e: PositionedSignature| e@) }
    }
}

impl MultiEd25519Signature {
    /// A signature is well-formed when its model is.
    pub open spec fn wf(self) -> bool {
        self@.wf()
    }

    /// Gathers contributions into an aggregated signature.  The
    /// positions must be strictly increasing, below 32, and at most 32
    /// in number; anything else is `InvalidSignatureEncoding`.
    pub fn new(entries: Vec<PositionedSignature>) -> (r: Result<Self, AuthenticatorError>)
        requires
            forall|i: int| 0 <= i < entries@.len() ==> (#[trigger] entries@[i])@.1.len() == 64,
        ensures
            r is Ok <==> (MultiSignatureModel {
                entries: entries@.map_values(|e: PositionedSignature| e@),
            }).wf(),
            r matches Ok(s) ==> s.wf() && s@ == (MultiSignatureModel {
                entries: entries@.map_values(|e: PositionedSignature| e@),
            }),
            r is Err ==> r == Err::<Self, _>(AuthenticatorError::InvalidSignatureEncoding),
    {
        let ghost model = MultiSignatureModel {
            entries: entries@.map_values(|e: PositionedSignature| e@),
        };
        if entries.len() > 32 {
            return Err(AuthenticatorError::InvalidSignatureEncoding);
        }
        let mut i: usize = 0;
        while i < entries.len()
            invariant
                i <= entries@.len() <= 32,
                model == (MultiSignatureModel {
                    entries: entries@.map_values(|e: PositionedSignature| e@),
                }),
                forall|t: int| 0 <= t < i ==> (#[trigger] model.entries[t]).0 < 32,
                forall|t: int|
                    0 <= t < i - 1 ==> (#[trigger] model.entries[t]).0 < model.entries[t + 1].0,
            decreases entries@.len() - i,
        {
            if entries[i].position >= 32 {
                proof {
                    assert(model.entries[i as int].0 >= 32);
                    assert(!model.wf());
                }
                return Err(AuthenticatorError::InvalidSignatureEncoding);
            }
            if i > 0 && entries[i - 1].position >= entries[i].position {
                proof {
                    assert(!(model.entries[i - 1].0 < model.entries[i as int].0));
                    assert(!model.wf());
                }
                return Err(AuthenticatorError::InvalidSignatureEncoding);
            }
            i = i + 1;
        }
        proof {
            assert forall|a: int, b: int|
                0 <= a < b < model.entries.len() implies model.entries[a].0
                < model.entries[b].0 by {
                lemma_adjacent_positions_ordered(model.entries, a, b);
            }
        }
        Ok(MultiEd25519Signature { entries })
    }

    /// How many positions have contributed.
    pub fn signature_count(&self) -> (r: usize)
        ensures
            r == self@.entries.len(),
    {
        self.entries.len()
    }

    /// Finds the index holding a position's contribution, if that
    /// position has signed.
    pub fn find_position(&self, p: u8) -> (r: Option<usize>)
        ensures
            r matches Some(i) ==> i < self@.entries.len() && self@.entries[i as int].0 == p,
            r is None ==> !self@.positions().contains(p),
    {
        let mut i: usize = 0;
        while i < self.entries.len()
            invariant
                i <= self@.entries.len(),
                forall|t: int| 0 <= t < i ==> (#[trigger] self@.entries[t]).0 != p,
            decreases self@.entries.len() - i,
        {
            if self.entries[i].position == p {
                return Some(i);
            }
            i = i + 1;
        }
        proof {
            assert forall|t: int| 0 <= t < self@.positions().len() implies #[trigger] self@.positions()[t] != p by {
                assert(self@.entries[t].0 != p);
            }
        }
        None
    }

    /// The contribution at an index, copied out.
    pub fn entry_at(&self, i: usize) -> (r: PositionedSignature)
        requires
            i < self@.entries.len(),
        ensures
            r@ == self@.entries[i as int],
    {
        self.entries[i].duplicate()
    }

    /// A copy of the signature.
    pub fn duplicate(&self) -> (r: Self)
        ensures
            r@ == self@,
    {
        let mut entries: Vec<PositionedSignature> = Vec::new();
        let mut i: usize = 0;
        while i < self.entries.len()
            invariant
                i <= self.entries@.len(),
                entries@.len() == i,
                forall|t: int| 0 <= t < i ==> (#[trigger] entries@[t])@ == self.entries@[t]@,
            decreases self.entries@.len() - i,
        {
            entries.push(self.entries[i].duplicate());
            i = i + 1;
        }
        let r = MultiEd25519Signature { entries };
        proof {
            assert(r@.entries =~= self@.entries);
            assert(r@ =~= self@);
        }
        r
    }

    /// The wire form of the signature: the 64-byte signatures in
    /// position order, then the four-byte bitmap.
    pub fn to_bytes(&self) -> (r: Vec<u8>)
        requires
            self.wf(),
        ensures
            r@ == self@.to_bytes(),
    {
        let ghost sigs = self@.entries.map_values(|e: (u8, Seq<u8>)| e.1);
        let mut r: Vec<u8> = Vec::new();
        let mut i: usize = 0;
        while i < self.entries.len()
            invariant
                i <= self.entries@.len(),
                sigs == self@.entries.map_values(|e: (u8, Seq<u8>)| e.1),
                sigs.len() == self.entries@.len(),
                self.wf(),
                r@ == spec_concat_bytes(sigs.take(i as int)),
            decreases self.entries@.len() - i,
        {
            let sb = self.entries[i].signature.to_bytes();
            extend_bytes(&mut r, &sb);
            proof {
                lemma_concat_bytes_take_step(sigs, i as int);
                assert(sigs[i as int] == self@.entries[i as int].1);
            }
            i = i + 1;
        }
        proof {
            assert(sigs.take(self.entries@.len() as int) =~= sigs);
        }
        let bm = self.compute_bitmap();
        let bmb = bitmap_to_bytes(bm);
        extend_bytes(&mut r, &bmb);
        proof {
            assert(r@ =~= self@.to_bytes());
        }
        r
    }

    /// The bitmap of contributing positions.
    pub fn compute_bitmap(&self) -> (r: u32)
        requires
            self.wf(),
        ensures
            r == spec_bitmap(self@.positions()),
    {
        let ghost ps = self@.positions();
        let mut bm: u32 = 0;
        let mut i: usize = 0;
        while i < self.entries.len()
            invariant
                i <= self.entries@.len(),
                ps == self@.positions(),
                ps.len() == self.entries@.len(),
                self.wf(),
                bm == spec_bitmap(ps.take(i as int)),
            decreases self.entries@.len() - i,
        {
            proof {
                assert(self@.entries[i as int].0 < 32);
                assert(ps[i as int] == self@.entries[i as int].0);
            }
            bm = bitmap_or_mask(bm, self.entries[i].position);
            proof {
                assert(ps.take(i + 1 as int).drop_last() =~= ps.take(i as int));
                assert(ps.take(i + 1 as int).last() == ps[i as int]);
            }
            i = i + 1;
        }
        proof {
            assert(ps.take(self.entries@.len() as int) =~= ps);
        }
        bm
    }

    /// Decodes an aggregated multi signature from its wire form: the
    /// bitmap must carry exactly one set bit per 64-byte chunk.
    pub fn try_from(bytes: &Vec<u8>) -> (r: Result<Self, AuthenticatorError>)
        ensures
            r is Ok <==> multi_signature_decodable(bytes@),
            r matches Ok(s) ==> s.wf() && s@.to_bytes() == bytes@,
            r is Err ==> r == Err::<Self, _>(AuthenticatorError::InvalidSignatureEncoding),
    {
        let n = bytes.len();
        if n < 4 || (n - 4) % 64 != 0 {
            return Err(AuthenticatorError::InvalidSignatureEncoding);
        }
        let count = (n - 4) / 64;
        if count > MAX_NUM_OF_KEYS {
            return Err(AuthenticatorError::InvalidSignatureEncoding);
        }
        proof {
            vstd::arithmetic::div_mod::lemma_fundamental_div_mod((bytes@.len() - 4) as int, 64);
        }
        let bm = bitmap_of_bytes(bytes[n - 4], bytes[n - 3], bytes[n - 2], bytes[n - 1]);
        let mut entries: Vec<PositionedSignature> = Vec::new();
        let mut taken: usize = 0;
        let mut p: u8 = 0;
        while p < 32
            invariant
                p <= 32,
                taken <= count <= 32,
                count == (bytes@.len() - 4) / 64,
                64 * count + 4 == bytes@.len(),
                bm == spec_bitmap_of_bytes(
                    bytes@[bytes@.len() - 4],
                    bytes@[bytes@.len() - 3],
                    bytes@[bytes@.len() - 2],
                    bytes@[bytes@.len() - 1],
                ),
                entries@.len() == taken,
                entries@.map_values(|e: PositionedSignature| e@.0) =~= spec_positions_upto(
                    bm,
                    p as int,
                ),
                forall|t: int|
                    0 <= t < taken ==> (#[trigger] entries@[t])@.1 == bytes@.subrange(
                        64 * t,
                        64 * t + 64,
                    ),
            decreases 32 - p,
        {
            if bitmap_test(bm, p) {
                if taken == count {
                    proof {
                        lemma_positions_upto_len_mono(bm, p + 1 as int, 32);
                        assert(spec_positions_upto(bm, p + 1 as int).len() == taken + 1);
                        assert(!multi_signature_decodable(bytes@));
                    }
                    return Err(AuthenticatorError::InvalidSignatureEncoding);
                }
                proof {
                    assert(64 * (taken as int) + 64 <= 64 * (count as int)) by (nonlinear_arith)
                        requires
                            (taken as int) + 1 <= count as int,
                    ;
                }
                let chunk = sub_bytes(bytes, 64 * taken, 64 * taken + 64);
                entries.push(PositionedSignature::new(p, Ed25519Signature::new(chunk)));
                taken = taken + 1;
            }
            proof {
                assert(entries@.map_values(|e: PositionedSignature| e@.0) =~= spec_positions_upto(
                    bm,
                    p + 1 as int,
                ));
            }
            p = p + 1;
        }
        if taken != count {
            proof {
                assert(spec_bitmap_positions(bm).len() == taken);
                assert(!multi_signature_decodable(bytes@));
            }
            return Err(AuthenticatorError::InvalidSignatureEncoding);
        }
        let ghost model = MultiSignatureModel {
            entries: entries@.map_values(|e: PositionedSignature| e@),
        };
        proof {
            assert(model.positions() =~= spec_bitmap_positions(bm));
            lemma_positions_upto_sorted(bm, 32);
            assert forall|i: int| 0 <= i < model.entries.len() implies (#[trigger] model.entries[i]).0
                < 32 && model.entries[i].1.len() == 64 by {
                assert(model.positions()[i] == model.entries[i].0);
                assert(model.positions()[i] == spec_positions_upto(bm, 32)[i]);
                assert(model.entries[i].1 == entries@[i]@.1);
            }
            assert forall|i: int, j: int|
                0 <= i < j < model.entries.len() implies model.entries[i].0
                < model.entries[j].0 by {
                assert(model.positions()[i] == model.entries[i].0);
                assert(model.positions()[j] == model.entries[j].0);
                assert(spec_positions_upto(bm, 32)[i] < spec_positions_upto(bm, 32)[j]);
            }
            assert(model.wf());
            let sigs = model.entries.map_values(|e: (u8, Seq<u8>)| e.1);
            assert forall|t: int| 0 <= t < count implies (#[trigger] sigs[t]).len() == 64 && sigs[t]
                == bytes@.subrange(64 * t, 64 * t + 64) by {
                assert(sigs[t] == entries@[t]@.1);
            }
            lemma_concat_bytes_uniform(sigs, 64);
            assert forall|i: int| 0 <= i < 64 * (count as int) implies spec_concat_bytes(sigs)[i]
                == bytes@[i] by {
                let t = i / 64;
                vstd::arithmetic::div_mod::lemma_fundamental_div_mod(i, 64);
                assert(0 <= t < count);
                assert(spec_concat_bytes(sigs).subrange(t * 64, t * 64 + 64) == sigs[t]);
                assert(sigs[t] == bytes@.subrange(64 * t, 64 * t + 64));
                assert(spec_concat_bytes(sigs)[i] == spec_concat_bytes(sigs).subrange(
                    t * 64,
                    t * 64 + 64,
                )[i - 64 * t]);
                assert(bytes@[i] == bytes@.subrange(64 * t, 64 * t + 64)[i - 64 * t]);
            }
            lemma_bitmap_positions_bitmap(bm);
            lemma_bytes_bitmap_roundtrip(
                bytes@[bytes@.len() - 4],
                bytes@[bytes@.len() - 3],
                bytes@[bytes@.len() - 2],
                bytes@[bytes@.len() - 1],
            );
            assert(model.to_bytes() =~= bytes@);
            assert(multi_signature_decodable(bytes@));
        }
        let r = MultiEd25519Signature { entries };
        proof {
            assert(r@ =~= model);
        }
        Ok(r)
    }
}

/// The contributing positions below `n` of either of two partial
/// signatures, in increasing order.
pub open spec fn spec_union_positions_upto(a: MultiSignatureModel, b: MultiSignatureModel, n: int) -> Seq<u8>
    decreases n,
{
    if n <= 0 {
        Seq::empty()
    } else if a.positions().contains((n - 1) as u8) || b.positions().contains((n - 1) as u8) {
        spec_union_positions_upto(a, b, n - 1).push((n - 1) as u8)
    } else {
        spec_union_positions_upto(a, b, n - 1)
    }
}

/// What the union positions hold: exactly the positions below `n` that
/// either side contributed, strictly increasing.
pub proof fn lemma_union_positions_upto(a: MultiSignatureModel, b: MultiSignatureModel, n: int)
    requires
        n <= 32,
    ensures
        forall|q: u8|
            spec_union_positions_upto(a, b, n).contains(q) <==> (q < n && (
            a.positions().contains(q) || b.positions().contains(q))),
        forall|i: int|
            0 <= i < spec_union_positions_upto(a, b, n).len() ==> (
            #[trigger] spec_union_positions_upto(a, b, n)[i]) < n,
        forall|i: int, j: int|
            0 <= i < j < spec_union_positions_upto(a, b, n).len() ==> spec_union_positions_upto(
                a,
                b,
                n,
            )[i] < spec_union_positions_upto(a, b, n)[j],
    decreases n,
{
    if n > 0 {
        lemma_union_positions_upto(a, b, n - 1);
        let prev = spec_union_positions_upto(a, b, n - 1);
        let cur = spec_union_positions_upto(a, b, n);
        if a.positions().contains((n - 1) as u8) || b.positions().contains((n - 1) as u8) {
            assert forall|q: u8| cur.contains(q) implies (q < n && (a.positions().contains(q)
                || b.positions().contains(q))) by {
                let i = choose|i: int| 0 <= i < cur.len() && cur[i] == q;
                if i < prev.len() {
                    assert(prev[i] == q);
                    assert(prev.contains(q));
                }
            }
            assert forall|q: u8| (q < n && (a.positions().contains(q) || b.positions().contains(
                q,
            ))) implies cur.contains(q) by {
                if q < n - 1 {
                    assert(prev.contains(q));
                    let i = choose|i: int| 0 <= i < prev.len() && prev[i] == q;
                    assert(cur[i] == q);
                } else {
                    assert(cur[cur.len() - 1] == q);
                }
            }
        } else {
            assert forall|q: u8| cur.contains(q) implies (q < n && (a.positions().contains(q)
                || b.positions().contains(q))) by {}
            assert forall|q: u8| (q < n && (a.positions().contains(q) || b.positions().contains(
                q,
            ))) implies cur.contains(q) by {
                assert(q != (n - 1) as u8);
                assert(prev.contains(q));
            }
        }
    }
}

/// A well-formed partial signature counts each position once: the set
/// of contributing positions is as large as the entry list.
pub proof fn lemma_position_set_len(m: MultiSignatureModel)
    requires
        m.wf(),
    ensures
        m.position_set().len() == m.entries.len(),
{
    let ps = m.positions();
    assert forall|i: int, j: int| 0 <= i < ps.len() && 0 <= j < ps.len() && i != j implies ps[i]
        != ps[j] by {
        if i < j {
            assert(m.entries[i].0 < m.entries[j].0);
        } else {
            assert(m.entries[j].0 < m.entries[i].0);
        }
    }
    assert(ps.no_duplicates());
    ps.unique_seq_to_set();
}

/// A signer's partial contribution to a threshold account signature:
/// the aggregated signatures so far and the quorum threshold they are
/// measured against.
#[verifier::ext_equal]
pub struct MultiSignatureShardModel {
    pub signature: MultiSignatureModel,
    pub threshold: u8,
}

impl MultiSignatureShardModel {
    /// A shard is well-formed when its aggregated signature is; the
    /// threshold byte is carried as-is.
    pub open spec fn wf(self) -> bool {
        self.signature.wf()
    }

    /// Whether the shard meets its quorum.
    pub open spec fn is_complete(self) -> bool {
        self.signature.entries.len() >= self.threshold as int
    }

    /// The wire form: the aggregated signature, then the threshold
    /// byte.
    pub open spec fn to_bytes(self) -> Seq<u8> {
        self.signature.to_bytes() + seq![self.threshold]
    }
}

/// A partial threshold signature plus its quorum threshold.  Its view
/// is the shard as plain values.
#[derive(Debug)]
pub struct MultiEd25519SignatureShard {
    signature: MultiEd25519Signature,
    threshold: u8,
}

impl View for MultiEd25519SignatureShard {
    type V = MultiSignatureShardModel;

    closed spec fn view(&self) -> MultiSignatureShardModel {
        MultiSignatureShardModel { signature: self.signature@, threshold: self.threshold }
    }
}

impl MultiEd25519SignatureShard {
    /// A shard is well-formed when its model is.
    pub open spec fn wf(self) -> bool {
        self@.wf()
    }

    /// Pairs an aggregated signature with the threshold it is
    /// collected against.
    pub fn new(signature: MultiEd25519Signature, threshold: u8) -> (r: Self)
        ensures
            r@ == (MultiSignatureShardModel { signature: signature@, threshold }),
    {
        MultiEd25519SignatureShard { signature, threshold }
    }

    /// The aggregated signature collected so far.
    pub fn signature(&self) -> (r: MultiEd25519Signature)
        ensures
            r@ == self@.signature,
    {
        self.signature.duplicate()
    }

    /// The quorum threshold the shard is measured against.
    pub fn threshold(&self) -> (r: u8)
        ensures
            r == self@.threshold,
    {
        self.threshold
    }

    /// The aggregated signature, surrendered by the shard once its
    /// quorum question has been answered.
    pub fn into_signature(self) -> (r: MultiEd25519Signature)
        ensures
            r@ == self@.signature,
    {
        self.signature
    }

    /// How many positions have contributed so far.
    pub fn signature_count(&self) -> (r: usize)
        ensures
            r == self@.signature.entries.len(),
    {
        self.signature.signature_count()
    }

    /// Whether enough positions have signed to meet the quorum.
    pub fn is_enough(&self) -> (r: bool)
        ensures
            r == self@.is_complete(),
    {
        self.signature.signature_count() >= self.threshold as usize
    }

    /// A copy of the shard.
    pub fn duplicate(&self) -> (r: Self)
        ensures
            r@ == self@,
    {
        let r = MultiEd25519SignatureShard {
            signature: self.signature.duplicate(),
            threshold: self.threshold,
        };
        proof {
            assert(r@ =~= self@);
        }
        r
    }

    /// The wire form of the shard: the aggregated signature, then the
    /// threshold byte.
    pub fn to_bytes(&self) -> (r: Vec<u8>)
        requires
            self.wf(),
        ensures
            r@ == self@.to_bytes(),
    {
        let mut r = self.signature.to_bytes();
        r.push(self.threshold);
        proof {
            assert(r@ =~= self@.to_bytes());
        }
        r
    }

    /// Combines two shards collected against the same threshold for
    /// the same account and message.  The result covers the union of
    /// the contributing positions; a position both sides signed is
    /// counted once, keeping this shard's entry.  Shards with
    /// different thresholds are incompatible and refused.
    pub fn merge(&self, other: &Self) -> (r: Result<Self, AuthenticatorError>)
        requires
            self.wf(),
            other.wf(),
        ensures
            r is Ok <==> self@.threshold == other@.threshold,
            r matches Ok(m) ==> {
                &&& m.wf()
                &&& m@.threshold == self@.threshold
                &&& m@.signature.position_set() == self@.signature.position_set().union(
                    other@.signature.position_set(),
                )
                &&& m@.signature.entries.len() == m@.signature.position_set().len()
                &&& forall|i: int|
                    0 <= i < m@.signature.entries.len() ==> {
                        let e = #[trigger] m@.signature.entries[i];
                        if self@.signature.positions().contains(e.0) {
                            self@.signature.entries.contains(e)
                        } else {
                            other@.signature.entries.contains(e)
                        }
                    }
            },
            r is Err ==> r == Err::<Self, _>(AuthenticatorError::InvalidSignatureEncoding),
    {
        if self.threshold != other.threshold {
            return Err(AuthenticatorError::InvalidSignatureEncoding);
        }
        let ghost av = self@.signature;
        let ghost bv = other@.signature;
        let mut merged: Vec<PositionedSignature> = Vec::new();
        let mut p: u8 = 0;
        while p < 32
            invariant
                p <= 32,
                self.wf(),
                other.wf(),
                av == self@.signature,
                bv == other@.signature,
                merged@.map_values(|e: PositionedSignature| e@.0) =~= spec_union_positions_upto(
                    av,
                    bv,
                    p as int,
                ),
                forall|t: int|
                    0 <= t < merged@.len() ==> {
                        let e = (#[trigger] merged@[t])@;
                        if av.positions().contains(e.0) {
                            av.entries.contains(e)
                        } else {
                            bv.entries.contains(e)
                        }
                    },
            decreases 32 - p,
        {
            match self.signature.find_position(p) {
                Some(i) => {
                    let e = self.signature.entry_at(i);
                    proof {
                        assert(av.positions()[i as int] == av.entries[i as int].0);
                        assert(av.positions().contains(p));
                        assert(av.entries.contains(av.entries[i as int]));
                    }
                    merged.push(e);
                },
                None => {
                    match other.signature.find_position(p) {
                        Some(i) => {
                            let e = other.signature.entry_at(i);
                            proof {
                                assert(bv.positions()[i as int] == bv.entries[i as int].0);
                                assert(bv.positions().contains(p));
                                assert(bv.entries.contains(bv.entries[i as int]));
                            }
                            merged.push(e);
                        },
                        None => {},
                    }
                },
            }
            proof {
                assert(merged@.map_values(|e: PositionedSignature| e@.0)
                    =~= spec_union_positions_upto(av, bv, p + 1 as int));
            }
            p = p + 1;
        }
        let ghost mmodel = MultiSignatureModel {
            entries: merged@.map_values(|e: PositionedSignature| e@),
        };
        proof {
            lemma_union_positions_upto(av, bv, 32);
            let ups = spec_union_positions_upto(av, bv, 32);
            assert(mmodel.positions() =~= ups);
            assert(ups.len() <= 32) by {
                assert forall|i: int, j: int| 0 <= i < ups.len() && 0 <= j < ups.len() && i != j
                    implies ups[i] != ups[j] by {}
                assert(ups.no_duplicates());
                ups.unique_seq_to_set();
                assert(forall|q: u8| ups.to_set().contains(q) ==> 0 <= q < 32);
                lemma_u8_set_below_32_len(ups.to_set());
            }
            assert forall|i: int| 0 <= i < mmodel.entries.len() implies (
            #[trigger] mmodel.entries[i]).0 < 32 && mmodel.entries[i].1.len() == 64 by {
                assert(mmodel.positions()[i] == mmodel.entries[i].0);
                let e = mmodel.entries[i];
                assert(e == merged@[i]@);
                if av.positions().contains(e.0) {
                    assert(av.entries.contains(e));
                    let t = choose|t: int| 0 <= t < av.entries.len() && av.entries[t] == e;
                    assert(av.entries[t].1.len() == 64);
                } else {
                    assert(bv.entries.contains(e));
                    let t = choose|t: int| 0 <= t < bv.entries.len() && bv.entries[t] == e;
                    assert(bv.entries[t].1.len() == 64);
                }
            }
            assert forall|i: int, j: int|
                0 <= i < j < mmodel.entries.len() implies mmodel.entries[i].0
                < mmodel.entries[j].0 by {
                assert(mmodel.positions()[i] == mmodel.entries[i].0);
                assert(mmodel.positions()[j] == mmodel.entries[j].0);
                assert(ups[i] < ups[j]);
            }
            assert(mmodel.wf());
            lemma_position_set_len(mmodel);
            assert forall|q: u8| mmodel.position_set().contains(q) <==> av.position_set().union(
                bv.position_set(),
            ).contains(q) by {}
            assert(mmodel.position_set() =~= av.position_set().union(bv.position_set()));
        }
        let sig = match MultiEd25519Signature::new(merged) {
            Ok(sig) => sig,
            Err(_) => {
                proof {
                    assert(false);
                }
                return Err(AuthenticatorError::InvalidSignatureEncoding);
            },
        };
        Ok(MultiEd25519SignatureShard { signature: sig, threshold: self.threshold })
    }
}

/// One signer's locally held key material inside a threshold account:
/// a private key and the signer position it speaks for.
#[derive(Debug)]
pub struct PositionedPrivateKey {
    pub position: u8,
    pub key: Ed25519PrivateKey,
}

impl View for PositionedPrivateKey {
    type V = (u8, Seq<u8>);

    open spec fn view(&self) -> (u8, Seq<u8>) {
        (self.position, self.key@)
    }
}

impl PositionedPrivateKey {
    /// Pairs a signer position with its private key.
    pub fn new(position: u8, key: Ed25519PrivateKey) -> (r: Self)
        ensures
            r@ == (position, key@),
    {
        PositionedPrivateKey { position, key }
    }
}

/// The mathematical content of a key shard: the full set of public
/// keys and threshold of the account, plus the locally held private
/// keys and their positions.
#[verifier::ext_equal]
pub struct MultiKeyShardModel {
    pub keys: Seq<Seq<u8>>,
    pub threshold: u8,
    pub private_keys: Seq<(u8, Seq<u8>)>,
}

impl MultiKeyShardModel {
    /// The account's public key.
    pub open spec fn public_key_model(self) -> MultiPublicKeyModel {
        MultiPublicKeyModel { keys: self.keys, threshold: self.threshold }
    }

    /// The local-custody serialization of a shard: one count byte, the
    /// held private keys as position-plus-key records, then the
    /// account's public key in its wire form.  This format stores a
    /// signer's local material; it never goes on chain.
    pub open spec fn to_bytes(self) -> Seq<u8> {
        seq![self.private_keys.len() as u8] + spec_concat_bytes(
            self.private_keys.map_values(|e: (u8, Seq<u8>)| seq![e.0] + e.1),
        ) + self.public_key_model().to_bytes()
    }

    /// The public side is a well-formed multi key; the private side is
    /// a non-empty subset of its positions, strictly increasing, each
    /// with 32 bytes of key material.
    pub open spec fn wf(self) -> bool {
        &&& self.public_key_model().wf()
        &&& 1 <= self.private_keys.len()
        &&& forall|i: int|
            0 <= i < self.private_keys.len() ==> ((#[trigger] self.private_keys[i]).0 as int)
                < self.keys.len() && self.private_keys[i].1.len() == 32
        &&& forall|i: int, j: int|
            0 <= i < j < self.private_keys.len() ==> self.private_keys[i].0
                < self.private_keys[j].0
    }
}

/// In a strictly increasing position list, the position at an index is
/// at least the index.
proof fn lemma_increasing_positions_at_least_index(entries: Seq<(u8, Seq<u8>)>, i: int)
    requires
        forall|a: int, b: int| 0 <= a < b < entries.len() ==> entries[a].0 < entries[b].0,
        0 <= i < entries.len(),
    ensures
        entries[i].0 >= i,
    decreases i,
{
    if i > 0 {
        lemma_increasing_positions_at_least_index(entries, i - 1);
        assert(entries[i - 1].0 < entries[i].0);
    }
}

/// Strictly increasing adjacent private-key positions order every pair.
proof fn lemma_adjacent_private_positions_ordered(entries: Seq<(u8, Seq<u8>)>, i: int, j: int)
    requires
        forall|t: int|
            0 <= t < entries.len() - 1 ==> (#[trigger] entries[t]).0 < entries[t + 1].0,
        0 <= i < j < entries.len(),
    ensures
        entries[i].0 < entries[j].0,
    decreases j - i,
{
    if i + 1 < j {
        lemma_adjacent_private_positions_ordered(entries, i, j - 1);
    }
}

/// One signer's shard of a threshold account's key: the account's full
/// public key plus the subset of private keys this signer holds.  Its
/// view is the shard as plain values.
#[derive(Debug)]
pub struct MultiEd25519KeyShard {
    public_keys: Vec<Ed25519PublicKey>,
    threshold: u8,
    private_keys: Vec<PositionedPrivateKey>,
}

impl View for MultiEd25519KeyShard {
    type V = MultiKeyShardModel;

    closed spec fn view(&self) -> MultiKeyShardModel {
        MultiKeyShardModel {
            keys: self.public_keys@.map_values(|k: Ed25519PublicKey| k@),
            threshold: self.threshold,
            private_keys: self.private_keys@.map_values(|e: PositionedPrivateKey| e@),
        }
    }
}

impl MultiEd25519KeyShard {
    /// A shard is well-formed when its model is.
    pub open spec fn wf(self) -> bool {
        self@.wf()
    }

    /// Gathers an account's public keys, its threshold, and one
    /// signer's private keys into a shard.  Malformed construction
    /// fails here, so signing never does: more than 32 keys is
    /// `InvalidKeyLength`; a threshold the key count cannot meet, an
    /// empty private subset, or private positions that are not
    /// strictly increasing within range are `InvalidKeyEncoding`.
    pub fn new(
        public_keys: Vec<Ed25519PublicKey>,
        threshold: u8,
        private_keys: Vec<PositionedPrivateKey>,
    ) -> (r: Result<Self, AuthenticatorError>)
        requires
            forall|i: int| 0 <= i < public_keys@.len() ==> (#[trigger] public_keys@[i]).wf(),
            forall|i: int| 0 <= i < private_keys@.len() ==> (#[trigger] private_keys@[i])@.1.len() == 32,
        ensures
            r is Ok <==> (MultiKeyShardModel {
                keys: public_keys@.map_values(|k: Ed25519PublicKey| k@),
                threshold,
                private_keys: private_keys@.map_values(|e: PositionedPrivateKey| e@),
            }).wf(),
            r matches Ok(s) ==> s.wf() && s@ == (MultiKeyShardModel {
                keys: public_keys@.map_values(|k: Ed25519PublicKey| k@),
                threshold,
                private_keys: private_keys@.map_values(|e: PositionedPrivateKey| e@),
            }),
            r is Err ==> (r == Err::<Self, _>(AuthenticatorError::InvalidKeyLength) || r == Err::<
                Self,
                _,
            >(AuthenticatorError::InvalidKeyEncoding)),
    {
        let ghost model = MultiKeyShardModel {
            keys: public_keys@.map_values(|k: Ed25519PublicKey| k@),
            threshold,
            private_keys: private_keys@.map_values(|e: PositionedPrivateKey| e@),
        };
        if public_keys.len() > MAX_NUM_OF_KEYS {
            return Err(AuthenticatorError::InvalidKeyLength);
        }
        if threshold == 0 || (threshold as usize) > public_keys.len() {
            return Err(AuthenticatorError::InvalidKeyEncoding);
        }
        if private_keys.len() == 0 {
            return Err(AuthenticatorError::InvalidKeyEncoding);
        }
        let mut i: usize = 0;
        while i < private_keys.len()
            invariant
                i <= private_keys@.len(),
                model == (MultiKeyShardModel {
                    keys: public_keys@.map_values(|k: Ed25519PublicKey| k@),
                    threshold,
                    private_keys: private_keys@.map_values(|e: PositionedPrivateKey| e@),
                }),
                model.keys.len() == public_keys@.len(),
                forall|t: int|
                    0 <= t < i ==> ((#[trigger] model.private_keys[t]).0 as int) < model.keys.len(),
                forall|t: int|
                    0 <= t < i - 1 ==> (#[trigger] model.private_keys[t]).0
                        < model.private_keys[t + 1].0,
            decreases private_keys@.len() - i,
        {
            if (private_keys[i].position as usize) >= public_keys.len() {
                proof {
                    assert(model.private_keys[i as int].0 as int >= model.keys.len());
                    assert(!model.wf());
                }
                return Err(AuthenticatorError::InvalidKeyEncoding);
            }
            if i > 0 && private_keys[i - 1].position >= private_keys[i].position {
                proof {
                    assert(!(model.private_keys[i - 1].0 < model.private_keys[i as int].0));
                    assert(!model.wf());
                }
                return Err(AuthenticatorError::InvalidKeyEncoding);
            }
            i = i + 1;
        }
        proof {
            assert forall|a: int, b: int|
                0 <= a < b < model.private_keys.len() implies model.private_keys[a].0
                < model.private_keys[b].0 by {
                lemma_adjacent_private_positions_ordered(model.private_keys, a, b);
            }
            assert(model.wf());
        }
        Ok(MultiEd25519KeyShard { public_keys, threshold, private_keys })
    }

    /// The account's full public key.
    pub fn public_key(&self) -> (r: MultiEd25519PublicKey)
        requires
            self.wf(),
        ensures
            r.wf(),
            r@ == self@.public_key_model(),
    {
        let mut keys: Vec<Ed25519PublicKey> = Vec::new();
        let mut i: usize = 0;
        while i < self.public_keys.len()
            invariant
                i <= self.public_keys@.len(),
                keys@.len() == i,
                forall|j: int| 0 <= j < i ==> (#[trigger] keys@[j])@ == self.public_keys@[j]@,
            decreases self.public_keys@.len() - i,
        {
            keys.push(self.public_keys[i].duplicate());
            i = i + 1;
        }
        let r = MultiEd25519PublicKey { public_keys: keys, threshold: self.threshold };
        proof {
            assert(r@.keys =~= self@.keys);
            assert(r@ =~= self@.public_key_model());
        }
        r
    }

    /// The quorum threshold of the account.
    pub fn threshold(&self) -> (r: u8)
        ensures
            r == self@.threshold,
    {
        self.threshold
    }

    /// How many private keys this shard holds.
    pub fn private_key_count(&self) -> (r: usize)
        ensures
            r == self@.private_keys.len(),
    {
        self.private_keys.len()
    }

    /// Signs a message with every locally held key: the resulting
    /// shard records this signer's positions and their signatures,
    /// against the account's threshold.  It may or may not meet
    /// quorum; signing itself never fails on a well-formed shard.
    pub fn sign(&self, message: &Vec<u8>) -> (r: MultiEd25519SignatureShard)
        requires
            self.wf(),
        ensures
            r.wf(),
            r@.threshold == self@.threshold,
            r@.signature.entries.len() == self@.private_keys.len(),
            forall|i: int|
                0 <= i < self@.private_keys.len() ==> #[trigger] r@.signature.entries[i] == (
                self@.private_keys[i].0,
                ed25519_signature_of(self@.private_keys[i].1, message@),
                ),
    {
        let mut entries: Vec<PositionedSignature> = Vec::new();
        let mut i: usize = 0;
        while i < self.private_keys.len()
            invariant
                i <= self.private_keys@.len(),
                self.wf(),
                entries@.len() == i,
                forall|t: int|
                    0 <= t < i ==> (#[trigger] entries@[t])@ == (
                    self@.private_keys[t].0,
                    ed25519_signature_of(self@.private_keys[t].1, message@),
                    ) && entries@[t]@.1.len() == 64,
            decreases self.private_keys@.len() - i,
        {
            proof {
                assert(self@.private_keys[i as int] == self.private_keys@[i as int]@);
            }
            let entry = &self.private_keys[i];
            let sig = entry.key.sign(message);
            entries.push(PositionedSignature::new(entry.position, sig));
            i = i + 1;
        }
        let ghost model = MultiSignatureModel {
            entries: entries@.map_values(|e: PositionedSignature| e@),
        };
        proof {
            assert forall|t: int| 0 <= t < model.entries.len() implies (
            #[trigger] model.entries[t]).0 < 32 && model.entries[t].1.len() == 64 by {
                assert(model.entries[t] == entries@[t]@);
                assert(entries@[t]@.0 == self@.private_keys[t].0);
                assert(entries@[t]@.1.len() == 64);
                assert((self@.private_keys[t].0 as int) < self@.keys.len());
                assert(self@.keys.len() <= 32);
            }
            assert forall|a: int, b: int|
                0 <= a < b < model.entries.len() implies model.entries[a].0
                < model.entries[b].0 by {
                assert(model.entries[a] == entries@[a]@);
                assert(model.entries[b] == entries@[b]@);
                assert(self@.private_keys[a].0 < self@.private_keys[b].0);
            }
            if model.entries.len() > 32 {
                lemma_increasing_positions_at_least_index(model.entries, 32);
                assert(model.entries[32].0 < 32);
                assert(false);
            }
            assert(model.wf());
        }
        let sig = MultiEd25519Signature { entries };
        proof {
            assert(sig@ =~= model);
        }
        MultiEd25519SignatureShard { signature: sig, threshold: self.threshold }
    }
}

/// Whether raw bytes are a decodable key shard: a non-zero count of
/// 33-byte position-plus-key records, then a decodable multi public
/// key, the record positions strictly increasing and within the key
/// count.
pub open spec fn multi_key_shard_decodable(b: Seq<u8>) -> bool {
    &&& b.len() >= 1
    &&& 1 <= b[0]
    &&& 1 + 33 * (b[0] as int) < b.len()
    &&& multi_public_key_decodable(b.subrange(1 + 33 * (b[0] as int), b.len() as int))
    &&& forall|t: int| 0 <= t < b[0] - 1 ==> #[trigger] b[1 + 33 * t] < b[1 + 33 * (t + 1)]
    &&& forall|t: int|
        0 <= t < b[0] ==> (#[trigger] b[1 + 33 * t] as int) < (b.len() - (1 + 33 * (
        b[0] as int)) - 1) / 32
}

impl MultiEd25519KeyShard {
    /// The local-custody serialization of the shard: count byte,
    /// position-plus-key records, then the account's public key.
    pub fn to_bytes(&self) -> (r: Vec<u8>)
        requires
            self.wf(),
        ensures
            r@ == self@.to_bytes(),
    {
        let ghost recs = self@.private_keys.map_values(|e: (u8, Seq<u8>)| seq![e.0] + e.1);
        proof {
            if self@.private_keys.len() > 32 {
                lemma_increasing_positions_at_least_index(self@.private_keys, 32);
                assert(false);
            }
        }
        let mut r: Vec<u8> = Vec::new();
        r.push(self.private_keys.len() as u8);
        let mut i: usize = 0;
        while i < self.private_keys.len()
            invariant
                i <= self.private_keys@.len(),
                self.wf(),
                recs == self@.private_keys.map_values(|e: (u8, Seq<u8>)| seq![e.0] + e.1),
                recs.len() == self.private_keys@.len(),
                r@ == seq![self@.private_keys.len() as u8] + spec_concat_bytes(
                    recs.take(i as int),
                ),
            decreases self.private_keys@.len() - i,
        {
            r.push(self.private_keys[i].position);
            let kb = self.private_keys[i].key.to_bytes();
            extend_bytes(&mut r, &kb);
            proof {
                lemma_concat_bytes_take_step(recs, i as int);
                assert(recs[i as int] == seq![self@.private_keys[i as int].0]
                    + self@.private_keys[i as int].1);
                assert(self@.private_keys[i as int] == self.private_keys@[i as int]@);
                assert(r@ =~= seq![self@.private_keys.len() as u8] + spec_concat_bytes(
                    recs.take(i + 1 as int),
                ));
            }
            i = i + 1;
        }
        proof {
            assert(recs.take(self.private_keys@.len() as int) =~= recs);
        }
        let pkb = self.public_key().to_bytes();
        extend_bytes(&mut r, &pkb);
        proof {
            assert(r@ =~= self@.to_bytes());
        }
        r
    }

    /// Decodes a shard from its local-custody serialization.
    pub fn try_from(bytes: &Vec<u8>) -> (r: Result<Self, AuthenticatorError>)
        ensures
            r is Ok <==> multi_key_shard_decodable(bytes@),
            r matches Ok(s) ==> s.wf() && s@.to_bytes() == bytes@,
            r is Err ==> (r == Err::<Self, _>(AuthenticatorError::InvalidKeyLength) || r
                == Err::<Self, _>(AuthenticatorError::InvalidKeyEncoding)),
    {
        let n = bytes.len();
        if n < 1 {
            return Err(AuthenticatorError::InvalidKeyLength);
        }
        let k = bytes[0] as usize;
        if k < 1 {
            return Err(AuthenticatorError::InvalidKeyEncoding);
        }
        if n <= 1 + 33 * k {
            return Err(AuthenticatorError::InvalidKeyLength);
        }
        let mut privates: Vec<PositionedPrivateKey> = Vec::new();
        let mut t: usize = 0;
        while t < k
            invariant
                t <= k,
                k == bytes@[0] as int,
                1 <= k <= 255,
                1 + 33 * k < bytes@.len(),
                privates@.len() == t,
                forall|u: int|
                    0 <= u < t ==> (#[trigger] privates@[u])@ == (
                    bytes@[1 + 33 * u],
                    bytes@.subrange(2 + 33 * u, 34 + 33 * u),
                    ),
                forall|u: int|
                    0 <= u < t - 1 ==> #[trigger] bytes@[1 + 33 * u] < bytes@[1 + 33 * (u + 1)],
            decreases k - t,
        {
            proof {
                assert(33 * ((t as int) + 1) <= 33 * (k as int)) by (nonlinear_arith)
                    requires
                        (t as int) + 1 <= k as int,
                ;
            }
            let pos = bytes[1 + 33 * t];
            if t > 0 && privates[t - 1].position >= pos {
                proof {
                    assert(bytes@[1 + 33 * ((t - 1) as int)] >= bytes@[1 + 33 * (((t - 1) as int)
                        + 1)]);
                    assert(!multi_key_shard_decodable(bytes@));
                }
                return Err(AuthenticatorError::InvalidKeyEncoding);
            }
            let sk_bytes = sub_bytes(bytes, 2 + 33 * t, 34 + 33 * t);
            let sk = match Ed25519PrivateKey::try_from(&sk_bytes) {
                Ok(sk) => sk,
                Err(_) => {
                    proof {
                        assert(false);
                    }
                    return Err(AuthenticatorError::InvalidKeyEncoding);
                },
            };
            privates.push(PositionedPrivateKey::new(pos, sk));
            t = t + 1;
        }
        let tail = sub_bytes(bytes, 1 + 33 * k, n);
        let mpk = match MultiEd25519PublicKey::try_from(&tail) {
            Ok(mpk) => mpk,
            Err(e) => {
                return Err(e);
            },
        };
        let count = mpk.key_count();
        let mut t2: usize = 0;
        while t2 < k
            invariant
                t2 <= k,
                k == bytes@[0] as int,
                1 <= k <= 255,
                1 + 33 * k < bytes@.len(),
                count == mpk@.keys.len(),
                count == (bytes@.len() - (1 + 33 * k) - 1) / 32,
                privates@.len() == k,
                forall|u: int|
                    0 <= u < k ==> (#[trigger] privates@[u])@ == (
                    bytes@[1 + 33 * u],
                    bytes@.subrange(2 + 33 * u, 34 + 33 * u),
                    ),
                forall|u: int|
                    0 <= u < t2 ==> (#[trigger] bytes@[1 + 33 * u] as int) < count,
            decreases k - t2,
        {
            if privates[t2].position as usize >= count {
                proof {
                    assert((bytes@[1 + 33 * (t2 as int)] as int) >= count);
                    assert(!multi_key_shard_decodable(bytes@));
                }
                return Err(AuthenticatorError::InvalidKeyEncoding);
            }
            t2 = t2 + 1;
        }
        let ghost pmodel = privates@.map_values(|e: PositionedPrivateKey| e@);
        proof {
            assert forall|a: int, b2: int| 0 <= a < b2 < pmodel.len() implies pmodel[a].0
                < pmodel[b2].0 by {
                lemma_adjacent_private_positions_ordered(pmodel, a, b2);
            }
        }
        let r = MultiEd25519KeyShard {
            public_keys: mpk.public_keys,
            threshold: mpk.threshold,
            private_keys: privates,
        };
        proof {
            assert(r@.keys =~= mpk@.keys);
            assert(r@.private_keys =~= pmodel);
            assert(r@.public_key_model() =~= mpk@);
            assert(r.wf());
            let recs = r@.private_keys.map_values(|e: (u8, Seq<u8>)| seq![e.0] + e.1);
            assert forall|u: int| 0 <= u < k implies (#[trigger] recs[u]).len() == 33 && recs[u]
                == bytes@.subrange(1 + 33 * u, 34 + 33 * u) by {
                assert(recs[u] == seq![r@.private_keys[u].0] + r@.private_keys[u].1);
                assert(r@.private_keys[u] == privates@[u]@);
                assert(recs[u] =~= bytes@.subrange(1 + 33 * u, 34 + 33 * u));
            }
            lemma_concat_bytes_uniform(recs, 33);
            assert forall|i: int| 0 <= i < 33 * (k as int) implies spec_concat_bytes(recs)[i]
                == bytes@[1 + i] by {
                let u = i / 33;
                vstd::arithmetic::div_mod::lemma_fundamental_div_mod(i, 33);
                assert(0 <= u < k);
                assert(spec_concat_bytes(recs).subrange(u * 33, u * 33 + 33) == recs[u]);
                assert(recs[u] == bytes@.subrange(1 + 33 * u, 34 + 33 * u));
                assert(spec_concat_bytes(recs)[i] == spec_concat_bytes(recs).subrange(
                    u * 33,
                    u * 33 + 33,
                )[i - 33 * u]);
                assert(bytes@[1 + i] == bytes@.subrange(1 + 33 * u, 34 + 33 * u)[i - 33 * u]);
            }
            assert(mpk@.to_bytes() == bytes@.subrange(1 + 33 * (k as int), bytes@.len() as int));
            assert(r@.to_bytes() =~= bytes@);
            assert(multi_key_shard_decodable(bytes@));
        }
        Ok(r)
    }
}

/// A set of bytes all below 32 has at most 32 elements.
pub proof fn lemma_u8_set_below_32_len(s: Set<u8>)
    requires
        forall|q: u8| s.contains(q) ==> 0 <= q < 32,
    ensures
        s.finite(),
        s.len() <= 32,
{
    let full = Set::new(|q: u8| 0 <= q < 32);
    assert(s.subset_of(full));
    lemma_u8_range_len(32);
    vstd::set_lib::lemma_len_subset(s, full);
}

/// The set of bytes below `n` has exactly `n` elements.
pub proof fn lemma_u8_range_len(n: int)
    requires
        0 <= n <= 256,
    ensures
        Set::new(|q: u8| 0 <= q < n).finite(),
        Set::new(|q: u8| 0 <= q < n).len() == n,
    decreases n,
{
    if n == 0 {
        assert(Set::new(|q: u8| 0 <= q < 0) =~= Set::<u8>::empty());
    } else {
        lemma_u8_range_len(n - 1);
        assert(Set::new(|q: u8| 0 <= q < n) =~= Set::new(|q: u8| 0 <= q < n - 1).insert(
            (n - 1) as u8,
        ));
    }
}

} // verus!
