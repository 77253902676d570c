use account_authenticator::authenticator::AccountPrivateKey;
use account_authenticator::authenticator::AccountPublicKey;
use account_authenticator::authenticator::AccountSignature;
use account_authenticator::ed25519::Ed25519PrivateKey;
use account_authenticator::ed25519::Ed25519PublicKey;
use account_authenticator::error::AuthenticatorError;
use account_authenticator::multi_ed25519::MultiEd25519KeyShard;
use account_authenticator::multi_ed25519::MultiEd25519PublicKey;
use account_authenticator::multi_ed25519::PositionedPrivateKey;

fn private_key(seed: u8) -> Ed25519PrivateKey {
    Ed25519PrivateKey::try_from(&vec![seed; 32]).unwrap()
}

fn three_public_keys() -> Vec<Ed25519PublicKey> {
    vec![
        private_key(1).public_key(),
        private_key(2).public_key(),
        private_key(3).public_key(),
    ]
}

#[test]
fn single_public_key_round_trips() {
    let pk_bytes = private_key(5).public_key().to_bytes();
    let decoded = AccountPublicKey::try_from(&pk_bytes).unwrap();
    assert_eq!(decoded.to_bytes(), pk_bytes);
    assert_eq!(decoded.scheme().id(), 0);
    assert!(decoded.as_single().is_some());
    assert!(decoded.as_multi().is_none());
}

#[test]
fn multi_public_key_round_trips() {
    let mpk = MultiEd25519PublicKey::new(three_public_keys(), 2).unwrap();
    let bytes = AccountPublicKey::multi(mpk).to_bytes();
    assert_eq!(bytes.len(), 3 * 32 + 1);
    assert_eq!(*bytes.last().unwrap(), 2u8);
    let decoded = AccountPublicKey::try_from(&bytes).unwrap();
    assert_eq!(decoded.to_bytes(), bytes);
    assert_eq!(decoded.scheme().id(), 1);
    let inner = decoded.as_multi().unwrap();
    assert_eq!(inner.threshold(), 2);
    assert_eq!(inner.key_count(), 3);
}

#[test]
fn public_key_decode_rejects_bad_input() {
    assert_eq!(
        AccountPublicKey::try_from(&vec![0u8; 34]).unwrap_err(),
        AuthenticatorError::InvalidKeyLength
    );
    // Right shape for a multi key, but a zero threshold byte.
    let mut bytes = Vec::new();
    for pk in three_public_keys() {
        bytes.extend(pk.to_bytes());
    }
    bytes.push(0u8);
    assert_eq!(
        AccountPublicKey::try_from(&bytes).unwrap_err(),
        AuthenticatorError::InvalidKeyEncoding
    );
}

#[test]
fn single_signature_round_trips() {
    let message = b"wire".to_vec();
    let signature = AccountPrivateKey::single(private_key(1)).sign(&message);
    let bytes = signature.to_bytes();
    assert_eq!(bytes.len(), 96);
    let decoded = AccountSignature::try_from(&bytes).unwrap();
    assert_eq!(decoded.to_bytes(), bytes);
    assert!(decoded.verify(&message).is_ok());
}

#[test]
fn fully_signed_multi_signature_round_trips() {
    let message = b"wire".to_vec();
    let privates = vec![
        PositionedPrivateKey::new(0, private_key(1)),
        PositionedPrivateKey::new(1, private_key(2)),
        PositionedPrivateKey::new(2, private_key(3)),
    ];
    let shard = MultiEd25519KeyShard::new(three_public_keys(), 2, privates).unwrap();
    let signature = AccountPrivateKey::multi(shard).sign(&message);
    let bytes = signature.to_bytes();
    // Three keys, three signatures, the key and shard threshold bytes
    // and the four bitmap bytes.
    assert_eq!(bytes.len(), 3 * 32 + 1 + 3 * 64 + 4 + 1);
    let decoded = AccountSignature::try_from(&bytes).unwrap();
    // The trailing shard threshold byte is read back from the last
    // index and survives the round trip.
    assert_eq!(decoded.to_bytes(), bytes);
    match &decoded {
        AccountSignature::Multi(pk, sh) => {
            assert_eq!(pk.threshold(), 2);
            assert_eq!(sh.threshold(), 2);
            assert_eq!(sh.signature_count(), 3);
            assert!(sh.is_enough());
        }
        _ => panic!("expected the multi variant"),
    }
    assert!(decoded.verify(&message).is_ok());
}

#[test]
fn single_private_key_round_trips() {
    let bytes = vec![9u8; 32];
    let decoded = AccountPrivateKey::try_from(&bytes).unwrap();
    assert_eq!(decoded.to_bytes(), bytes);
}

#[test]
fn key_shard_round_trips() {
    let privates = vec![
        PositionedPrivateKey::new(0, private_key(1)),
        PositionedPrivateKey::new(2, private_key(3)),
    ];
    let shard = MultiEd25519KeyShard::new(three_public_keys(), 2, privates).unwrap();
    let account_key = AccountPrivateKey::multi(shard);
    let expected_pk = account_key.public_key().to_bytes();
    let bytes = account_key.to_bytes();
    // Count byte, two 33-byte records, then the public key wire form.
    assert_eq!(bytes.len(), 1 + 2 * 33 + 3 * 32 + 1);
    let decoded = AccountPrivateKey::try_from(&bytes).unwrap();
    assert_eq!(decoded.to_bytes(), bytes);
    assert_eq!(decoded.public_key().to_bytes(), expected_pk);
}

#[test]
fn private_key_decode_rejects_bad_input() {
    // A count byte of one, but too few bytes for one record and a key.
    assert_eq!(
        AccountPrivateKey::try_from(&vec![1u8; 31]).unwrap_err(),
        AuthenticatorError::InvalidKeyLength
    );
    // A count byte of zero names no private keys at all.
    assert_eq!(
        AccountPrivateKey::try_from(&vec![0u8; 100]).unwrap_err(),
        AuthenticatorError::InvalidKeyEncoding
    );
}

#[test]
fn signature_decode_rejects_bad_input() {
    assert_eq!(
        AccountSignature::try_from(&vec![0u8; 5]).unwrap_err(),
        AuthenticatorError::InvalidSignatureEncoding
    );
}

#[test]
fn signature_decode_checks_bitmap_against_chunk_count() {
    // A correct full encoding, with one extra bitmap bit switched on:
    // the bitmap then claims more contributions than there are chunks.
    let message = b"wire".to_vec();
    let privates = vec![
        PositionedPrivateKey::new(0, private_key(1)),
        PositionedPrivateKey::new(1, private_key(2)),
        PositionedPrivateKey::new(2, private_key(3)),
    ];
    let shard = MultiEd25519KeyShard::new(three_public_keys(), 2, privates).unwrap();
    let signature = AccountPrivateKey::multi(shard).sign(&message);
    let mut bytes = signature.to_bytes();
    // The last byte is the shard threshold; the four before it are the
    // bitmap, most significant position first.
    let idx = bytes.len() - 5;
    bytes[idx] |= 0b0001_0000; // claim position 3 signed as well
    assert_eq!(
        AccountSignature::try_from(&bytes).unwrap_err(),
        AuthenticatorError::InvalidSignatureEncoding
    );
}
