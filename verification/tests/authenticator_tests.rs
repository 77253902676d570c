use account_authenticator::auth_key::AuthenticationKey;
use account_authenticator::auth_key::AuthenticationKeyPreimage;
use account_authenticator::authenticator::AccountPrivateKey;
use account_authenticator::authenticator::AccountPublicKey;
use account_authenticator::authenticator::AccountSignature;
use account_authenticator::authenticator::TransactionAuthenticator;
use account_authenticator::ed25519::Ed25519PrivateKey;
use account_authenticator::ed25519::Ed25519PublicKey;
use account_authenticator::error::AuthenticatorError;
use account_authenticator::multi_ed25519::MultiEd25519KeyShard;
use account_authenticator::multi_ed25519::MultiEd25519PublicKey;
use account_authenticator::multi_ed25519::PositionedPrivateKey;
use account_authenticator::scheme::Scheme;
use account_authenticator::transaction::RawUserTransaction;

use sha3::Digest;

fn private_key(seed: u8) -> Ed25519PrivateKey {
    Ed25519PrivateKey::try_from(&vec![seed; 32]).unwrap()
}

fn multi_setup() -> (Vec<Ed25519PrivateKey>, MultiEd25519PublicKey) {
    let sks: Vec<Ed25519PrivateKey> = vec![private_key(1), private_key(2), private_key(3)];
    let pks: Vec<Ed25519PublicKey> = sks.iter().map(|sk| sk.public_key()).collect();
    let mpk = MultiEd25519PublicKey::new(pks, 2).unwrap();
    (sks, mpk)
}

fn key_shard(positions: &[u8]) -> MultiEd25519KeyShard {
    let sks: Vec<Ed25519PrivateKey> = vec![private_key(1), private_key(2), private_key(3)];
    let pks: Vec<Ed25519PublicKey> = sks.iter().map(|sk| sk.public_key()).collect();
    let privates: Vec<PositionedPrivateKey> = positions
        .iter()
        .map(|p| PositionedPrivateKey::new(*p, private_key(*p + 1)))
        .collect();
    MultiEd25519KeyShard::new(pks, 2, privates).unwrap()
}

#[test]
fn test_from_str_should_not_panic_by_given_empty_string() {
    assert!(AuthenticationKey::from_str("").is_err());
}

#[test]
fn from_str_empty_is_empty_input() {
    assert_eq!(
        AuthenticationKey::from_str("").unwrap_err(),
        AuthenticatorError::EmptyInput
    );
}

#[test]
fn from_str_rejects_bad_text() {
    assert_eq!(
        AuthenticationKey::from_str("zz").unwrap_err(),
        AuthenticatorError::MalformedEncoding
    );
    assert_eq!(
        AuthenticationKey::from_str("abcd").unwrap_err(),
        AuthenticatorError::MalformedEncoding
    );
    assert_eq!(
        AuthenticationKey::from_str("0x123").unwrap_err(),
        AuthenticatorError::MalformedEncoding
    );
}

#[test]
fn from_str_round_trips_hex_with_and_without_prefix() {
    let bytes: Vec<u8> = (0u8..32).collect();
    let key = AuthenticationKey::new(bytes.clone());
    let bare = key.hex_string();
    assert_eq!(bare, hex::encode(&bytes));
    let display = key.display_string();
    assert_eq!(display, format!("0x{}", hex::encode(&bytes)));
    let parsed = AuthenticationKey::from_str(&bare).unwrap();
    assert_eq!(parsed.to_vec(), bytes);
    let parsed_prefixed = AuthenticationKey::from_str(&display).unwrap();
    assert_eq!(parsed_prefixed.to_vec(), bytes);
}

#[test]
fn authentication_key_try_from_checks_length() {
    assert_eq!(
        AuthenticationKey::try_from(&vec![0u8; 31]).unwrap_err(),
        AuthenticatorError::InvalidKeyLength
    );
    let key = AuthenticationKey::try_from(&vec![7u8; 32]).unwrap();
    assert_eq!(key.to_vec(), vec![7u8; 32]);
}

#[test]
fn scheme_ids_and_names_are_stable() {
    assert_eq!(Scheme::Ed25519.id(), 0);
    assert_eq!(Scheme::MultiEd25519.id(), 1);
    assert_eq!(Scheme::Ed25519.name(), "Ed25519");
    assert_eq!(Scheme::MultiEd25519.name(), "MultiEd25519");
    assert_eq!(Scheme::Ed25519.display_string(), "Scheme::Ed25519");
}

#[test]
fn preimage_appends_single_scheme_byte() {
    let sk = private_key(9);
    let pk = sk.public_key();
    let preimage = AuthenticationKeyPreimage::ed25519(&pk);
    let mut expected = pk.to_bytes();
    expected.push(0u8);
    assert_eq!(preimage.into_vec(), expected);
}

#[test]
fn single_key_authentication_pipeline_matches_sha3() {
    let sk = private_key(1);
    let pk = sk.public_key();
    let auth_key = AuthenticationKey::ed25519(&pk);

    let mut preimage = pk.to_bytes();
    preimage.push(0u8);
    let digest = sha3::Sha3_256::digest(&preimage).to_vec();
    assert_eq!(auth_key.to_vec(), digest);
    assert_eq!(auth_key.to_vec().len(), 32);

    let address = auth_key.derived_address();
    assert_eq!(address.to_vec().len(), 16);
    assert_eq!(address.to_vec(), digest[16..].to_vec());
    assert_eq!(auth_key.prefix(), digest[..16].to_vec());

    let account_pk = AccountPublicKey::single(pk);
    assert_eq!(account_pk.authentication_key().to_vec(), digest);
    assert_eq!(account_pk.derived_address().to_vec(), digest[16..].to_vec());
}

#[test]
fn multi_key_authentication_pipeline_matches_sha3() {
    let (_, mpk) = multi_setup();
    let account_pk = AccountPublicKey::multi(mpk);
    let mut preimage = account_pk.public_key_bytes();
    preimage.push(1u8);
    let digest = sha3::Sha3_256::digest(&preimage).to_vec();
    assert_eq!(account_pk.authentication_key().to_vec(), digest);
    assert_eq!(account_pk.derived_address().to_vec(), digest[16..].to_vec());
}

#[test]
fn single_sign_and_authenticator_verify() {
    let sk = private_key(1);
    let pk = sk.public_key();
    let message = b"pay alice 10".to_vec();
    let signature = sk.sign(&message);
    let authenticator = TransactionAuthenticator::ed25519(pk, signature);
    assert_eq!(authenticator.scheme().id(), 0);
    assert!(authenticator.verify(&message).is_ok());
    assert_eq!(
        authenticator.verify(&b"pay alice 11".to_vec()).unwrap_err(),
        AuthenticatorError::SignatureMismatch
    );
}

#[test]
fn account_signature_verify_checks_message() {
    let sk = private_key(4);
    let message = b"hello".to_vec();
    let account_sk = AccountPrivateKey::single(sk);
    let signature = account_sk.sign(&message);
    assert!(signature.verify(&message).is_ok());
    assert_eq!(
        signature.verify(&b"other".to_vec()).unwrap_err(),
        AuthenticatorError::SignatureMismatch
    );
}

#[test]
fn build_transaction_single_always_succeeds() {
    let sk = private_key(2);
    let message = b"raw txn bytes".to_vec();
    let signature = AccountPrivateKey::single(sk).sign(&message);
    let raw = RawUserTransaction::new(message.clone());
    let signed = signature.build_transaction(raw).unwrap();
    assert!(signed.authenticator().verify(&message).is_ok());
}

#[test]
fn build_transaction_gates_on_threshold() {
    let message = b"raw txn bytes".to_vec();
    let shard0 = key_shard(&[0]);
    let partial = AccountPrivateKey::multi(shard0).sign(&message);
    let raw = RawUserTransaction::new(message.clone());
    match partial.build_transaction(raw) {
        Err(AuthenticatorError::InsufficientSignatures { have, need }) => {
            assert_eq!(have, 1);
            assert_eq!(need, 2);
        }
        other => panic!("expected InsufficientSignatures, got {:?}", other.is_ok()),
    }
}

#[test]
fn merged_shards_meet_threshold_and_verify() {
    let message = b"raw txn bytes".to_vec();
    let partial0 = AccountPrivateKey::multi(key_shard(&[0])).sign(&message);
    let partial1 = AccountPrivateKey::multi(key_shard(&[1])).sign(&message);
    let merged = partial0.merge(&partial1).unwrap();
    assert!(merged.verify(&message).is_ok());
    let raw = RawUserTransaction::new(message.clone());
    let signed = merged.build_transaction(raw).unwrap();
    assert!(signed.authenticator().verify(&message).is_ok());
    assert!(signed.authenticator().verify(&b"tampered".to_vec()).is_err());
}

#[test]
fn merge_counts_disjoint_and_ignores_overlap() {
    let message = b"m".to_vec();
    let partial0 = AccountPrivateKey::multi(key_shard(&[0])).sign(&message);
    let partial1 = AccountPrivateKey::multi(key_shard(&[1])).sign(&message);
    let partial01 = AccountPrivateKey::multi(key_shard(&[0, 1])).sign(&message);

    let disjoint = partial0.merge(&partial1).unwrap();
    match &disjoint {
        AccountSignature::Multi(_, shard) => assert_eq!(shard.signature_count(), 2),
        _ => panic!("expected a multi signature"),
    }

    let overlapping = partial01.merge(&partial1).unwrap();
    match &overlapping {
        AccountSignature::Multi(_, shard) => assert_eq!(shard.signature_count(), 2),
        _ => panic!("expected a multi signature"),
    }
}

#[test]
fn merge_refuses_incompatible_shards() {
    let message = b"m".to_vec();
    let single = AccountPrivateKey::single(private_key(1)).sign(&message);
    let partial = AccountPrivateKey::multi(key_shard(&[0])).sign(&message);
    assert!(single.merge(&partial).is_err());
    assert!(partial.merge(&single).is_err());
}

#[test]
fn authenticator_display_names_scheme_and_hex() {
    let sk = private_key(3);
    let pk = sk.public_key();
    let message = b"display me".to_vec();
    let signature = sk.sign(&message);
    let pk_hex = hex::encode(pk.to_bytes());
    let sig_hex = hex::encode(signature.to_bytes());
    let authenticator = TransactionAuthenticator::ed25519(pk, signature);
    assert_eq!(
        authenticator.display_string(),
        format!(
            "TransactionAuthenticator[scheme id: Ed25519, public key: {}, signature: {}]",
            pk_hex, sig_hex
        )
    );
}

#[test]
fn random_authentication_key_is_32_bytes() {
    let key = AuthenticationKey::random();
    assert_eq!(key.to_vec().len(), 32);
}
