use nostr::hasher::{hash, same_digest};
use nostr::hex::from_hex;
use nostr::signature::{decide_signing, decide_verification, sign, verify};
use nostr::{Error, KeyPair};

fn bytes32(text: &str) -> [u8; 32] {
    let mut bytes = [0u8; 32];
    bytes.copy_from_slice(&from_hex(text.as_bytes()).unwrap());
    bytes
}

fn bytes64(text: &str) -> [u8; 64] {
    let mut bytes = [0u8; 64];
    bytes.copy_from_slice(&from_hex(text.as_bytes()).unwrap());
    bytes
}

#[test]
fn digest_of_known_texts() {
    assert_eq!(
        hash(b"abc"),
        bytes32("ba7816bf8f01cfea414140de5dae2223b00361a396177a9cb410ff61f20015ad"),
    );
    assert_eq!(
        hash(b""),
        bytes32("e3b0c44298fc1c149afbf4c8996fb92427ae41e4649b934ca495991b7852b855"),
    );
}

#[test]
fn digests_are_compared_byte_by_byte() {
    let a = hash(b"abc");
    let mut b = a;
    assert!(same_digest(&a, &b));
    b[31] ^= 1;
    assert!(!same_digest(&a, &b));
    b = a;
    b[0] ^= 0x80;
    assert!(!same_digest(&a, &b));
}

#[test]
fn public_key_of_known_secrets() {
    let one = bytes32("0000000000000000000000000000000000000000000000000000000000000001");
    let keypair = KeyPair::from_secret_key(one).unwrap();
    assert_eq!(
        keypair.public_key(),
        bytes32("79be667ef9dcbbac55a06295ce870b07029bfcdb2dce28d959f2815b16f81798"),
    );
    assert_eq!(keypair.secret_key(), one);

    let three = bytes32("0000000000000000000000000000000000000000000000000000000000000003");
    let keypair = KeyPair::from_secret_key(three).unwrap();
    assert_eq!(
        keypair.public_key(),
        bytes32("f9308a019258c31049344f85f89d5229b531c845836f99b08601f113bce036f9"),
    );
}

#[test]
fn secret_key_out_of_range_is_refused() {
    assert!(matches!(KeyPair::from_secret_key([0u8; 32]), Err(Error::SignatureSchemeError)));
    assert!(matches!(KeyPair::from_secret_key([0xff; 32]), Err(Error::SignatureSchemeError)));
    // The order of the group itself is the first value that is too large.
    let order = bytes32("fffffffffffffffffffffffffffffffebaaedce6af48a03bbfd25e8cd0364141");
    assert!(matches!(KeyPair::from_secret_key(order), Err(Error::SignatureSchemeError)));
    let below = bytes32("fffffffffffffffffffffffffffffffebaaedce6af48a03bbfd25e8cd0364140");
    assert!(KeyPair::from_secret_key(below).is_ok());
}

#[test]
fn known_signature_verifies() {
    let public_key = bytes32("f9308a019258c31049344f85f89d5229b531c845836f99b08601f113bce036f9");
    let digest = [0u8; 32];
    let signature = bytes64(
        "e907831f80848d1069a5371b402410364bdf1c5f8307b0084c55f1ce2dca8215\
         25f66a4a85ea8b71e482a74f382d2ce5ebeee8fdb2172f477df4900d310536c0",
    );
    assert_eq!(verify(&signature, &digest, &public_key), Ok(()));

    let mut other_digest = digest;
    other_digest[0] = 1;
    assert_eq!(verify(&signature, &other_digest, &public_key), Err(Error::InvalidSignature));

    let mut other_signature = signature;
    other_signature[63] ^= 1;
    assert_eq!(verify(&other_signature, &digest, &public_key), Err(Error::InvalidSignature));

    let other_key = bytes32("79be667ef9dcbbac55a06295ce870b07029bfcdb2dce28d959f2815b16f81798");
    assert_eq!(verify(&signature, &digest, &other_key), Err(Error::InvalidSignature));
}

#[test]
fn malformed_key_is_not_an_invalid_signature() {
    let digest = hash(b"abc");
    let signature = [0u8; 64];
    // Not below the prime of the field.
    assert_eq!(verify(&signature, &digest, &[0xff; 32]), Err(Error::SignatureSchemeError));
    // Below the prime, but x^3 + 7 is no square for x = 5.
    let mut five = [0u8; 32];
    five[31] = 5;
    assert_eq!(verify(&signature, &digest, &five), Err(Error::SignatureSchemeError));
    // A key, with a signature that is none.
    let one = bytes32("79be667ef9dcbbac55a06295ce870b07029bfcdb2dce28d959f2815b16f81798");
    assert_eq!(verify(&signature, &digest, &one), Err(Error::InvalidSignature));
}

#[test]
fn signature_verifies_under_the_signer() {
    let keypair = KeyPair::from_secret_key([7u8; 32]).unwrap();
    let other = KeyPair::from_secret_key([8u8; 32]).unwrap();
    let digest = hash(b"a message");
    let signature = sign(&keypair, &digest).unwrap();
    assert_eq!(verify(&signature, &digest, &keypair.public_key()), Ok(()));
    assert_eq!(
        verify(&signature, &digest, &other.public_key()),
        Err(Error::InvalidSignature),
    );
    assert_eq!(
        verify(&signature, &hash(b"another message"), &keypair.public_key()),
        Err(Error::InvalidSignature),
    );
    assert_ne!(signature, [0u8; 64]);
}

#[test]
fn outcomes_of_signing_and_verifying() {
    assert_eq!(decide_verification(true, true), Ok(()));
    assert_eq!(decide_verification(false, true), Err(Error::InvalidSignature));
    assert_eq!(decide_verification(false, false), Err(Error::SignatureSchemeError));

    assert_eq!(decide_signing(Some([9u8; 64]), true), Ok([9u8; 64]));
    assert_eq!(decide_signing(Some([9u8; 64]), false), Err(Error::SignatureSchemeError));
    assert_eq!(decide_signing(None, false), Err(Error::SignatureSchemeError));
}
