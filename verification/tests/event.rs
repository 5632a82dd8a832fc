use nostr::hasher::hash;
use nostr::hex::{from_hex, to_hex};
use nostr::signature::verify;
use nostr::{Error, Event, KeyPair, Kind, Tag};
use secp256k1::rand::thread_rng;
use secp256k1::SecretKey;

fn random_keypair() -> KeyPair {
    let secret = SecretKey::new(&mut thread_rng());
    let mut bytes = [0u8; 32];
    bytes.copy_from_slice(&secret[..]);
    KeyPair::from_secret_key(bytes).unwrap()
}

fn known_keypair() -> KeyPair {
    let mut secret = [0u8; 32];
    secret[31] = 3;
    KeyPair::from_secret_key(secret).unwrap()
}

fn tag(values: &[&str]) -> Tag {
    Tag { values: values.iter().map(|value| value.to_string()).collect() }
}

fn sample_event() -> Event {
    Event::new_at(
        &known_keypair(),
        1700000000,
        Kind::TextNote,
        vec![tag(&["p", "abc"]), tag(&["e", "def", "wss://relay"])],
        "hello".to_string(),
    )
    .unwrap()
}

#[test]
fn init_event() {
    let keypair = random_keypair();

    let event = Event::new(&keypair, Kind::SetMetaData, vec![], "some-content".into()).unwrap();
    assert!(event.verify_signature().is_ok());
}

#[test]
fn new_event_keeps_what_it_was_given() {
    let keypair = random_keypair();
    let tags = vec![tag(&["p", "abc"])];
    let event = Event::new(&keypair, Kind::RecommendServer, tags.clone(), "wss://relay".into())
        .unwrap();
    assert_eq!(event.pubkey, keypair.public_key());
    assert_eq!(event.kind, Kind::RecommendServer);
    assert_eq!(event.tags, tags);
    assert_eq!(event.content, "wss://relay");
    assert_eq!(event.id, hash(&event.canonical_bytes()));
    assert!(event.created_at > 1_600_000_000);
}

#[test]
fn text_note_at_a_fixed_time() {
    let keypair = known_keypair();
    let event =
        Event::new_at(&keypair, 1700000000, Kind::TextNote, vec![], "hello".to_string()).unwrap();

    let expected = "[0,\"f9308a019258c31049344f85f89d5229b531c845836f99b08601f113bce036f9\",1700000000,1,[],\"hello\"]";
    assert_eq!(event.canonical_bytes(), expected.as_bytes());
    assert_eq!(event.id, hash(expected.as_bytes()));
    assert_eq!(event.created_at, 1700000000);
    assert_eq!(verify(&event.sig, &event.id, &event.pubkey), Ok(()));
    assert_eq!(event.verify_signature(), Ok(()));
}

#[test]
fn empty_content_is_accepted() {
    let event =
        Event::new_at(&known_keypair(), 1700000000, Kind::TextNote, vec![], String::new()).unwrap();
    let expected = "[0,\"f9308a019258c31049344f85f89d5229b531c845836f99b08601f113bce036f9\",1700000000,1,[],\"\"]";
    assert_eq!(event.canonical_bytes(), expected.as_bytes());
    assert_eq!(event.id.len(), 32);
    assert_eq!(
        to_hex(&event.id),
        to_hex(&hash(expected.as_bytes())),
    );
    assert_ne!(event.id, [0u8; 32]);
    assert_eq!(event.verify_signature(), Ok(()));
}

#[test]
fn encoding_twice_gives_the_same_bytes() {
    let event = sample_event();
    let copy = event.clone();
    assert_eq!(event.canonical_bytes(), copy.canonical_bytes());
    assert_eq!(hash(&event.canonical_bytes()), hash(&copy.canonical_bytes()));

    let again = Event::with_signature(
        event.pubkey,
        event.created_at,
        event.kind,
        event.tags.clone(),
        event.content.clone(),
        event.sig,
    );
    assert_eq!(again, event);
}

#[test]
fn tampered_content_is_detected() {
    let mut event = sample_event();
    event.content = "hellp".to_string();
    assert_eq!(event.verify_signature(), Err(Error::IdMismatch));
}

#[test]
fn tampered_tags_are_detected() {
    let mut event = sample_event();
    event.tags[1].values[1] = "deg".to_string();
    assert_eq!(event.verify_signature(), Err(Error::IdMismatch));

    let mut event = sample_event();
    event.tags.pop();
    assert_eq!(event.verify_signature(), Err(Error::IdMismatch));

    let mut event = sample_event();
    event.tags = vec![tag(&["p", "abc", "e", "def", "wss://relay"])];
    assert_eq!(event.verify_signature(), Err(Error::IdMismatch));
}

#[test]
fn tampered_time_is_detected() {
    let mut event = sample_event();
    event.created_at ^= 1;
    assert_eq!(event.verify_signature(), Err(Error::IdMismatch));
}

#[test]
fn tampered_kind_is_detected() {
    let mut event = sample_event();
    event.kind = Kind::SetMetaData;
    assert_eq!(event.verify_signature(), Err(Error::IdMismatch));
}

#[test]
fn tampered_public_key_is_detected() {
    let mut event = sample_event();
    event.pubkey[7] ^= 0x10;
    assert_eq!(event.verify_signature(), Err(Error::IdMismatch));
}

#[test]
fn event_fails_under_another_key() {
    let signer = random_keypair();
    let other = random_keypair();
    let mut event =
        Event::new(&signer, Kind::TextNote, vec![], "signed by the first".into()).unwrap();
    assert_eq!(event.verify_signature(), Ok(()));

    event.pubkey = other.public_key();
    assert_eq!(event.verify_signature(), Err(Error::IdMismatch));
    assert_eq!(verify(&event.sig, &event.id, &event.pubkey), Err(Error::InvalidSignature));
}

#[test]
fn tampered_signature_is_detected() {
    let mut event = sample_event();
    event.sig[0] ^= 1;
    assert_eq!(event.verify_signature(), Err(Error::InvalidSignature));
}

#[test]
fn tampered_id_is_detected() {
    let mut event = sample_event();
    event.id[31] ^= 0x80;
    assert_eq!(event.verify_signature(), Err(Error::IdMismatch));
}

#[test]
fn id_and_signature_are_both_checked() {
    // A signature that verifies over the stated id does not make up for an
    // id that is not the digest of the fields.
    let keypair = known_keypair();
    let mut event = sample_event();
    let other = Event::new_at(&keypair, 1700000001, Kind::TextNote, vec![], "other".to_string())
        .unwrap();
    event.id = other.id;
    event.sig = other.sig;
    assert_eq!(verify(&event.sig, &event.id, &event.pubkey), Ok(()));
    assert_eq!(event.verify_signature(), Err(Error::IdMismatch));
}

#[test]
fn malformed_public_key_is_told_apart() {
    let sample = sample_event();
    // No point of the curve has an x-coordinate of all ones.
    let event = Event::with_signature(
        [0xff; 32],
        sample.created_at,
        sample.kind,
        sample.tags.clone(),
        sample.content.clone(),
        sample.sig,
    );
    assert_eq!(event.verify_signature(), Err(Error::SignatureSchemeError));
}

#[test]
fn validation_gives_the_same_result_each_time() {
    let event = sample_event();
    assert_eq!(event.verify_signature(), Ok(()));
    assert_eq!(event.verify_signature(), Ok(()));
    assert_eq!(event.verify_signature(), event.clone().verify_signature());

    let mut tampered = sample_event();
    tampered.content.push('!');
    assert_eq!(tampered.verify_signature(), Err(Error::IdMismatch));
    assert_eq!(tampered.verify_signature(), Err(Error::IdMismatch));
}

#[test]
fn two_signatures_of_one_event_both_verify() {
    let keypair = known_keypair();
    let first =
        Event::new_at(&keypair, 1700000000, Kind::TextNote, vec![], "hello".to_string()).unwrap();
    let second =
        Event::new_at(&keypair, 1700000000, Kind::TextNote, vec![], "hello".to_string()).unwrap();
    assert_eq!(first.id, second.id);
    assert_eq!(first.verify_signature(), Ok(()));
    assert_eq!(second.verify_signature(), Ok(()));
}

#[test]
fn with_signature_computes_the_id() {
    let sample = sample_event();
    let event = Event::with_signature(
        sample.pubkey,
        sample.created_at,
        sample.kind,
        sample.tags.clone(),
        sample.content.clone(),
        [0u8; 64],
    );
    assert_eq!(event.id, sample.id);
    assert_eq!(event.sig, [0u8; 64]);
    assert_eq!(event.verify_signature(), Err(Error::InvalidSignature));
    assert_eq!(
        from_hex(&to_hex(&event.id)).unwrap(),
        event.id.to_vec(),
    );
}
