use nostr::util::{timestamp_from_reading, timestamp_from_secs};
use nostr::{unix_u32_now, Error, Kind};

#[test]
fn timestamps_keep_the_low_32_bits() {
    assert_eq!(timestamp_from_secs(0), 0);
    assert_eq!(timestamp_from_secs(1700000000), 1700000000);
    assert_eq!(timestamp_from_secs(0xffff_ffff), u32::MAX);
    assert_eq!(timestamp_from_secs(0x1_0000_0000), 0);
    assert_eq!(timestamp_from_secs(0x1_0000_0005), 5);
    assert_eq!(timestamp_from_secs(u64::MAX), u32::MAX);
}

#[test]
fn clock_before_the_epoch_is_an_error() {
    assert_eq!(timestamp_from_reading(None), Err(Error::ClockError));
    assert_eq!(timestamp_from_reading(Some(1700000000)), Ok(1700000000));
    assert_eq!(timestamp_from_reading(Some(0x2_0000_0001)), Ok(1));
}

#[test]
fn clock_runs_and_does_not_go_back_far() {
    let first = unix_u32_now().unwrap();
    let second = unix_u32_now().unwrap();
    // After 2020 and, barring a leap of the clock, within a minute.
    assert!(first > 1_577_836_800);
    assert!(second.wrapping_sub(first) < 60 || first.wrapping_sub(second) < 60);
}

#[test]
fn kinds_and_their_numbers() {
    assert_eq!(Kind::SetMetaData.to_u8(), 0);
    assert_eq!(Kind::TextNote.to_u8(), 1);
    assert_eq!(Kind::RecommendServer.to_u8(), 2);
    assert_eq!(Kind::from_u8(0), Ok(Kind::SetMetaData));
    assert_eq!(Kind::from_u8(1), Ok(Kind::TextNote));
    assert_eq!(Kind::from_u8(2), Ok(Kind::RecommendServer));
    assert_eq!(Kind::from_u8(3), Err(Error::UnknownKind));
    assert_eq!(Kind::from_u8(255), Err(Error::UnknownKind));
}

#[test]
fn messages_of_errors() {
    assert_eq!(Error::InvalidSignature.message(), "Signature is invalid");
    assert_eq!(Error::IdMismatch.message(), "Identifier does not match the event");
    assert_eq!(Error::ClockError.message(), "System clock is set before the Unix epoch");
    assert_eq!(Error::SignatureSchemeError.message(), "Malformed or out-of-range key");
    assert_eq!(Error::UnknownKind.message(), "Unknown kind of event");
}
