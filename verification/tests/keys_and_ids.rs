use gelder::clock::{format_id, format_millis, new_id, unix_now_ms_string};
use gelder::keys::{sessionless_from_hex, Signer};
use gelder::model::AddieIdentity;
use gelder::payout::{
    addie_session_for, addie_uuid_of, bdo_session_for, identity_for_env, keypair_of, needs_addie_user,
    payout_status, record_addie_user, record_stripe_account, store_identity, stripe_connected,
};
use gelder::string_map::StringMap;
use std::sync::atomic::AtomicU64;

const ORDER_HEX: &str = "fffffffffffffffffffffffffffffffebaaedce6af48a03bbfd25e8cd0364141";
const ORDER_MINUS_ONE_HEX: &str = "FFFFFFFFFFFFFFFFFFFFFFFFFFFFFFFEBAAEDCE6AF48A03BBFD25E8CD0364140";

#[test]
fn valid_private_keys_decode() {
    let one = format!("{}1", "0".repeat(63));
    assert!(sessionless_from_hex(&one).is_ok());
    assert!(sessionless_from_hex(ORDER_MINUS_ONE_HEX).is_ok());
    assert!(Signer::from_hex(&one).is_ok());
    assert_eq!(
        Signer::from_hex(ORDER_MINUS_ONE_HEX).unwrap().private_key_hex(),
        ORDER_MINUS_ONE_HEX.to_lowercase()
    );
}

#[test]
fn invalid_private_keys_are_refused() {
    assert!(sessionless_from_hex(&"0".repeat(64)).is_err());
    assert!(sessionless_from_hex(ORDER_HEX).is_err());
    assert!(sessionless_from_hex("abc").is_err());
    assert!(sessionless_from_hex("zz").is_err());
    assert!(sessionless_from_hex(&"11".repeat(31)).is_err());
    assert!(sessionless_from_hex(&"11".repeat(33)).is_err());
    assert!(sessionless_from_hex("").is_err());
    assert!(Signer::from_hex(ORDER_HEX).is_err());
    assert!(Signer::from_hex("zz").is_err());
}

#[test]
fn stored_key_text_round_trips() {
    let s = Signer::generate();
    let hex = s.private_key_hex();
    assert_eq!(hex.len(), 64);
    assert!(hex.chars().all(|c| c.is_ascii_hexdigit() && !c.is_ascii_uppercase()));
    let again = Signer::from_hex(&hex).unwrap();
    assert_eq!(again.private_key_hex(), hex);
    assert_eq!(again.public_key_hex(), s.public_key_hex());
    assert_eq!(s.public_key_hex().len(), 66);
    assert!(sessionless_from_hex(&hex).is_ok());
}

#[test]
fn signatures_are_hex() {
    let s = Signer::from_hex(ORDER_MINUS_ONE_HEX).unwrap();
    let sig = s.sign_hex("1700000000000uuidgelder-invoice");
    assert_eq!(sig.len(), 128);
    assert!(sig.chars().all(|c| c.is_ascii_hexdigit() && !c.is_ascii_uppercase()));
    assert_eq!(sig, s.sign_hex("1700000000000uuidgelder-invoice"));
    assert_ne!(sig, s.sign_hex("other"));
    let other_key = Signer::from_hex(&format!("{}1", "0".repeat(63))).unwrap();
    assert_ne!(sig, other_key.sign_hex("1700000000000uuidgelder-invoice"));
}

#[test]
fn ids_and_timestamps() {
    assert_eq!(format_id(Some(123), 7), "123-7");
    assert_eq!(format_id(None, 0), "0-0");
    assert_eq!(format_millis(Some(1_700_000_000_123_456_789)), "1700000000123");
    assert_eq!(format_millis(None), "");
    let now = unix_now_ms_string();
    assert!(!now.is_empty() && now.chars().all(|c| c.is_ascii_digit()));
    let counter = AtomicU64::new(5);
    let a = new_id(&counter);
    let b = new_id(&counter);
    assert!(a.ends_with("-5"));
    assert!(b.ends_with("-6"));
    assert_ne!(a, b);
}

#[test]
fn per_invoice_keys_are_made_once_and_reused() {
    let mut keys = StringMap::new();
    let (first, changed) = bdo_session_for(&mut keys, "inv-1").unwrap();
    assert!(changed);
    assert_eq!(keys.len(), 1);
    let stored = keys.get("inv-1").unwrap().clone();
    assert_eq!(stored.private_key_hex, first.private_key_hex());
    assert_eq!(stored.pub_key_hex, first.public_key_hex());
    let (second, changed_again) = bdo_session_for(&mut keys, "inv-1").unwrap();
    assert!(!changed_again);
    assert_eq!(second.public_key_hex(), first.public_key_hex());
    assert_eq!(keys.len(), 1);
    let pair = keypair_of(&second);
    assert_eq!(pair.private_key_hex, stored.private_key_hex);
}

#[test]
fn a_corrupt_stored_key_is_an_error() {
    let mut keys = StringMap::new();
    keys.insert(
        "inv".to_string(),
        gelder::model::BdoKeypair { private_key_hex: "not hex".to_string(), pub_key_hex: String::new() },
    );
    assert!(bdo_session_for(&mut keys, "inv").is_err());
}

#[test]
fn payout_identity_flow() {
    let (session, mut identity, fresh) = addie_session_for(None).unwrap();
    assert!(fresh);
    assert_eq!(identity.pub_key_hex, session.public_key_hex());
    assert_eq!(identity.private_key_hex, session.private_key_hex());
    assert!(needs_addie_user(&identity));
    assert_eq!(addie_uuid_of(&identity), Err("Addie identity missing uuid".to_string()));
    assert!(!payout_status(Some(&identity)).connected);
    record_addie_user(&mut identity, "user-1".to_string());
    assert!(!needs_addie_user(&identity));
    assert_eq!(addie_uuid_of(&identity), Ok("user-1".to_string()));
    record_stripe_account(&mut identity, "acct_1".to_string());
    let status = payout_status(Some(&identity));
    assert!(status.connected);
    assert_eq!(status.pub_key, Some(identity.pub_key_hex.clone()));
    assert!(stripe_connected(Some(&identity)));
    let mut identities = StringMap::new();
    store_identity(&mut identities, identity.clone());
    assert_eq!(identity_for_env(&identities).map(|i| i.addie_uuid.clone()), Some(Some("user-1".to_string())));
    let (_, kept, fresh_again) = addie_session_for(Some(identity.clone())).unwrap();
    assert!(!fresh_again);
    assert_eq!(kept.stripe_account_id, Some("acct_1".to_string()));
}

#[test]
fn no_identity_means_not_connected() {
    let status = payout_status(None);
    assert!(!status.connected);
    assert_eq!(status.pub_key, None);
    assert!(!stripe_connected(None));
    let broken = AddieIdentity {
        private_key_hex: "00".to_string(),
        pub_key_hex: String::new(),
        addie_uuid: None,
        stripe_account_id: None,
    };
    assert!(addie_session_for(Some(broken)).is_err());
}

#[test]
fn the_public_key_of_one_is_the_generator() {
    let one = Signer::from_hex(&format!("{}1", "0".repeat(63))).unwrap();
    assert_eq!(
        one.public_key_hex(),
        "0279be667ef9dcbbac55a06295ce870b07029bfcdb2dce28d959f2815b16f81798"
    );
    let pair = keypair_of(&one);
    assert_eq!(pair.private_key_hex, format!("{}1", "0".repeat(63)));
    assert_eq!(pair.pub_key_hex, one.public_key_hex());
}
