use mpc_signer::bundle::KeyBundle;
use mpc_signer::dealer::{parse_child_key_hex, BundleSource, DealerError, KeyGenConfig, KeyShareDealer};
use mpc_signer::ecdsa::{is_zero_scalar, public_key_from_secret};

fn config(n: u16, t: u16, account: &str, key: [u8; 32]) -> KeyGenConfig {
    KeyGenConfig {
        n_parties: n,
        threshold: t,
        account_id: account.to_string(),
        child_key: key,
        output_prefix: "key_shares".to_string(),
        pubkeys: None,
    }
}

const ORDER: &str = "FFFFFFFFFFFFFFFFFFFFFFFFFFFFFFFEBAAEDCE6AF48A03BBFD25E8CD0364141";

#[test]
fn threshold_rules() {
    assert_eq!(KeyShareDealer::new(config(2, 1, "a", [1; 32])).err(), Some(DealerError::InvalidThreshold));
    assert_eq!(KeyShareDealer::new(config(2, 3, "a", [1; 32])).err(), Some(DealerError::InvalidThreshold));
    assert_eq!(KeyShareDealer::new(config(1, 1, "a", [1; 32])).err(), Some(DealerError::InvalidPartyCount));
    assert_eq!(KeyShareDealer::new(config(256, 2, "a", [1; 32])).err(), Some(DealerError::InvalidPartyCount));
    assert!(KeyShareDealer::new(config(255, 255, "a", [1; 32])).is_ok());
    assert!(KeyShareDealer::new(config(3, 2, "a", [1; 32])).is_ok());
}

#[test]
fn child_key_checks() {
    assert_eq!(KeyShareDealer::new(config(2, 2, "a", [0; 32])).err(), Some(DealerError::ChildKeyZero));
    let order = parse_child_key_hex(ORDER).unwrap();
    assert!(is_zero_scalar(&order));
    assert_eq!(KeyShareDealer::new(config(2, 2, "a", order)).err(), Some(DealerError::ChildKeyZero));
    assert!(!is_zero_scalar(&[0xff; 32]));
    assert!(KeyShareDealer::new(config(2, 2, "a", [0xff; 32])).is_ok());
}

#[test]
fn child_key_hex() {
    let key = parse_child_key_hex(&"01".repeat(32)).unwrap();
    assert_eq!(key, [1u8; 32]);
    let key = parse_child_key_hex(&"aB".repeat(32)).unwrap();
    assert_eq!(key, [0xab; 32]);
    assert_eq!(parse_child_key_hex(&"01".repeat(31)), Err(DealerError::ChildKeyMalformed));
    assert_eq!(parse_child_key_hex(&"01".repeat(33)), Err(DealerError::ChildKeyMalformed));
    assert_eq!(parse_child_key_hex(&"0g".repeat(32)), Err(DealerError::ChildKeyMalformed));
    assert_eq!(parse_child_key_hex("0"), Err(DealerError::ChildKeyMalformed));
}

#[test]
fn expected_public_key_is_k_times_g() {
    let mut one = [0u8; 32];
    one[31] = 1;
    let g = public_key_from_secret(&one);
    let expected = hex_bytes(
        "0479BE667EF9DCBBAC55A06295CE870B07029BFCDB2DCE28D959F2815B16F81798\
         483ADA7726A3C4655DA4FBFC0E1108A8FD17B448A68554199C47D08FFB10D4B8",
    );
    assert_eq!(g, expected);
    let dealer = KeyShareDealer::new(config(2, 2, "acct-a", [1; 32])).unwrap();
    assert_eq!(dealer.expected_public_key(), &public_key_from_secret(&[1; 32]));
    assert_eq!(dealer.verify_public_key(&public_key_from_secret(&[1; 32])), Ok(()));
    assert_eq!(dealer.verify_public_key(&g), Err(DealerError::PublicKeyMismatch));
    let good = public_key_from_secret(&[1; 32]);
    assert_eq!(dealer.verify_share_public_keys(&vec![good.clone(), good.clone()]), Ok(()));
    assert_eq!(dealer.verify_share_public_keys(&vec![good, g]), Err(DealerError::PublicKeyMismatch));
}

fn hex_bytes(s: &str) -> Vec<u8> {
    (0..s.len()).step_by(2).map(|i| u8::from_str_radix(&s[i..i + 2], 16).unwrap()).collect()
}

#[test]
fn file_names_and_sources() {
    let mut c = config(3, 2, "a", [1; 32]);
    let dealer = KeyShareDealer::new(c.clone()).unwrap();
    assert_eq!(dealer.plain_file_name(0), "key_shares_1.json");
    assert_eq!(dealer.output_file_name(2), "key_shares_3.json");
    assert!(!dealer.is_encrypted());
    assert_eq!(dealer.bundle_source(1, false, true), Ok(BundleSource::Existing("key_shares_2.json".to_string())));
    assert_eq!(dealer.bundle_source(1, false, false), Ok(BundleSource::Fresh));
    assert_eq!(dealer.bundle_source(1, true, true), Err(DealerError::AppendToEncryptedRefused));
    assert_eq!(dealer.bundle_source(1, true, false), Err(DealerError::AppendToEncryptedRefused));
    c.pubkeys = Some(vec!["age1a".to_string(), "age1b".to_string(), "age1c".to_string()]);
    let enc = KeyShareDealer::new(c).unwrap();
    assert!(enc.is_encrypted());
    assert_eq!(enc.output_file_name(0), "key_shares_1.json.age");
    assert_eq!(enc.encrypted_file_name(9), "key_shares_10.json.age");
    assert_eq!(enc.recipient(1), Some(&"age1b".to_string()));
    assert_eq!(enc.recipient(3), None);
    assert_eq!(enc.n_parties(), 3);
    assert_eq!(enc.output_prefix(), "key_shares");
}

#[test]
fn dealer_append() {
    let mut bundle: KeyBundle<String> = KeyBundle::new();
    let a = KeyShareDealer::new(config(2, 2, "a", [1; 32])).unwrap();
    let b = KeyShareDealer::new(config(2, 2, "b", [2; 32])).unwrap();
    a.add_to_bundle(&mut bundle, "share-a1".to_string());
    b.add_to_bundle(&mut bundle, "share-b".to_string());
    assert_eq!(bundle.len(), 2);
    assert_eq!(bundle.get("a"), Some(&"share-a1".to_string()));
    assert_eq!(bundle.get("b"), Some(&"share-b".to_string()));
    let a2 = KeyShareDealer::new(config(2, 2, "a", [3; 32])).unwrap();
    a2.add_to_bundle(&mut bundle, "share-a2".to_string());
    assert_eq!(bundle.len(), 2);
    assert_eq!(bundle.get("a"), Some(&"share-a2".to_string()));
    assert_eq!(bundle.get("b"), Some(&"share-b".to_string()));
    assert_eq!(bundle.account_id_list(), vec!["a".to_string(), "b".to_string()]);
    assert!(bundle.contains("a"));
    assert!(!bundle.contains("A"));
}

#[test]
fn bundle_entries_round_trip() {
    let mut b: KeyBundle<String> = KeyBundle::new();
    b.insert("x".to_string(), "1".to_string());
    b.insert("y".to_string(), "2".to_string());
    b.insert("x".to_string(), "3".to_string());
    let (ids, shares) = b.into_entries();
    assert_eq!(ids, vec!["x".to_string(), "y".to_string()]);
    assert_eq!(shares, vec!["3".to_string(), "2".to_string()]);
    let back = KeyBundle::from_entries(ids, shares);
    assert_eq!(back.len(), 2);
    assert_eq!(back.get("x"), Some(&"3".to_string()));
    assert_eq!(back.get("y"), Some(&"2".to_string()));
    let later_wins = KeyBundle::from_entries(
        vec!["a".to_string(), "a".to_string()],
        vec!["1".to_string(), "2".to_string()],
    );
    assert_eq!(later_wins.len(), 1);
    assert_eq!(later_wins.get("a"), Some(&"2".to_string()));
    assert!(KeyBundle::<String>::new().is_empty());
}

#[test]
fn bundle_json_round_trip() {
    let mut b: KeyBundle<serde_json::Value> = KeyBundle::new();
    b.insert("acct-a".to_string(), serde_json::Value::from(vec![1, 2, 3]));
    b.insert("m/44/60/0/0/0".to_string(), serde_json::Value::from("share"));
    let (ids, values) = b.into_entries();
    let map: serde_json::Map<String, serde_json::Value> = ids.into_iter().zip(values).collect();
    let text = serde_json::to_string_pretty(&map).unwrap();
    let read: serde_json::Map<String, serde_json::Value> = serde_json::from_str(&text).unwrap();
    let (ids, values): (Vec<String>, Vec<serde_json::Value>) = read.into_iter().unzip();
    let back = KeyBundle::from_entries(ids, values);
    assert_eq!(back.len(), 2);
    assert_eq!(back.get("acct-a"), Some(&serde_json::Value::from(vec![1, 2, 3])));
    assert_eq!(back.get("m/44/60/0/0/0"), Some(&serde_json::Value::from("share")));
}

#[test]
fn recipients_one_per_party() {
    let mut c = config(3, 2, "a", [1; 32]);
    c.pubkeys = Some(vec!["age1a".to_string(), "age1b".to_string()]);
    assert_eq!(KeyShareDealer::new(c.clone()).err(), Some(DealerError::RecipientCountMismatch));
    assert_eq!(KeyShareDealer::validate_config(&c), Err(DealerError::RecipientCountMismatch));
    c.pubkeys = Some(vec!["age1a".to_string(), "age1b".to_string(), "age1c".to_string()]);
    assert!(KeyShareDealer::new(c).is_ok());
}
