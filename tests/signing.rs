use k256::ecdsa::SigningKey;
#[allow(unused_imports)]
use k256::elliptic_curve::sec1::ToEncodedPoint;
use mpc_signer::bundle::KeyBundle;
use k256::elliptic_curve::ff::PrimeField;
use mpc_signer::ecdsa::{normalize_s, public_key_from_secret, recover_public_key};
use mpc_signer::participant::{
    canonical_signers, chain_from_code, default_account_id, outgoing_envelope, Destination, Envelope,
    RoomAddress, compute_recovery_id, finish_signature, message_kind,
    select_recovery_id, should_receive, signing_room_id, Chain, KeyShareRecord, MessageKind,
    ParticipantHandler, SignError, SignMessage,
};

fn digest() -> Vec<u8> {
    let mut d = vec![0xde, 0xad];
    d.extend(vec![0x11; 28]);
    d.extend(vec![0xbe, 0xef]);
    d
}

fn sign_with(secret: [u8; 32], digest: &[u8]) -> (Vec<u8>, Vec<u8>, u8, Vec<u8>) {
    let key = SigningKey::from_bytes(&secret.into()).unwrap();
    let (sig, recid) = key.sign_prehash_recoverable(digest).unwrap();
    let bytes = sig.to_bytes();
    let public = key.verifying_key().to_encoded_point(false).as_bytes().to_vec();
    (bytes[..32].to_vec(), bytes[32..].to_vec(), recid.to_byte(), public)
}

fn handler_with(account: &str, public_key: Vec<u8>) -> ParticipantHandler {
    let mut bundle = KeyBundle::new();
    bundle.insert(account.to_string(), KeyShareRecord { index: 1, threshold: 2, public_key });
    ParticipantHandler::new(bundle).unwrap()
}

fn request(account: &str, data: Vec<u8>) -> SignMessage {
    SignMessage { tx_id: 7, execution_id: vec![9; 16], chain: 0, data, account_id: account.to_string() }
}

#[test]
fn trial_recovery_picks_the_one_matching_id() {
    let d = digest();
    let (r, s, recid, public) = sign_with([0x01; 32], &d);
    let v = compute_recovery_id(&d, &r, &s, &public).unwrap();
    assert_eq!(v, recid as u32);
    assert_eq!(recover_public_key(&d, &r, &s, v), Some(public.clone()));
    let other = recover_public_key(&d, &r, &s, 1 - v);
    assert_ne!(other, Some(public.clone()));
    assert_eq!(recover_public_key(&d, &r, &s, 2), None);
}

#[test]
fn two_of_two_key_signature_recovers_dealer_key() {
    let d = digest();
    let expected = public_key_from_secret(&[0x01; 32]);
    let (r, s, _, public) = sign_with([0x01; 32], &d);
    assert_eq!(expected, public);
    let v = compute_recovery_id(&d, &r, &s, &expected).unwrap();
    assert_eq!(recover_public_key(&d, &r, &s, v), Some(expected));
}

#[test]
fn recovery_fails_for_another_key() {
    let d = digest();
    let (r, s, _, _) = sign_with([0x01; 32], &d);
    let other = public_key_from_secret(&[0x02; 32]);
    assert_eq!(compute_recovery_id(&d, &r, &s, &other), Err(SignError::RecoveryIdUndeterminable));
}

#[test]
fn select_recovery_id_prefers_first_match() {
    let k = vec![4u8, 5, 6];
    assert_eq!(select_recovery_id(&Some(k.clone()), &Some(k.clone()), &k), Ok(0));
    assert_eq!(select_recovery_id(&None, &Some(k.clone()), &k), Ok(1));
    assert_eq!(select_recovery_id(&Some(vec![1]), &None, &k), Err(SignError::RecoveryIdUndeterminable));
}

#[test]
fn unknown_account_is_not_found() {
    let handler = handler_with("acct-a", vec![4; 65]);
    let err = handler.plan_signing(&request("ghost", digest())).unwrap_err();
    assert_eq!(err, SignError::NotFound);
}

#[test]
fn empty_account_is_invalid_argument() {
    let handler = handler_with("acct-a", vec![4; 65]);
    assert_eq!(handler.plan_signing(&request("", digest())).unwrap_err(), SignError::InvalidArgument);
}

#[test]
fn digest_length_is_checked() {
    let handler = handler_with("acct-a", vec![4; 65]);
    assert_eq!(handler.plan_signing(&request("acct-a", vec![1; 31])).unwrap_err(), SignError::InvalidArgument);
    assert_eq!(handler.plan_signing(&request("acct-a", vec![1; 33])).unwrap_err(), SignError::InvalidArgument);
}

#[test]
fn unknown_chain_is_internal() {
    let handler = handler_with("acct-a", vec![4; 65]);
    let mut req = request("acct-a", digest());
    req.chain = 5;
    assert_eq!(handler.plan_signing(&req).unwrap_err(), SignError::Internal);
}

#[test]
fn plan_fixes_room_index_and_signers() {
    let handler = handler_with("acct-a", vec![4; 65]);
    let plan = handler.plan_signing(&request("acct-a", digest())).unwrap();
    assert_eq!(plan.room_id, "signing_7");
    assert_eq!(plan.index, 1);
    assert_eq!(plan.signers, vec![0, 1]);
    assert_eq!(plan.chain, Chain::Ethereum);
    assert_eq!(plan.digest, digest());
    assert!(handler.get_key_share_by_account_id("ACCT-A").is_none());
}

#[test]
fn finish_signature_computes_recovery_byte() {
    let d = digest();
    let (r, s, recid, public) = sign_with([0x07; 32], &d);
    let handler = handler_with("acct-a", public);
    let plan = handler.plan_signing(&request("acct-a", d)).unwrap();
    let sig = finish_signature(&plan, r.clone(), s.clone()).unwrap();
    assert_eq!(sig.r, r);
    assert_eq!(sig.s, s);
    assert_eq!(sig.v, recid as u32);
    assert_eq!(finish_signature(&plan, vec![1; 31], s).unwrap_err(), SignError::Internal);
}

#[test]
fn bitcoin_takes_recovery_byte_zero() {
    let handler = handler_with("acct-a", vec![4; 65]);
    let mut req = request("acct-a", digest());
    req.chain = 1;
    let plan = handler.plan_signing(&req).unwrap();
    let sig = finish_signature(&plan, vec![3; 32], vec![5; 32]).unwrap();
    assert_eq!(sig.v, 0);
}

#[test]
fn empty_bundle_is_refused() {
    assert!(ParticipantHandler::new(KeyBundle::new()).is_none());
}

#[test]
fn room_names() {
    assert_eq!(signing_room_id(0), "signing_0");
    assert_eq!(signing_room_id(305419896), "signing_305419896");
    assert_eq!(signing_room_id(-1), "signing_-1");
    assert_eq!(signing_room_id(i32::MIN), "signing_-2147483648");
}

#[test]
fn envelope_routing() {
    assert!(should_receive(0, None, 1));
    assert!(!should_receive(1, None, 1));
    assert!(should_receive(0, Some(1), 1));
    assert!(!should_receive(0, Some(2), 1));
    assert_eq!(message_kind(None), MessageKind::Broadcast);
    assert_eq!(message_kind(Some(3)), MessageKind::P2P);
}

#[test]
fn signer_set_and_chains() {
    assert_eq!(canonical_signers(3), vec![0, 1, 2]);
    assert!(canonical_signers(0).is_empty());
    assert_eq!(chain_from_code(0), Some(Chain::Ethereum));
    assert_eq!(chain_from_code(1), Some(Chain::Bitcoin));
    assert_eq!(chain_from_code(2), None);
}

#[test]
fn high_s_is_normalised() {
    let d = digest();
    let (r, s, recid, public) = sign_with([0x07; 32], &d);
    let low = k256::Scalar::from_repr(k256::FieldBytes::clone_from_slice(&s)).unwrap();
    let high = (-low).to_bytes().to_vec();
    assert_ne!(high, s);
    assert_eq!(normalize_s(high.clone()), Some(s.clone()));
    assert_eq!(normalize_s(s.clone()), Some(s.clone()));
    assert_eq!(normalize_s(vec![0xff; 32]), None);
    let handler = handler_with("acct-a", public);
    let plan = handler.plan_signing(&request("acct-a", d)).unwrap();
    let sig = finish_signature(&plan, r.clone(), high).unwrap();
    assert_eq!(sig.r, r);
    assert_eq!(sig.s, s);
    assert_eq!(sig.v, recid as u32);
    assert_eq!(finish_signature(&plan, r, vec![0xff; 32]).unwrap_err(), SignError::Internal);
}

#[test]
fn room_endpoints() {
    let room = RoomAddress::new("http://127.0.0.1:8080/".to_string(), "signing_7");
    assert_eq!(room.endpoint("broadcast"), "http://127.0.0.1:8080/rooms/signing_7/broadcast");
    let room = RoomAddress::new("http://bus//".to_string(), "r");
    assert_eq!(room.endpoint("subscribe"), "http://bus/rooms/r/subscribe");
    let room = RoomAddress::new("http://bus".to_string(), "r");
    assert_eq!(room.endpoint("issue_unique_idx"), "http://bus/rooms/r/issue_unique_idx");
    assert_eq!(default_account_id(3), "account_3");
}

#[test]
fn argument_checks_come_before_the_chain() {
    let handler = handler_with("acct-a", vec![4; 65]);
    let mut req = request("", digest());
    req.chain = 5;
    assert_eq!(handler.plan_signing(&req).unwrap_err(), SignError::InvalidArgument);
    let mut req = request("acct-a", vec![1; 31]);
    req.chain = 5;
    assert_eq!(handler.plan_signing(&req).unwrap_err(), SignError::InvalidArgument);
    let mut req = request("ghost", digest());
    req.chain = 5;
    assert_eq!(handler.plan_signing(&req).unwrap_err(), SignError::NotFound);
}

#[test]
fn components_must_be_scalars() {
    let handler = handler_with("acct-a", vec![4; 65]);
    let mut req = request("acct-a", digest());
    req.chain = 1;
    let plan = handler.plan_signing(&req).unwrap();
    assert_eq!(finish_signature(&plan, vec![0; 32], vec![5; 32]).unwrap_err(), SignError::Internal);
    assert_eq!(finish_signature(&plan, vec![3; 32], vec![0; 32]).unwrap_err(), SignError::Internal);
    assert_eq!(finish_signature(&plan, vec![0xff; 32], vec![5; 32]).unwrap_err(), SignError::Internal);
    assert!(finish_signature(&plan, vec![3; 32], vec![5; 32]).is_ok());
}

#[test]
fn outgoing_envelopes() {
    assert_eq!(outgoing_envelope(1, Destination::AllParties), Envelope { sender: 1, receiver: None });
    assert_eq!(outgoing_envelope(1, Destination::OneParty(0)), Envelope { sender: 1, receiver: Some(0) });
    let e = outgoing_envelope(1, Destination::OneParty(0));
    assert!(should_receive(e.sender, e.receiver, 0));
    assert!(!should_receive(e.sender, e.receiver, 1));
}
