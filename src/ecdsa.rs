//! secp256k1 operations, through the k256 crate, and byte-level helpers.
use vstd::prelude::*;

use k256::elliptic_curve::ops::Reduce;
use k256::elliptic_curve::ff::PrimeField;
use k256::elliptic_curve::scalar::IsHigh;
use k256::elliptic_curve::sec1::ToEncodedPoint;

verus! {

/// The order of the secp256k1 group.
pub open spec fn secp256k1_order() -> nat {
    0xFFFFFFFFFFFFFFFFFFFFFFFFFFFFFFFEBAAEDCE6AF48A03BBFD25E8CD0364141nat
}

/// The number that a big-endian byte string denotes.
pub open spec fn be_value(b: Seq<u8>) -> nat
    decreases b.len(),
{
    if b.len() == 0 {
        0
    } else {
        256 * be_value(b.drop_last()) + b.last() as nat
    }
}

pub open spec fn opt_bytes(o: Option<Vec<u8>>) -> Option<Seq<u8>> {
    match o {
        Some(v) => Some(v@),
        None => None,
    }
}

/// The SEC1 uncompressed encoding of the public key that the signature `(r, s)`
/// with recovery id `v` recovers over `prehash`, where there is one.
pub uninterp spec fn recovered_key(prehash: Seq<u8>, r: Seq<u8>, s: Seq<u8>, v: u8) -> Option<Seq<u8>>;

/// The SEC1 uncompressed encoding of `k·G`, with `k` the big-endian scalar
/// `secret` reduced modulo the group order.
pub uninterp spec fn public_key_of(secret: Seq<u8>) -> Seq<u8>;

/// Relies on k256's `VerifyingKey::recover_from_prehash` (with `Signature::from_slice`
/// and `RecoveryId::from_byte` to build its arguments): the key that recovery
/// yields depends on its arguments alone.
#[verifier::external_body]
fn recover_verifying_key(prehash: &[u8], r: &[u8], s: &[u8], v: u8) -> (key: Option<Vec<u8>>)
    requires
        r@.len() == 32,
        s@.len() == 32,
    ensures
        opt_bytes(key) == recovered_key(prehash@, r@, s@, v),
        key is Some ==> 0 < be_value(r@) < secp256k1_order() && 0 < be_value(s@) < secp256k1_order(),
{
    let signature = k256::ecdsa::Signature::from_slice(&[r, s].concat()).ok()?;
    let recovery_id = k256::ecdsa::RecoveryId::from_byte(v)?;
    let key = k256::ecdsa::VerifyingKey::recover_from_prehash(prehash, &signature, recovery_id).ok()?;
    Some(key.to_encoded_point(false).as_bytes().to_vec())
}

/// Relies on k256's `Scalar::reduce_bytes` and `Scalar::is_zero`: whether the
/// big-endian number is a multiple of the group order.
#[verifier::external_body]
fn reduces_to_zero(secret: &[u8; 32]) -> (r: bool)
    ensures
        r == (be_value(secret@) % secp256k1_order() == 0),
{
    let scalar = <k256::Scalar as Reduce<k256::U256>>::reduce_bytes(&k256::FieldBytes::from(*secret));
    bool::from(scalar.is_zero())
}

/// Relies on k256's `ProjectivePoint::GENERATOR` multiplied by the reduced scalar,
/// encoded as an uncompressed SEC1 point: a function of `secret` alone.
#[verifier::external_body]
fn base_point_multiple(secret: &[u8; 32]) -> (key: Vec<u8>)
    ensures
        key@ == public_key_of(secret@),
{
    let scalar = <k256::Scalar as Reduce<k256::U256>>::reduce_bytes(&k256::FieldBytes::from(*secret));
    let point = k256::ProjectivePoint::GENERATOR * scalar;
    point.to_affine().to_encoded_point(false).as_bytes().to_vec()
}

/// The public key that the signature `(r, s)` with recovery id `v` recovers over
/// `prehash`, as an uncompressed SEC1 encoding; none where recovery fails.
pub fn recover_public_key(prehash: &[u8], r: &[u8], s: &[u8], v: u32) -> (key: Option<Vec<u8>>)
    requires
        r@.len() == 32,
        s@.len() == 32,
    ensures
        v <= 1 ==> opt_bytes(key) == recovered_key(prehash@, r@, s@, v as u8),
        v > 1 ==> key is None,
        key is Some ==> is_scalar_bytes(r@) && is_scalar_bytes(s@),
{
    if v > 1 {
        return None;
    }
    recover_verifying_key(prehash, r, s, v as u8)
}

/// Whether the secret scalar is zero once reduced modulo the group order.
pub fn is_zero_scalar(secret: &[u8; 32]) -> (r: bool)
    ensures
        r == (be_value(secret@) % secp256k1_order() == 0),
{
    reduces_to_zero(secret)
}

/// The public key `k·G` of the secret scalar `k`, as an uncompressed SEC1 encoding.
pub fn public_key_from_secret(secret: &[u8; 32]) -> (key: Vec<u8>)
    ensures
        key@ == public_key_of(secret@),
{
    base_point_multiple(secret)
}

/// 32 big-endian bytes of a non-zero number below the group order.
pub open spec fn is_scalar_bytes(b: Seq<u8>) -> bool {
    b.len() == 32 && 0 < be_value(b) < secp256k1_order()
}

proof fn lemma_be_value_zero(b: Seq<u8>)
    ensures
        be_value(b) == 0 <==> forall|i: int| 0 <= i < b.len() ==> b[i] == 0,
    decreases b.len(),
{
    if b.len() > 0 {
        lemma_be_value_zero(b.drop_last());
        if be_value(b) == 0 {
            assert forall|i: int| 0 <= i < b.len() implies b[i] == 0 by {
                if i < b.len() - 1 {
                    assert(b.drop_last()[i] == b[i]);
                }
            }
        }
        if forall|i: int| 0 <= i < b.len() ==> b[i] == 0 {
            assert forall|i: int| 0 <= i < b.drop_last().len() implies b.drop_last()[i] == 0 by {
                assert(b.drop_last()[i] == b[i]);
            }
            assert(b.last() == b[b.len() - 1]);
        }
    }
}

/// Whether every byte is zero, that is, whether the big-endian number is zero.
pub fn is_zero_bytes(b: &[u8]) -> (r: bool)
    ensures
        r == (be_value(b@) == 0),
{
    let mut i: usize = 0;
    while i < b.len()
        invariant
            i <= b@.len(),
            forall|j: int| 0 <= j < i ==> b@[j] == 0,
        decreases b@.len() - i,
    {
        if b[i] != 0 {
            proof {
                lemma_be_value_zero(b@);
            }
            return false;
        }
        i = i + 1;
    }
    proof {
        lemma_be_value_zero(b@);
    }
    true
}

/// Whether the bytes are a signature component: 32 big-endian bytes of a
/// non-zero number below the group order.
pub fn is_scalar(b: &[u8]) -> (r: bool)
    ensures
        r == is_scalar_bytes(b@),
{
    if b.len() != 32 || is_zero_bytes(b) {
        return false;
    }
    scalar_is_high(b).is_some()
}

/// Equal-length big-endian byte strings with one value are equal.
pub proof fn lemma_be_value_injective(a: Seq<u8>, b: Seq<u8>)
    requires
        a.len() == b.len(),
        be_value(a) == be_value(b),
    ensures
        a == b,
    decreases a.len(),
{
    if a.len() > 0 {
        let x = be_value(a.drop_last());
        let y = be_value(b.drop_last());
        assert(256 * x + a.last() as nat == 256 * y + b.last() as nat);
        assert(x == y);
        lemma_be_value_injective(a.drop_last(), b.drop_last());
        assert(a =~= a.drop_last().push(a.last()));
        assert(b =~= b.drop_last().push(b.last()));
    } else {
        assert(a =~= b);
    }
}

/// The low-S form of a scalar below the group order: `x` itself when it is at
/// most half the order, else `order - x`.
pub open spec fn low_s_value(x: nat) -> nat {
    if x > secp256k1_order() / 2 {
        (secp256k1_order() - x) as nat
    } else {
        x
    }
}

/// Relies on k256's `Scalar::from_repr` and `IsHigh::is_high`: a 32-byte
/// big-endian number below the group order is a scalar, which is high when it
/// is above half the order; a number at or above the order is no scalar.
#[verifier::external_body]
fn scalar_is_high(s: &[u8]) -> (r: Option<bool>)
    requires
        s@.len() == 32,
    ensures
        r == (if be_value(s@) < secp256k1_order() {
            Some(be_value(s@) > secp256k1_order() / 2)
        } else {
            None
        }),
{
    let scalar = Option::<k256::Scalar>::from(k256::Scalar::from_repr(k256::FieldBytes::clone_from_slice(s)))?;
    Some(bool::from(scalar.is_high()))
}

/// Relies on k256's scalar negation (`-Scalar`, then `Scalar::to_bytes`): for a
/// non-zero scalar `x`, the 32 big-endian bytes of `order - x`.
#[verifier::external_body]
fn negate_scalar(s: &[u8]) -> (r: Vec<u8>)
    requires
        s@.len() == 32,
        0 < be_value(s@) < secp256k1_order(),
    ensures
        r@.len() == 32,
        be_value(r@) == secp256k1_order() - be_value(s@),
{
    let scalar = Option::<k256::Scalar>::from(k256::Scalar::from_repr(k256::FieldBytes::clone_from_slice(s))).unwrap();
    (-scalar).to_bytes().to_vec()
}

/// The low-S form of the signature component `s`; none where `s` is not below
/// the group order.
pub fn normalize_s(s: Vec<u8>) -> (r: Option<Vec<u8>>)
    requires
        s@.len() == 32,
    ensures
        be_value(s@) < secp256k1_order() <==> r is Some,
        r matches Some(n) ==> n@.len() == 32 && be_value(n@) == low_s_value(be_value(s@)) && be_value(n@)
            <= secp256k1_order() / 2,
        be_value(s@) <= secp256k1_order() / 2 ==> r == Some(s),
{
    match scalar_is_high(s.as_slice()) {
        None => None,
        Some(true) => Some(negate_scalar(s.as_slice())),
        Some(false) => Some(s),
    }
}

/// Whether two byte strings are equal.
pub fn bytes_equal(a: &[u8], b: &[u8]) -> (r: bool)
    ensures
        r == (a@ == b@),
{
    if a.len() != b.len() {
        return false;
    }
    let mut i: usize = 0;
    while i < a.len()
        invariant
            a@.len() == b@.len(),
            i <= a@.len(),
            forall|j: int| 0 <= j < i ==> a@[j] == b@[j],
        decreases a@.len() - i,
    {
        if a[i] != b[i] {
            return false;
        }
        i = i + 1;
    }
    assert(a@ =~= b@);
    true
}

} // verus!
