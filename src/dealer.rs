//! The share dealer's decisions: its configuration, the child key, the check of
//! the generated public key, and where each party's bundle goes.
use vstd::prelude::*;

use crate::bundle::KeyBundle;
use crate::ecdsa::{be_value, bytes_equal, is_zero_scalar, public_key_from_secret, public_key_of, secp256k1_order};
use crate::text::{decimal, decimal_string};

verus! {

/// Relies on `hex::decode`: the bytes that a string of hex digit pairs (either
/// case) denotes; odd lengths and other characters are refused.
#[verifier::external_body]
fn decode_hex(s: &str) -> (r: Option<Vec<u8>>)
    ensures
        crate::ecdsa::opt_bytes(r) == hex_decoding(s@),
{
    hex::decode(s).ok()
}

pub open spec fn is_hex_digit(c: char) -> bool {
    ('0' <= c && c <= '9') || ('a' <= c && c <= 'f') || ('A' <= c && c <= 'F')
}

pub open spec fn hex_value(c: char) -> nat {
    if '0' <= c && c <= '9' {
        (c as u32 - '0' as u32) as nat
    } else if 'a' <= c && c <= 'f' {
        (c as u32 - 'a' as u32 + 10) as nat
    } else {
        (c as u32 - 'A' as u32 + 10) as nat
    }
}

/// The bytes that a hex string denotes: each pair of digits, high digit first,
/// is one byte.
pub open spec fn hex_decoding(s: Seq<char>) -> Option<Seq<u8>> {
    if s.len() % 2 == 0 && forall|i: int| 0 <= i < s.len() ==> is_hex_digit(#[trigger] s[i]) {
        Some(Seq::new((s.len() / 2) as nat, |i: int| (16 * hex_value(s[2 * i]) + hex_value(s[2 * i + 1])) as u8))
    } else {
        None
    }
}

/// How the dealer fails.
#[derive(Debug, Clone, PartialEq, Eq)]
pub enum DealerError {
    /// Fewer than 2 or more than 255 parties.
    InvalidPartyCount,
    /// A threshold below 2 or above the number of parties.
    InvalidThreshold,
    /// Recipients are given, but not one per party.
    RecipientCountMismatch,
    /// The child key is not 64 hex digits (32 bytes).
    ChildKeyMalformed,
    /// The child key is zero modulo the group order.
    ChildKeyZero,
    /// The generated shares are not of the expected public key.
    PublicKeyMismatch,
    /// The party's bundle exists encrypted; appending to it is refused.
    AppendToEncryptedRefused,
    /// A file could not be read or written.
    FileIO(String),
    /// A recipient key is not a valid age key.
    AgeKeyInvalid(String),
}

/// Reads a child key given as 64 hex digits.
pub fn parse_child_key_hex(hex_str: &str) -> (r: Result<[u8; 32], DealerError>)
    ensures
        match hex_decoding(hex_str@) {
            Some(b) => if b.len() == 32 {
                r matches Ok(k) && k@ == b
            } else {
                r == Err::<[u8; 32], DealerError>(DealerError::ChildKeyMalformed)
            },
            None => r == Err::<[u8; 32], DealerError>(DealerError::ChildKeyMalformed),
        },
{
    let bytes = match decode_hex(hex_str) {
        Some(b) => b,
        None => {
            return Err(DealerError::ChildKeyMalformed);
        },
    };
    if bytes.len() != 32 {
        return Err(DealerError::ChildKeyMalformed);
    }
    let mut key = [0u8; 32];
    let mut i: usize = 0;
    while i < 32
        invariant
            bytes@.len() == 32,
            i <= 32,
            forall|j: int| 0 <= j < i ==> key@[j] == bytes@[j],
        decreases 32 - i,
    {
        key.set(i, bytes[i]);
        i = i + 1;
    }
    assert(key@ =~= bytes@);
    Ok(key)
}

/// The dealer's inputs.
#[derive(Debug, Clone)]
pub struct KeyGenConfig {
    pub n_parties: u16,
    pub threshold: u16,
    pub account_id: String,
    /// The pre-derived secret scalar, big-endian.
    pub child_key: [u8; 32],
    pub output_prefix: String,
    /// One age recipient per party, where the bundles are to be encrypted.
    pub pubkeys: Option<Vec<String>>,
}

/// Why a configuration is refused, if it is.
pub open spec fn config_error(config: KeyGenConfig) -> Option<DealerError> {
    if config.n_parties < 2 || config.n_parties > 255 {
        Some(DealerError::InvalidPartyCount)
    } else if config.threshold < 2 || config.threshold > config.n_parties {
        Some(DealerError::InvalidThreshold)
    } else if config.pubkeys matches Some(keys) && keys@.len() != config.n_parties {
        Some(DealerError::RecipientCountMismatch)
    } else if be_value(config.child_key@) % secp256k1_order() == 0 {
        Some(DealerError::ChildKeyZero)
    } else {
        None
    }
}

/// Where a party's bundle is read from before the new account is added.
#[derive(Debug, Clone, PartialEq, Eq)]
pub enum BundleSource {
    /// A plain bundle exists under this name: load it and add to it.
    Existing(String),
    /// No bundle exists: start from an empty one.
    Fresh,
}

/// `{prefix}_{party + 1}.json`
pub open spec fn plain_file_name(prefix: Seq<char>, party: nat) -> Seq<char> {
    prefix + "_"@ + decimal(party + 1) + ".json"@
}

/// The dealer of one account's shares.
pub struct KeyShareDealer {
    config: KeyGenConfig,
    expected_public_key: Vec<u8>,
}

impl KeyShareDealer {
    pub closed spec fn config(&self) -> KeyGenConfig {
        self.config
    }

    /// What every dealer keeps: a valid number of parties and threshold, and
    /// one recipient per party where the bundles are encrypted.
    pub open spec fn wf(&self) -> bool {
        config_error(self.config()) is None
    }

    /// `k·G` for the child key `k`.
    pub closed spec fn expected_key(&self) -> Seq<u8> {
        self.expected_public_key@
    }

    /// Checks the number of parties, the threshold and the number of recipients.
    pub fn validate_config(config: &KeyGenConfig) -> (r: Result<(), DealerError>)
        ensures
            r is Ok <==> 2 <= config.n_parties <= 255 && 2 <= config.threshold <= config.n_parties
                && (config.pubkeys matches Some(keys) ==> keys@.len() == config.n_parties),
            r matches Err(e) ==> Some(e) == config_error(*config),
    {
        if config.n_parties < 2 || config.n_parties > 255 {
            return Err(DealerError::InvalidPartyCount);
        }
        if config.threshold < 2 || config.threshold > config.n_parties {
            return Err(DealerError::InvalidThreshold);
        }
        if let Some(keys) = &config.pubkeys {
            if keys.len() != config.n_parties as usize {
                return Err(DealerError::RecipientCountMismatch);
            }
        }
        Ok(())
    }

    /// A dealer for `config`, with the public key `k·G` it must produce.
    pub fn new(config: KeyGenConfig) -> (r: Result<KeyShareDealer, DealerError>)
        ensures
            match config_error(config) {
                Some(e) => r == Err::<KeyShareDealer, DealerError>(e),
                None => (r matches Ok(d) && d.wf() && d.config() == config && d.expected_key()
                    == public_key_of(config.child_key@)),
            },
    {
        match KeyShareDealer::validate_config(&config) {
            Ok(()) => {},
            Err(e) => {
                return Err(e);
            },
        }
        if is_zero_scalar(&config.child_key) {
            return Err(DealerError::ChildKeyZero);
        }
        let expected_public_key = public_key_from_secret(&config.child_key);
        Ok(KeyShareDealer { config, expected_public_key })
    }

    /// The public key that every share must carry.
    pub fn expected_public_key(&self) -> (k: &Vec<u8>)
        ensures
            k@ == self.expected_key(),
    {
        &self.expected_public_key
    }

    /// Checks the generated shares' public key against `k·G`.
    pub fn verify_public_key(&self, shared_public_key: &[u8]) -> (r: Result<(), DealerError>)
        ensures
            r is Ok <==> shared_public_key@ == self.expected_key(),
            r is Err ==> r == Err::<(), DealerError>(DealerError::PublicKeyMismatch),
    {
        if bytes_equal(shared_public_key, self.expected_public_key.as_slice()) {
            Ok(())
        } else {
            Err(DealerError::PublicKeyMismatch)
        }
    }

    /// Checks the public key of every generated share against `k·G`.
    pub fn verify_share_public_keys(&self, shared_public_keys: &Vec<Vec<u8>>) -> (r: Result<(), DealerError>)
        ensures
            r is Ok <==> forall|i: int| 0 <= i < shared_public_keys@.len() ==> (
            #[trigger] shared_public_keys@[i])@ == self.expected_key(),
            r is Err ==> r == Err::<(), DealerError>(DealerError::PublicKeyMismatch),
    {
        let mut i: usize = 0;
        while i < shared_public_keys.len()
            invariant
                i <= shared_public_keys@.len(),
                forall|j: int| 0 <= j < i ==> (#[trigger] shared_public_keys@[j])@ == self.expected_key(),
            decreases shared_public_keys@.len() - i,
        {
            if self.verify_public_key(shared_public_keys[i].as_slice()).is_err() {
                return Err(DealerError::PublicKeyMismatch);
            }
            i = i + 1;
        }
        Ok(())
    }

    /// Whether the bundles are written encrypted.
    pub fn is_encrypted(&self) -> (r: bool)
        ensures
            r == self.config().pubkeys is Some,
    {
        self.config.pubkeys.is_some()
    }

    pub fn n_parties(&self) -> (n: u16)
        ensures
            n == self.config().n_parties,
    {
        self.config.n_parties
    }

    pub fn output_prefix(&self) -> (p: &str)
        ensures
            p@ == self.config().output_prefix@,
    {
        self.config.output_prefix.as_str()
    }

    pub fn account_id(&self) -> (a: &str)
        ensures
            a@ == self.config().account_id@,
    {
        self.config.account_id.as_str()
    }

    /// The plain bundle file of party `party` (counted from 0): `{prefix}_{party + 1}.json`.
    pub fn plain_file_name(&self, party: u16) -> (r: String)
        ensures
            r@ == plain_file_name(self.config().output_prefix@, party as nat),
    {
        let number = decimal_string(party as u64 + 1);
        self.config.output_prefix.clone().concat("_").concat(number.as_str()).concat(".json")
    }

    /// The encrypted bundle file of party `party`: the plain name with `.age` added.
    pub fn encrypted_file_name(&self, party: u16) -> (r: String)
        ensures
            r@ == plain_file_name(self.config().output_prefix@, party as nat) + ".age"@,
    {
        self.plain_file_name(party).concat(".age")
    }

    /// The file that party `party`'s bundle is written to.
    pub fn output_file_name(&self, party: u16) -> (r: String)
        ensures
            r@ == if self.config().pubkeys is Some {
                plain_file_name(self.config().output_prefix@, party as nat) + ".age"@
            } else {
                plain_file_name(self.config().output_prefix@, party as nat)
            },
    {
        if self.is_encrypted() {
            self.encrypted_file_name(party)
        } else {
            self.plain_file_name(party)
        }
    }

    /// Where party `party`'s bundle comes from, given which of its files exist:
    /// an encrypted bundle cannot be appended to; a plain one is loaded; with
    /// neither, the bundle starts empty.
    pub fn bundle_source(&self, party: u16, encrypted_exists: bool, plain_exists: bool) -> (r: Result<
        BundleSource,
        DealerError,
    >)
        ensures
            encrypted_exists ==> r == Err::<BundleSource, DealerError>(
                DealerError::AppendToEncryptedRefused,
            ),
            !encrypted_exists && plain_exists ==> (r matches Ok(BundleSource::Existing(name))
                && name@ == plain_file_name(self.config().output_prefix@, party as nat)),
            !encrypted_exists && !plain_exists ==> r == Ok::<BundleSource, DealerError>(
                BundleSource::Fresh,
            ),
    {
        if encrypted_exists {
            Err(DealerError::AppendToEncryptedRefused)
        } else if plain_exists {
            Ok(BundleSource::Existing(self.plain_file_name(party)))
        } else {
            Ok(BundleSource::Fresh)
        }
    }

    /// The age recipient of party `party`, where the bundles are encrypted; every
    /// party has one then.
    pub fn recipient(&self, party: u16) -> (r: Option<&String>)
        ensures
            self.wf() && self.config().pubkeys is Some && party < self.config().n_parties ==> r is Some,
            match self.config().pubkeys {
                Some(keys) => if party < keys@.len() {
                    r == Some(&keys@[party as int])
                } else {
                    r is None
                },
                None => r is None,
            },
    {
        match &self.config.pubkeys {
            Some(keys) => if (party as usize) < keys.len() {
                Some(&keys[party as usize])
            } else {
                None
            },
            None => None,
        }
    }

    /// Adds this dealer's account, with `share`, to a party's bundle; an account
    /// already there is overwritten.
    pub fn add_to_bundle<S>(&self, bundle: &mut KeyBundle<S>, share: S)
        requires
            old(bundle).wf(),
        ensures
            final(bundle).wf(),
            final(bundle).view() == old(bundle).view().insert(self.config().account_id@, share),
    {
        bundle.insert(self.config.account_id.clone(), share);
    }
}

} // verus!
