//! The signing client: transaction ids, request preparation, fan-in of the
//! participants' answers, and the byte form of a signature.
use vstd::prelude::*;

use crate::participant::{SignError, SignMessage};

verus! {

/// The key share of one account, as the client is handed it.
#[derive(Debug, Clone)]
pub struct KeyShareData {
    pub account_id: String,
    /// The share, serialised as JSON.
    pub key_share_data: String,
}

/// The client's configuration.
#[derive(Debug, Clone)]
pub struct SignerConfig {
    pub local_participant_host: String,
    pub local_participant_port: u16,
    pub local_participant_index: u16,
    pub key_shares: Vec<KeyShareData>,
    pub sign_gateway_host: String,
    pub sign_gateway_port: u16,
    pub sse_host: String,
    pub sse_port: u16,
    pub threshold: u16,
    pub total_participants: u16,
    pub log_level: String,
}

/// An ECDSA signature: `r` and `s` big-endian, 32 bytes each, and the recovery id `v`.
#[derive(Debug, Clone)]
pub struct SignatureResult {
    pub r: Vec<u8>,
    pub s: Vec<u8>,
    pub v: u32,
}

/// A threshold that a `t`-of-`n` key can have.
pub open spec fn valid_threshold(threshold: u16, total: u16) -> bool {
    2 <= threshold <= total
}

/// How a threshold is refused.
#[derive(Debug, Clone, Copy, PartialEq, Eq)]
pub enum ThresholdError {
    /// Fewer than two signers.
    TooSmall,
    /// More signers than parties.
    ExceedsParties,
}

/// Checks a `t`-of-`n` threshold: `t < 2` and `t > n` are refused.
pub fn check_threshold(threshold: u16, total: u16) -> (r: Result<(), ThresholdError>)
    ensures
        r is Ok <==> valid_threshold(threshold, total),
        r == Err::<(), ThresholdError>(ThresholdError::TooSmall) <==> threshold < 2,
        r == Err::<(), ThresholdError>(ThresholdError::ExceedsParties) <==> 2 <= threshold
            && threshold > total,
{
    if threshold < 2 {
        Err(ThresholdError::TooSmall)
    } else if threshold > total {
        Err(ThresholdError::ExceedsParties)
    } else {
        Ok(())
    }
}

impl SignerConfig {
    /// Whether a key share of `account_id` is configured.
    pub open spec fn has_account(&self, account_id: Seq<char>) -> bool {
        exists|i: int| 0 <= i < self.key_shares@.len() && (#[trigger] self.key_shares@[i]).account_id@
            == account_id
    }

    /// Checks the configuration at startup: a valid threshold and at least one key share.
    pub fn validate(&self) -> (r: Result<(), SignerError>)
        ensures
            r is Ok <==> valid_threshold(self.threshold, self.total_participants)
                && self.key_shares@.len() > 0,
            r matches Err(e) ==> (e is InvalidThreshold <==> !valid_threshold(
                self.threshold,
                self.total_participants,
            )),
    {
        match check_threshold(self.threshold, self.total_participants) {
            Ok(()) => {},
            Err(e) => {
                return Err(SignerError::InvalidThreshold(e));
            },
        }
        if self.key_shares.len() == 0 {
            return Err(SignerError::NoKeyShares);
        }
        Ok(())
    }

    /// Whether a key share of `account_id` is configured.
    pub fn contains_account(&self, account_id: &String) -> (r: bool)
        ensures
            r == self.has_account(account_id@),
    {
        let mut i: usize = 0;
        while i < self.key_shares.len()
            invariant
                i <= self.key_shares@.len(),
                forall|j: int| 0 <= j < i ==> (#[trigger] self.key_shares@[j]).account_id@ != account_id@,
            decreases self.key_shares@.len() - i,
        {
            if self.key_shares[i].account_id == *account_id {
                return true;
            }
            i = i + 1;
        }
        false
    }
}

/// How a signing call fails.
#[derive(Debug, Clone, Copy, PartialEq, Eq)]
pub enum SignerError {
    /// The configured threshold is refused.
    InvalidThreshold(ThresholdError),
    /// No key share is configured.
    NoKeyShares,
    /// The request was refused or failed, with the kind of the first failure seen.
    Sign(SignError),
    /// No participant was asked.
    NoParticipants,
}

/// The transaction id of counter value `counter` of instance `instance_id`:
/// the instance in the high 16 bits, the counter in the low 16, read as an `i32`.
pub open spec fn tx_id_of(instance_id: u16, counter: u16) -> i32 {
    let bits = instance_id as int * 65536 + counter as int;
    if bits < 0x8000_0000 {
        bits as i32
    } else {
        (bits - 0x1_0000_0000) as i32
    }
}

/// The 32 bits of an `i32`, read as an unsigned number.
pub open spec fn unsigned_bits(x: i32) -> nat {
    if x < 0 {
        (x + 0x1_0000_0000) as nat
    } else {
        x as nat
    }
}

/// The instance id drawn from a clock reading in milliseconds and a random byte:
/// bits 8 to 15 of the clock above the random byte.
pub open spec fn instance_id_from(timestamp_ms: u64, random: u8) -> u16 {
    (((timestamp_ms / 256) % 256) * 256 + random) as u16
}

/// Relies on `std::time::SystemTime::now`: the wall clock in milliseconds since
/// the Unix epoch (0 before it). Nothing is promised of its value.
#[verifier::external_body]
fn now_millis() -> (ms: u64) {
    std::time::SystemTime::now()
        .duration_since(std::time::UNIX_EPOCH)
        .map(|d| d.as_millis() as u64)
        .unwrap_or(0)
}

/// Relies on `rand::random`: a random byte. Nothing is promised of its value.
#[verifier::external_body]
fn random_byte() -> (b: u8) {
    rand::random::<u8>()
}

/// Relies on `uuid::Uuid::new_v4`: a fresh random UUID, whose bytes are 16.
#[verifier::external_body]
fn new_execution_id() -> (id: Vec<u8>)
    ensures
        id@.len() == 16,
{
    uuid::Uuid::new_v4().as_bytes().to_vec()
}

/// The instance id of a clock reading and a random byte.
pub fn instance_id_of(timestamp_ms: u64, random: u8) -> (id: u16)
    ensures
        id == instance_id_from(timestamp_ms, random),
{
    (((timestamp_ms / 256) % 256) * 256 + random as u64) as u16
}

/// An instance id from the clock and a random byte, so that fresh processes
/// pick different high halves with high probability.
pub fn generate_instance_id() -> (id: u16) {
    instance_id_of(now_millis(), random_byte())
}

/// The client's own state: its configuration and the transaction ids it issues.
pub struct Signer {
    config: SignerConfig,
    instance_id: u16,
    tx_counter: u16,
}

impl Signer {
    pub closed spec fn config(&self) -> SignerConfig {
        self.config
    }

    /// The high half of every transaction id this client issues.
    pub closed spec fn instance(&self) -> u16 {
        self.instance_id
    }

    /// The counter value of the next transaction id.
    pub closed spec fn counter(&self) -> u16 {
        self.tx_counter
    }

    /// A client with the given instance id, whose counter starts at 0; a
    /// configuration that `validate` refuses is refused with its error.
    pub fn with_instance_id(config: SignerConfig, instance_id: u16) -> (r: Result<Signer, SignerError>)
        ensures
            r is Ok <==> valid_threshold(config.threshold, config.total_participants)
                && config.key_shares@.len() > 0,
            r matches Err(e) ==> (e is InvalidThreshold <==> !valid_threshold(
                config.threshold,
                config.total_participants,
            )),
            r matches Ok(s) ==> s.config() == config && s.instance() == instance_id && s.counter() == 0,
    {
        match config.validate() {
            Ok(()) => Ok(Signer { config, instance_id, tx_counter: 0 }),
            Err(e) => Err(e),
        }
    }

    /// A client with a fresh instance id; a configuration that `validate`
    /// refuses is refused with its error.
    pub fn new(config: SignerConfig) -> (r: Result<Signer, SignerError>)
        ensures
            r is Ok <==> valid_threshold(config.threshold, config.total_participants)
                && config.key_shares@.len() > 0,
            r matches Err(e) ==> (e is InvalidThreshold <==> !valid_threshold(
                config.threshold,
                config.total_participants,
            )),
            r matches Ok(s) ==> s.config() == config && s.counter() == 0,
    {
        Signer::with_instance_id(config, generate_instance_id())
    }

    pub fn instance_id(&self) -> (id: u16)
        ensures
            id == self.instance(),
    {
        self.instance_id
    }

    /// The next transaction id: the counter goes up by one, wrapping after 65,535.
    pub fn next_tx_id(&mut self) -> (tx_id: i32)
        ensures
            tx_id == tx_id_of(old(self).instance(), old(self).counter()),
            final(self).instance() == old(self).instance(),
            final(self).counter() == (old(self).counter() + 1) % 65536,
            final(self).config() == old(self).config(),
    {
        let counter = self.tx_counter;
        self.tx_counter = if counter == u16::MAX { 0 } else { counter + 1 };
        let bits: u32 = self.instance_id as u32 * 65536 + counter as u32;
        if bits < 0x8000_0000 {
            bits as i32
        } else {
            (bits as i64 - 0x1_0000_0000) as i32
        }
    }

    /// How many of the connected participants a request goes to: the first
    /// `threshold` of them, or all where fewer are connected.
    pub fn fan_out_count(&self, connected: usize) -> (n: usize)
        ensures
            n == if connected < self.config().threshold { connected } else { self.config().threshold as usize },
    {
        if connected < self.config.threshold as usize {
            connected
        } else {
            self.config.threshold as usize
        }
    }

    /// Checks a signing call and builds its request: an empty account id or a
    /// digest that is not 32 bytes is refused, as is an account with no
    /// configured key share. Each accepted call takes the next transaction id
    /// and a fresh execution id.
    pub fn prepare_sign(&mut self, data: Vec<u8>, account_id: String) -> (r: Result<SignMessage, SignerError>)
        ensures
            final(self).instance() == old(self).instance(),
            final(self).config() == old(self).config(),
            account_id@.len() == 0 || data@.len() != 32 ==> r == Err::<SignMessage, SignerError>(
                SignerError::Sign(SignError::InvalidArgument),
            ),
            account_id@.len() > 0 && data@.len() == 32 && !old(self).config().has_account(account_id@)
                ==> r == Err::<SignMessage, SignerError>(SignerError::Sign(SignError::NotFound)),
            r is Err ==> final(self).counter() == old(self).counter(),
            account_id@.len() > 0 && data@.len() == 32 && old(self).config().has_account(account_id@)
                ==> (r matches Ok(m) && {
                &&& m.tx_id == tx_id_of(old(self).instance(), old(self).counter())
                &&& m.execution_id@.len() == 16
                &&& m.chain == 0
                &&& m.data@ == data@
                &&& m.account_id@ == account_id@
                &&& final(self).counter() == (old(self).counter() + 1) % 65536
            }),
    {
        if account_id.unicode_len() == 0 || data.len() != 32 {
            return Err(SignerError::Sign(SignError::InvalidArgument));
        }
        if !self.config.contains_account(&account_id) {
            return Err(SignerError::Sign(SignError::NotFound));
        }
        let tx_id = self.next_tx_id();
        Ok(SignMessage { tx_id, execution_id: new_execution_id(), chain: 0, data, account_id })
    }
}

/// The outcome of asking the signers, from their answers in order: the first
/// signature; where every answer failed, the first failure; where nobody was
/// asked, `NoParticipants`.
pub fn collect_signature(results: Vec<Result<SignatureResult, SignError>>) -> (r: Result<
    SignatureResult,
    SignerError,
>)
    ensures
        results@.len() == 0 ==> r == Err::<SignatureResult, SignerError>(SignerError::NoParticipants),
        (exists|i: int| 0 <= i < results@.len() && results@[i] is Ok) ==> exists|i: int|
            #![trigger results@[i]]
            0 <= i < results@.len() && (forall|j: int| 0 <= j < i ==> results@[j] is Err) && (
            results@[i] matches Ok(sig) && r matches Ok(out) && out.r@ == sig.r@ && out.s@
                == sig.s@ && out.v == sig.v),
        results@.len() > 0 && (forall|i: int| 0 <= i < results@.len() ==> results@[i] is Err) ==> (
        results@[0] matches Err(e) && r == Err::<SignatureResult, SignerError>(SignerError::Sign(e))),
{
    let n = results.len();
    if n == 0 {
        return Err(SignerError::NoParticipants);
    }
    let mut i: usize = 0;
    while i < n
        invariant
            n == results@.len(),
            i <= n,
            forall|j: int| 0 <= j < i ==> results@[j] is Err,
        decreases n - i,
    {
        match &results[i] {
            Ok(sig) => {
                return Ok(SignatureResult { r: sig.r.clone(), s: sig.s.clone(), v: sig.v });
            },
            Err(_) => {},
        }
        i = i + 1;
    }
    match &results[0] {
        Ok(_) => Err(SignerError::Sign(SignError::Internal)),
        Err(e) => Err(SignerError::Sign(*e)),
    }
}

/// What the 65-byte form `r ‖ s ‖ v` holds: `r`, `s` and a recovery id of 0 or 1.
pub open spec fn signature_decoding(b: Seq<u8>) -> Option<(Seq<u8>, Seq<u8>, u32)> {
    if b.len() == 65 && b[64] <= 1 {
        Some((b.subrange(0, 32), b.subrange(32, 64), b[64] as u32))
    } else {
        None
    }
}

impl SignatureResult {
    /// A signature of the form the participants produce.
    pub open spec fn wf(&self) -> bool {
        self.r@.len() == 32 && self.s@.len() == 32 && self.v <= 1
    }

    /// The 65-byte form `r ‖ s ‖ v`.
    pub open spec fn encoding(&self) -> Seq<u8> {
        self.r@ + self.s@ + seq![self.v as u8]
    }

    /// The 65-byte form `r ‖ s ‖ v`.
    pub fn to_bytes(&self) -> (b: Vec<u8>)
        requires
            self.wf(),
        ensures
            b@ == self.encoding(),
    {
        let mut out: Vec<u8> = Vec::new();
        let mut i: usize = 0;
        while i < 32
            invariant
                self.wf(),
                i <= 32,
                out@ == self.r@.take(i as int),
            decreases 32 - i,
        {
            out.push(self.r[i]);
            i = i + 1;
            assert(out@ =~= self.r@.take(i as int));
        }
        assert(self.r@.take(32) =~= self.r@);
        let mut j: usize = 0;
        while j < 32
            invariant
                self.wf(),
                j <= 32,
                out@ == self.r@ + self.s@.take(j as int),
            decreases 32 - j,
        {
            out.push(self.s[j]);
            j = j + 1;
            assert(out@ =~= self.r@ + self.s@.take(j as int));
        }
        assert(self.s@.take(32) =~= self.s@);
        out.push(self.v as u8);
        out
    }

    /// Reads the 65-byte form back; anything but 65 bytes ending in 0 or 1 is refused.
    pub fn from_bytes(bytes: &[u8]) -> (r: Option<SignatureResult>)
        ensures
            match signature_decoding(bytes@) {
                Some((rb, sb, v)) => (r matches Some(sig) && sig.wf() && sig.r@ == rb && sig.s@ == sb
                    && sig.v == v),
                None => r is None,
            },
    {
        if bytes.len() != 65 || bytes[64] > 1 {
            return None;
        }
        let mut r: Vec<u8> = Vec::new();
        let mut s: Vec<u8> = Vec::new();
        let mut i: usize = 0;
        while i < 32
            invariant
                bytes@.len() == 65,
                i <= 32,
                r@ == bytes@.subrange(0, i as int),
                s@ == bytes@.subrange(32, 32 + i),
            decreases 32 - i,
        {
            r.push(bytes[i]);
            s.push(bytes[32 + i]);
            i = i + 1;
            assert(r@ =~= bytes@.subrange(0, i as int));
            assert(s@ =~= bytes@.subrange(32, 32 + i));
        }
        Some(SignatureResult { r, s, v: bytes[64] as u32 })
    }
}

/// Reading back the byte form of a signature gives the signature again, and a
/// byte form that reads back is the form of what it reads as.
pub proof fn lemma_signature_round_trip(sig: SignatureResult, bytes: Seq<u8>)
    requires
        sig.wf(),
    ensures
        signature_decoding(sig.encoding()) == Some((sig.r@, sig.s@, sig.v)),
        signature_decoding(bytes) matches Some((r, s, v)) ==> r + s + seq![v as u8] == bytes,
{
    assert(sig.encoding().subrange(0, 32) =~= sig.r@);
    assert(sig.encoding().subrange(32, 64) =~= sig.s@);
    if let Some((r, s, v)) = signature_decoding(bytes) {
        assert(r + s + seq![v as u8] =~= bytes);
    }
}

/// Transaction ids of one instance do not repeat within 65,536 allocations:
/// the `i`-th and `j`-th ids after counter value `start` differ, and every id
/// carries the instance in its high 16 bits.
pub proof fn lemma_tx_ids_distinct(instance_id: u16, start: u16, i: nat, j: nat)
    requires
        i < j < 65536,
    ensures
        tx_id_of(instance_id, ((start + i) % 65536) as u16) != tx_id_of(
            instance_id,
            ((start + j) % 65536) as u16,
        ),
        unsigned_bits(tx_id_of(instance_id, ((start + i) % 65536) as u16)) / 65536 == instance_id,
{
    let a = ((start + i) % 65536) as u16;
    let b = ((start + j) % 65536) as u16;
    assert(a != b);
    assert(unsigned_bits(tx_id_of(instance_id, a)) == instance_id as int * 65536 + a as int);
    assert(unsigned_bits(tx_id_of(instance_id, b)) == instance_id as int * 65536 + b as int);
}

} // verus!
