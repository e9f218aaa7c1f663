//! The participant node: its configuration, the checks on a signing request,
//! the routing of room envelopes, and the recovery byte of a finished signature.
use vstd::prelude::*;

use crate::bundle::KeyBundle;
use crate::ecdsa::{be_value, is_scalar, is_scalar_bytes, lemma_be_value_injective, low_s_value, normalize_s, opt_bytes, recover_public_key, recovered_key, secp256k1_order};
use crate::text::{
    decimal, decimal_string, parse_u16, parsed_u16, signed_decimal, signed_decimal_string, trim_end,
    trim_end_char,
};

verus! {

#[derive(Debug, Clone, PartialEq, Eq)]
pub enum ConfigError {
    MissingEnvVar(String),
    InvalidEnvVar(String),
}

/// Where the room bus listens.
#[derive(Debug, Clone)]
pub struct SSEConfig {
    pub host: String,
    pub port: u16,
}

/// Where this participant listens, and its party index.
#[derive(Debug, Clone)]
pub struct ParticipantConfig {
    pub host: String,
    pub port: u16,
    pub index: u16,
}

#[derive(Debug, Clone)]
pub struct AppConfig {
    pub sse: SSEConfig,
    pub participant: ParticipantConfig,
}

/// The value of an optional port setting: its default where unset, `None` where
/// it is set but is not a `u16`.
pub open spec fn port_setting(value: Option<String>, default: u16) -> Option<u16> {
    match value {
        Some(v) => parsed_u16(v@),
        None => Some(default),
    }
}

fn read_port(value: Option<String>, default: u16) -> (r: Option<u16>)
    ensures
        r == port_setting(value, default),
{
    match value {
        Some(v) => parse_u16(v.as_str()),
        None => Some(default),
    }
}

impl AppConfig {
    /// The configuration from the values of `SSE_HOST`, `SSE_PORT`,
    /// `PARTICIPANT_HOST`, `PARTICIPANT_PORT` and `PARTICIPANT_INDEX`, where set.
    /// Hosts default to `localhost` and `::1`, ports to 8080 and 50051; the index
    /// is required. A value that is not a `u16` is an error.
    pub fn from_env_values(
        sse_host: Option<String>,
        sse_port: Option<String>,
        participant_host: Option<String>,
        participant_port: Option<String>,
        participant_index: Option<String>,
    ) -> (r: Result<AppConfig, ConfigError>)
        ensures
            r is Ok <==> {
                &&& port_setting(sse_port, 8080) is Some
                &&& port_setting(participant_port, 50051) is Some
                &&& participant_index matches Some(i) && parsed_u16(i@) is Some
            },
            r matches Err(e) ==> (e is MissingEnvVar <==> {
                &&& port_setting(sse_port, 8080) is Some
                &&& port_setting(participant_port, 50051) is Some
                &&& participant_index is None
            }),
            r matches Ok(c) ==> {
                &&& c.sse.host@ == match sse_host {
                    Some(h) => h@,
                    None => "localhost"@,
                }
                &&& c.participant.host@ == match participant_host {
                    Some(h) => h@,
                    None => "::1"@,
                }
                &&& Some(c.sse.port) == port_setting(sse_port, 8080)
                &&& Some(c.participant.port) == port_setting(participant_port, 50051)
                &&& Some(c.participant.index) == parsed_u16(participant_index->Some_0@)
            },
    {
        let sse_host = match sse_host {
            Some(h) => h,
            None => String::from_str("localhost"),
        };
        let sse_port = match read_port(sse_port, 8080) {
            Some(p) => p,
            None => {
                return Err(
                    ConfigError::InvalidEnvVar(String::from_str("Expected SSE_PORT to be a number")),
                );
            },
        };
        let participant_host = match participant_host {
            Some(h) => h,
            None => String::from_str("::1"),
        };
        let participant_port = match read_port(participant_port, 50051) {
            Some(p) => p,
            None => {
                return Err(
                    ConfigError::InvalidEnvVar(
                        String::from_str("Expected PARTICIPANT_PORT to be a number"),
                    ),
                );
            },
        };
        let index = match participant_index {
            Some(i) => match parse_u16(i.as_str()) {
                Some(v) => v,
                None => {
                    return Err(
                        ConfigError::InvalidEnvVar(
                            String::from_str("Expected PARTICIPANT_INDEX to be a number"),
                        ),
                    );
                },
            },
            None => {
                return Err(
                    ConfigError::MissingEnvVar(String::from_str("PARTICIPANT_INDEX is required")),
                );
            },
        };
        Ok(
            AppConfig {
                sse: SSEConfig { host: sse_host, port: sse_port },
                participant: ParticipantConfig {
                    host: participant_host,
                    port: participant_port,
                    index,
                },
            },
        )
    }

    /// `http://{sse.host}:{sse.port}`
    pub fn sse_url(&self) -> (r: String)
        ensures
            r@ == "http://"@ + self.sse.host@ + ":"@ + decimal(self.sse.port as nat),
    {
        let port = decimal_string(self.sse.port as u64);
        String::from_str("http://").concat(self.sse.host.as_str()).concat(":").concat(port.as_str())
    }

    /// `{participant.host}:{participant.port}`
    pub fn participant_addr(&self) -> (r: String)
        ensures
            r@ == self.participant.host@ + ":"@ + decimal(self.participant.port as nat),
    {
        let port = decimal_string(self.participant.port as u64);
        self.participant.host.clone().concat(":").concat(port.as_str())
    }
}

/// Whether party `me` keeps an envelope from `sender` addressed to `receiver`
/// (`None` for every party): it drops its own echoes and what is meant for others.
pub open spec fn addressed_to(sender: u16, receiver: Option<u16>, me: u16) -> bool {
    sender != me && (receiver is None || receiver == Some(me))
}

pub fn should_receive(sender: u16, receiver: Option<u16>, me: u16) -> (r: bool)
    ensures
        r == addressed_to(sender, receiver, me),
{
    sender != me && match receiver {
        None => true,
        Some(x) => x == me,
    }
}

/// Where an outgoing protocol message is addressed.
#[derive(Debug, Clone, Copy, PartialEq, Eq)]
pub enum Destination {
    AllParties,
    OneParty(u16),
}

/// The routing part of a message put into a room: who sends it, and to whom
/// (`None` for every party).
#[derive(Debug, Clone, Copy, PartialEq, Eq)]
pub struct Envelope {
    pub sender: u16,
    pub receiver: Option<u16>,
}

/// The envelope of a message that party `index` sends to `destination`.
pub fn outgoing_envelope(index: u16, destination: Destination) -> (e: Envelope)
    ensures
        e.sender == index,
        e.receiver == match destination {
            Destination::AllParties => None,
            Destination::OneParty(p) => Some(p),
        },
{
    let receiver = match destination {
        Destination::AllParties => None,
        Destination::OneParty(p) => Some(p),
    };
    Envelope { sender: index, receiver }
}

/// A message that party `a` sends reaches exactly the parties it is meant for:
/// never `a` itself; a broadcast reaches every other party, a message to `b`
/// reaches `b` alone.
pub proof fn lemma_envelope_routing(a: u16, destination: Destination, me: u16)
    ensures
        ({
            let receiver = match destination {
                Destination::AllParties => None,
                Destination::OneParty(p) => Some(p),
            };
            addressed_to(a, receiver, me) <==> me != a && match destination {
                Destination::AllParties => true,
                Destination::OneParty(p) => p == me,
            }
        }),
{
}

/// How a protocol message travels in a room.
#[derive(Debug, Clone, Copy, PartialEq, Eq)]
pub enum MessageKind {
    Broadcast,
    P2P,
}

/// A message with no receiver is a broadcast; one with a receiver goes to that party alone.
pub fn message_kind(receiver: Option<u16>) -> (k: MessageKind)
    ensures
        k == (if receiver is None { MessageKind::Broadcast } else { MessageKind::P2P }),
{
    match receiver {
        None => MessageKind::Broadcast,
        Some(_) => MessageKind::P2P,
    }
}

/// Where a participant reaches one room of the bus.
pub struct RoomAddress {
    base_url: String,
    room: String,
}

impl RoomAddress {
    /// The bus's base URL.
    pub closed spec fn base(&self) -> Seq<char> {
        self.base_url@
    }

    /// The room's path on the bus.
    pub closed spec fn path(&self) -> Seq<char> {
        self.room@
    }

    /// Room `room` of the bus at `base_url`: its path is `rooms/{room}`.
    pub fn new(base_url: String, room: &str) -> (a: RoomAddress)
        ensures
            a.base() == base_url@,
            a.path() == "rooms/"@ + room@,
    {
        RoomAddress { base_url, room: String::from_str("rooms/").concat(room) }
    }

    /// The URL of one of the room's endpoints: the base URL without trailing
    /// slashes, the room's path and the endpoint, joined by `/`.
    pub fn endpoint(&self, endpoint: &str) -> (r: String)
        ensures
            r@ == trim_end(self.base(), '/') + "/"@ + self.path() + "/"@ + endpoint@,
    {
        trim_end_char(self.base_url.as_str(), '/').concat("/").concat(self.room.as_str()).concat("/").concat(
            endpoint,
        )
    }
}

/// The account id under which a share read from a numbered file is served:
/// `account_{index}`.
pub fn default_account_id(index: u16) -> (r: String)
    ensures
        r@ == "account_"@ + decimal(index as nat),
{
    let number = decimal_string(index as u64);
    String::from_str("account_").concat(number.as_str())
}

/// The room of the signing session of transaction `tx_id`: `signing_{tx_id}`.
pub fn signing_room_id(tx_id: i32) -> (r: String)
    ensures
        r@ == "signing_"@ + signed_decimal(tx_id as int),
{
    let id = signed_decimal_string(tx_id as i64);
    String::from_str("signing_").concat(id.as_str())
}

/// The canonical signer set of a `t`-of-`n` key: the first `t` party indices.
pub fn canonical_signers(threshold: u16) -> (r: Vec<u16>)
    ensures
        r@.len() == threshold,
        forall|i: int| 0 <= i < threshold ==> r@[i] == i,
{
    let mut signers: Vec<u16> = Vec::new();
    let mut i: u16 = 0;
    while i < threshold
        invariant
            i <= threshold,
            signers@.len() == i,
            forall|j: int| 0 <= j < i ==> signers@[j] == j,
        decreases threshold - i,
    {
        signers.push(i);
        i = i + 1;
    }
    signers
}

/// The chain a signature is made for.
#[derive(Debug, Clone, Copy, PartialEq, Eq)]
pub enum Chain {
    Ethereum,
    Bitcoin,
}

/// The chain of a request's numeric code: 0 is Ethereum, 1 is Bitcoin.
pub fn chain_from_code(code: i32) -> (r: Option<Chain>)
    ensures
        r == (if code == 0 {
            Some(Chain::Ethereum)
        } else if code == 1 {
            Some(Chain::Bitcoin)
        } else {
            None
        }),
{
    if code == 0 {
        Some(Chain::Ethereum)
    } else if code == 1 {
        Some(Chain::Bitcoin)
    } else {
        None
    }
}

/// How a signing request fails.
#[derive(Debug, Clone, Copy, PartialEq, Eq)]
pub enum SignError {
    /// A malformed request: an empty account id or a digest that is not 32 bytes.
    InvalidArgument,
    /// No key share for the account.
    NotFound,
    /// A failure inside the node: an unknown chain, a failed protocol run.
    Internal,
    /// Neither recovery id recovers the expected public key.
    RecoveryIdUndeterminable,
}

/// A signing request as it arrives over RPC.
#[derive(Debug, Clone)]
pub struct SignMessage {
    pub tx_id: i32,
    pub execution_id: Vec<u8>,
    pub chain: i32,
    pub data: Vec<u8>,
    pub account_id: String,
}

/// A finished signature as it leaves over RPC.
#[derive(Debug, Clone)]
pub struct SignatureMessage {
    pub r: Vec<u8>,
    pub s: Vec<u8>,
    pub v: u32,
}

/// What a node needs of a key share to run a session: its party index, the
/// key's threshold and its shared public key (uncompressed SEC1).
#[derive(Debug, Clone)]
pub struct KeyShareRecord {
    pub index: u16,
    pub threshold: u16,
    pub public_key: Vec<u8>,
}

/// Everything a node fixes before it runs the protocol for one request.
#[derive(Debug, Clone)]
pub struct SigningPlan {
    pub room_id: String,
    pub index: u16,
    pub signers: Vec<u16>,
    pub execution_id: Vec<u8>,
    pub digest: Vec<u8>,
    pub chain: Chain,
    pub public_key: Vec<u8>,
}

/// The index of the first recovery id in {0, 1} whose candidate key is
/// `expected`.
pub open spec fn first_matching_id(c0: Option<Seq<u8>>, c1: Option<Seq<u8>>, expected: Seq<u8>) -> Option<u32> {
    if c0 == Some(expected) {
        Some(0)
    } else if c1 == Some(expected) {
        Some(1)
    } else {
        None
    }
}

/// Trial recovery, given the keys that recovery ids 0 and 1 recover: the first
/// whose key is `expected`.
pub fn select_recovery_id(
    candidate0: &Option<Vec<u8>>,
    candidate1: &Option<Vec<u8>>,
    expected: &[u8],
) -> (r: Result<u32, SignError>)
    ensures
        match first_matching_id(opt_bytes(*candidate0), opt_bytes(*candidate1), expected@) {
            Some(v) => r == Ok::<u32, SignError>(v),
            None => r == Err::<u32, SignError>(SignError::RecoveryIdUndeterminable),
        },
{
    if let Some(k) = candidate0 {
        if crate::ecdsa::bytes_equal(k.as_slice(), expected) {
            return Ok(0);
        }
    }
    if let Some(k) = candidate1 {
        if crate::ecdsa::bytes_equal(k.as_slice(), expected) {
            return Ok(1);
        }
    }
    Err(SignError::RecoveryIdUndeterminable)
}

/// The recovery byte of the signature `(r, s)` over `digest`: the first `v` in
/// {0, 1} whose recovered key is `public_key`.
pub fn compute_recovery_id(digest: &[u8], r: &[u8], s: &[u8], public_key: &[u8]) -> (res: Result<
    u32,
    SignError,
>)
    requires
        r@.len() == 32,
        s@.len() == 32,
    ensures
        match first_matching_id(
            recovered_key(digest@, r@, s@, 0),
            recovered_key(digest@, r@, s@, 1),
            public_key@,
        ) {
            Some(v) => res == Ok::<u32, SignError>(v),
            None => res == Err::<u32, SignError>(SignError::RecoveryIdUndeterminable),
        },
        res matches Ok(v) ==> v <= 1 && recovered_key(digest@, r@, s@, v as u8) == Some(public_key@),
{
    let c0 = recover_public_key(digest, r, s, 0);
    let c1 = recover_public_key(digest, r, s, 1);
    select_recovery_id(&c0, &c1, public_key)
}

/// Why a request is refused before any protocol run, if it is.
pub open spec fn request_error(req: SignMessage, bundle: Map<Seq<char>, KeyShareRecord>) -> Option<SignError> {
    if req.account_id@.len() == 0 {
        Some(SignError::InvalidArgument)
    } else if req.data@.len() != 32 {
        Some(SignError::InvalidArgument)
    } else if !bundle.contains_key(req.account_id@) {
        Some(SignError::NotFound)
    } else if !(req.chain == 0 || req.chain == 1) {
        Some(SignError::Internal)
    } else {
        None
    }
}

/// A node's signing service: the key shares it holds.
pub struct ParticipantHandler {
    key_shares: KeyBundle<KeyShareRecord>,
}

impl ParticipantHandler {
    pub closed spec fn wf(&self) -> bool {
        self.key_shares.wf() && self.key_shares.view().len() > 0
    }

    pub closed spec fn shares(&self) -> Map<Seq<char>, KeyShareRecord> {
        self.key_shares.view()
    }

    /// A handler over `key_shares`; an empty bundle is refused.
    pub fn new(key_shares: KeyBundle<KeyShareRecord>) -> (r: Option<ParticipantHandler>)
        requires
            key_shares.wf(),
        ensures
            r is Some <==> key_shares.view().len() > 0,
            r matches Some(h) ==> h.wf() && h.shares() == key_shares.view(),
    {
        if key_shares.is_empty() {
            None
        } else {
            Some(ParticipantHandler { key_shares })
        }
    }

    /// The key share of `account_id` and its party index.
    pub fn get_key_share_by_account_id(&self, account_id: &str) -> (r: Option<(&KeyShareRecord, u16)>)
        requires
            self.wf(),
        ensures
            match r {
                Some((share, index)) => self.shares().contains_key(account_id@) && *share
                    == self.shares()[account_id@] && index == share.index,
                None => !self.shares().contains_key(account_id@),
            },
    {
        match self.key_shares.get(account_id) {
            Some(share) => Some((share, share.index)),
            None => None,
        }
    }

    /// Checks a request, in this order: an empty account id or a digest that is
    /// not 32 bytes is an invalid argument, an account without a share is not
    /// found, an unknown chain is an internal failure. Then fixes its session:
    /// the room `signing_{tx_id}`, this node's index, the canonical signer set
    /// of the key's threshold.
    pub fn plan_signing(&self, req: &SignMessage) -> (r: Result<SigningPlan, SignError>)
        requires
            self.wf(),
        ensures
            match request_error(*req, self.shares()) {
                Some(e) => r == Err::<SigningPlan, SignError>(e),
                None => (r matches Ok(plan) && {
                    let share = self.shares()[req.account_id@];
                    &&& plan.room_id@ == "signing_"@ + signed_decimal(req.tx_id as int)
                    &&& plan.index == share.index
                    &&& plan.signers@ == Seq::new(share.threshold as nat, |i: int| i as u16)
                    &&& plan.execution_id@ == req.execution_id@
                    &&& plan.digest@ == req.data@
                    &&& plan.chain == (if req.chain == 0 { Chain::Ethereum } else { Chain::Bitcoin })
                    &&& plan.public_key@ == share.public_key@
                }),
            },
    {
        if req.account_id.unicode_len() == 0 {
            return Err(SignError::InvalidArgument);
        }
        if req.data.len() != 32 {
            return Err(SignError::InvalidArgument);
        }
        let (share, index) = match self.get_key_share_by_account_id(req.account_id.as_str()) {
            Some(found) => found,
            None => {
                return Err(SignError::NotFound);
            },
        };
        let chain = match chain_from_code(req.chain) {
            Some(c) => c,
            None => {
                return Err(SignError::Internal);
            },
        };
        let signers = canonical_signers(share.threshold);
        assert(signers@ =~= Seq::new(share.threshold as nat, |i: int| i as u16));
        Ok(
            SigningPlan {
                room_id: signing_room_id(req.tx_id),
                index,
                signers,
                execution_id: req.execution_id.clone(),
                digest: req.data.clone(),
                chain,
                public_key: share.public_key.clone(),
            },
        )
    }
}

/// The signature of a finished session from `(r, s)` as the protocol produced
/// them: `s` is brought to its low-S form, and the recovery byte is added. For
/// Ethereum the byte comes from trial recovery against the share's public key;
/// Bitcoin takes 0. Components that are not 32 bytes of a non-zero number
/// below the group order are an internal failure.
pub fn finish_signature(plan: &SigningPlan, r: Vec<u8>, s: Vec<u8>) -> (res: Result<
    SignatureMessage,
    SignError,
>)
    ensures
        !is_scalar_bytes(r@) || !is_scalar_bytes(s@) ==> res == Err::<SignatureMessage, SignError>(
            SignError::Internal,
        ),
        is_scalar_bytes(r@) && is_scalar_bytes(s@) ==> match res {
            Ok(sig) => {
                &&& sig.r@ == r@
                &&& 1 <= be_value(sig.r@) < secp256k1_order()
                &&& sig.s@.len() == 32
                &&& 1 <= be_value(sig.s@)
                &&& be_value(sig.s@) == low_s_value(be_value(s@))
                &&& be_value(sig.s@) <= secp256k1_order() / 2
                &&& plan.chain == Chain::Bitcoin ==> sig.v == 0
                &&& plan.chain == Chain::Ethereum ==> first_matching_id(
                    recovered_key(plan.digest@, r@, sig.s@, 0),
                    recovered_key(plan.digest@, r@, sig.s@, 1),
                    plan.public_key@,
                ) == Some(sig.v)
                &&& plan.chain == Chain::Ethereum ==> recovered_key(plan.digest@, r@, sig.s@, sig.v as u8)
                    == Some(plan.public_key@)
            },
            Err(e) => {
                &&& plan.chain == Chain::Ethereum
                &&& e == SignError::RecoveryIdUndeterminable
                &&& forall|low: Seq<u8>| low.len() == 32 && be_value(low) == low_s_value(be_value(s@))
                    ==> #[trigger] first_matching_id(
                    recovered_key(plan.digest@, r@, low, 0),
                    recovered_key(plan.digest@, r@, low, 1),
                    plan.public_key@,
                ) is None
            },
        },
{
    if !is_scalar(r.as_slice()) || !is_scalar(s.as_slice()) {
        return Err(SignError::Internal);
    }
    let ghost s0 = s@;
    let s = match normalize_s(s) {
        Some(low) => low,
        None => {
            return Err(SignError::Internal);
        },
    };
    let v = match plan.chain {
        Chain::Ethereum => {
            match compute_recovery_id(
                plan.digest.as_slice(),
                r.as_slice(),
                s.as_slice(),
                plan.public_key.as_slice(),
            ) {
                Ok(v) => v,
                Err(e) => {
                    assert forall|low: Seq<u8>| low.len() == 32 && be_value(low) == low_s_value(
                        be_value(s0),
                    ) implies #[trigger] first_matching_id(
                        recovered_key(plan.digest@, r@, low, 0),
                        recovered_key(plan.digest@, r@, low, 1),
                        plan.public_key@,
                    ) is None by {
                        lemma_be_value_injective(low, s@);
                    }
                    return Err(e);
                },
            }
        },
        Chain::Bitcoin => 0,
    };
    Ok(SignatureMessage { r, s, v })
}

} // verus!
