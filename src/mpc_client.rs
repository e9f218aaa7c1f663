//! The types of the client's foreign-function surface.
use vstd::prelude::*;

use crate::signer::{KeyShareData, SignatureResult as InternalSignatureResult, SignerConfig};

verus! {

/// How a call through the foreign-function surface fails.
#[derive(Debug, Clone, PartialEq, Eq)]
pub enum MpcError {
    ConfigError { msg: String },
    NetworkError { msg: String },
    SigningError { msg: String },
    InitializationError { msg: String },
}

/// A signature as handed to foreign callers.
#[derive(Debug, Clone)]
pub struct SignatureResult {
    pub r: Vec<u8>,
    pub s: Vec<u8>,
    pub v: u32,
}

impl From<InternalSignatureResult> for SignatureResult {
    fn from(internal: InternalSignatureResult) -> SignatureResult {
        SignatureResult { r: internal.r, s: internal.s, v: internal.v }
    }
}

impl vstd::std_specs::convert::FromSpecImpl<InternalSignatureResult> for SignatureResult {
    open spec fn obeys_from_spec() -> bool {
        true
    }

    open spec fn from_spec(internal: InternalSignatureResult) -> SignatureResult {
        SignatureResult { r: internal.r, s: internal.s, v: internal.v }
    }
}

/// The key share of one account, as foreign callers hand it over.
#[derive(Debug, Clone)]
pub struct KeyShare {
    pub account_id: String,
    /// The share, serialised as JSON.
    pub key_share_data: String,
}

impl From<KeyShare> for KeyShareData {
    fn from(ks: KeyShare) -> KeyShareData {
        KeyShareData { account_id: ks.account_id, key_share_data: ks.key_share_data }
    }
}

impl vstd::std_specs::convert::FromSpecImpl<KeyShare> for KeyShareData {
    open spec fn obeys_from_spec() -> bool {
        true
    }

    open spec fn from_spec(ks: KeyShare) -> KeyShareData {
        KeyShareData { account_id: ks.account_id, key_share_data: ks.key_share_data }
    }
}

/// The client's configuration as foreign callers give it.
#[derive(Debug, Clone)]
pub struct MpcConfig {
    pub local_participant_host: String,
    pub local_participant_port: u16,
    pub local_participant_index: u16,
    pub key_shares: Vec<KeyShare>,
    pub sign_service_host: String,
    pub sign_service_port: u16,
    pub sse_host: String,
    pub sse_port: u16,
    pub sign_service_index: u16,
    pub threshold: u16,
    pub total_participants: u16,
    pub log_level: String,
}

impl MpcConfig {
    /// The client configuration: the remote signing service is the gateway the
    /// client connects to; the key shares keep their order.
    pub fn into_signer_config(self) -> (c: SignerConfig)
        ensures
            c.local_participant_host == self.local_participant_host,
            c.local_participant_port == self.local_participant_port,
            c.local_participant_index == self.local_participant_index,
            c.key_shares@.len() == self.key_shares@.len(),
            forall|i: int| 0 <= i < c.key_shares@.len() ==> (#[trigger] c.key_shares@[i]).account_id
                == self.key_shares@[i].account_id && c.key_shares@[i].key_share_data
                == self.key_shares@[i].key_share_data,
            c.sign_gateway_host == self.sign_service_host,
            c.sign_gateway_port == self.sign_service_port,
            c.sse_host == self.sse_host,
            c.sse_port == self.sse_port,
            c.threshold == self.threshold,
            c.total_participants == self.total_participants,
            c.log_level == self.log_level,
    {
        let MpcConfig {
            local_participant_host,
            local_participant_port,
            local_participant_index,
            key_shares,
            sign_service_host,
            sign_service_port,
            sse_host,
            sse_port,
            sign_service_index: _,
            threshold,
            total_participants,
            log_level,
        } = self;
        let ghost source = key_shares@;
        let mut shares: Vec<KeyShareData> = Vec::new();
        let mut rest = key_shares;
        let mut i: usize = 0;
        let n = rest.len();
        while i < n
            invariant
                n == source.len(),
                i <= n,
                rest@ == source.subrange(i as int, n as int),
                shares@.len() == i,
                forall|j: int| 0 <= j < i ==> (#[trigger] shares@[j]).account_id == source[j].account_id
                    && shares@[j].key_share_data == source[j].key_share_data,
            decreases n - i,
        {
            let ks = rest.remove(0);
            shares.push(KeyShareData { account_id: ks.account_id, key_share_data: ks.key_share_data });
            i = i + 1;
            assert(rest@ =~= source.subrange(i as int, n as int));
        }
        SignerConfig {
            local_participant_host,
            local_participant_port,
            local_participant_index,
            key_shares: shares,
            sign_gateway_host: sign_service_host,
            sign_gateway_port: sign_service_port,
            sse_host,
            sse_port,
            threshold,
            total_participants,
            log_level,
        }
    }
}

} // verus!
