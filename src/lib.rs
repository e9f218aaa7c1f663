//! Threshold ECDSA signing over secp256k1: the room bus that carries protocol
//! messages, the participant node's checks and recovery byte, the client's
//! transaction ids and fan-in, and the share dealer's decisions.
use vstd::prelude::*;

pub mod bundle;
pub mod dealer;
pub mod ecdsa;
pub mod logging;
pub mod mpc_client;
pub mod participant;
pub mod sign_gateway;
pub mod sign_service;
pub mod signer;
pub mod sse;
pub mod text;

verus! {

} // verus!
