//! Binding discovery: learning the externally visible endpoint.
//!
//! The driver sends one binding request to a candidate server from the
//! shared fixed local port and reads one response; this module decides
//! what that response means.  On a decodable response the observed public
//! endpoint comes back; on anything else the caller gets an error and
//! decides whether to retry or move to the next candidate.

use crate::codec;
use crate::endpoint::Endpoint;
use vstd::prelude::*;

verus! {

/// Why a discovery attempt failed.
#[derive(Clone, Copy, PartialEq, Eq, Structural, Debug)]
pub enum DiscoveryError {
    /// The response bytes are not a STUN message.
    MalformedResponse,
    /// A STUN message arrived, but without a decodable IPv4
    /// XOR-MAPPED-ADDRESS.
    NoMappedAddress,
}

/// Decodes the response to a binding request.  Exactly the STUN messages
/// that carry a decodable IPv4 XOR-MAPPED-ADDRESS succeed, and the result
/// is the endpoint that attribute maps; each failure names which of the
/// two checks refused the bytes.
pub fn decode_discovery_response(buf: &Vec<u8>) -> (r: Result<Endpoint, DiscoveryError>)
    ensures
        codec::spec_is_stun(buf@) ==> r == match codec::spec_mapped(buf@) {
            Some(ep) => Ok::<Endpoint, DiscoveryError>(ep),
            None => Err::<Endpoint, DiscoveryError>(DiscoveryError::NoMappedAddress),
        },
        !codec::spec_is_stun(buf@) ==> r == Err::<Endpoint, DiscoveryError>(
            DiscoveryError::MalformedResponse,
        ),
{
    match codec::parse_stun(buf) {
        Some(msg) => match msg.mapped {
            Some(ep) => Ok(ep),
            None => Err(DiscoveryError::NoMappedAddress),
        },
        None => Err(DiscoveryError::MalformedResponse),
    }
}

/// Law: discovery against a well-behaved server is owed success — a
/// response built for an endpoint, under any transaction id, decodes to
/// exactly that endpoint.
pub proof fn lemma_discovery_of_binding_response(tid: Seq<u8>, ep: Endpoint)
    requires
        tid.len() == codec::TRANSACTION_ID_LEN,
    ensures
        codec::spec_is_stun(codec::spec_binding_response(tid, ep)),
        codec::spec_mapped(codec::spec_binding_response(tid, ep)) == Some(ep),
{
    codec::lemma_response_round_trip(tid, ep);
}

} // verus!
