//! Multiplexed classification of inbound datagrams.
//!
//! One socket carries both STUN control traffic and application payloads.
//! Each inbound datagram is classified by attempting a STUN decode: what
//! decodes is STUN, everything else is peer data.  Peer data
//! is never dropped — for the rendezvous ping exchange it is echoed back
//! verbatim to its sender.

use crate::codec;
use crate::endpoint::Endpoint;
use vstd::prelude::*;

verus! {

/// What an inbound datagram turned out to be: the explicit tagged form of
/// the decode, so that dispatch is a match, not error handling.
pub enum Inbound {
    /// A STUN message: treat it as a binding response and read its
    /// mapped endpoint, if it carries one.
    Stun(codec::StunMessage),
    /// Not a STUN message: application data from a peer, to be echoed
    /// back verbatim to the sender.
    Peer(Vec<u8>),
}

impl Inbound {
    /// Whether this datagram ends a rendezvous ping exchange: the exchange
    /// runs until the first peer payload arrives.
    pub fn ends_rendezvous(&self) -> (done: bool)
        ensures
            done <==> self matches Inbound::Peer(_),
    {
        match self {
            Inbound::Peer(_) => true,
            Inbound::Stun(_) => false,
        }
    }

    /// The observed endpoint this datagram reports, if it is a STUN
    /// message with a decodable mapped address.
    pub fn observed(&self) -> (r: Option<Endpoint>)
        ensures
            r == match self {
                Inbound::Stun(m) => m.mapped,
                Inbound::Peer(_) => None::<Endpoint>,
            },
    {
        match self {
            Inbound::Stun(m) => m.mapped,
            Inbound::Peer(_) => None,
        }
    }
}

/// Classifies one inbound datagram.  Classification is total: a STUN
/// datagram decodes to the message the wire-format spec functions read
/// off the bytes, and every other datagram comes back whole as peer data
/// — byte for byte the buffer that came in, so an echo of it is verbatim.
pub fn classify_datagram(buf: Vec<u8>) -> (r: Inbound)
    ensures
        codec::spec_is_stun(buf@) ==> (r matches Inbound::Stun(m) && {
            &&& m.msg_type as int == codec::spec_msg_type(buf@)
            &&& m.tid.wf()
            &&& m.tid@ == codec::spec_tid(buf@)
            &&& m.mapped == codec::spec_mapped(buf@)
        }),
        !codec::spec_is_stun(buf@) ==> (r matches Inbound::Peer(payload) && payload@
            == buf@),
{
    match codec::parse_stun(&buf) {
        Some(msg) => Inbound::Stun(msg),
        None => Inbound::Peer(buf),
    }
}

/// The rendezvous probe payload, `DMS:CONSENSUS:PING` in ASCII.  It has
/// no STUN shape, so the far side classifies it as peer data and echoes
/// it.
pub open spec fn spec_rendezvous_ping() -> Seq<u8> {
    seq![
        0x44u8,
        0x4du8,
        0x53u8,
        0x3au8,
        0x43u8,
        0x4fu8,
        0x4eu8,
        0x53u8,
        0x45u8,
        0x4eu8,
        0x53u8,
        0x55u8,
        0x53u8,
        0x3au8,
        0x50u8,
        0x49u8,
        0x4eu8,
        0x47u8,
    ]
}

/// Builds the rendezvous probe payload.
pub fn rendezvous_ping() -> (p: Vec<u8>)
    ensures
        p@ == spec_rendezvous_ping(),
        !codec::spec_is_stun(p@),
{
    let mut p: Vec<u8> = Vec::new();
    p.push(0x44);
    p.push(0x4d);
    p.push(0x53);
    p.push(0x3a);
    p.push(0x43);
    p.push(0x4f);
    p.push(0x4e);
    p.push(0x53);
    p.push(0x45);
    p.push(0x4e);
    p.push(0x53);
    p.push(0x55);
    p.push(0x53);
    p.push(0x3a);
    p.push(0x50);
    p.push(0x49);
    p.push(0x4e);
    p.push(0x47);
    proof {
        assert(p@ =~= spec_rendezvous_ping());
    }
    p
}

} // verus!
