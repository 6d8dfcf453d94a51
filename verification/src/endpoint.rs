use vstd::prelude::*;

verus! {

/// An IPv4 transport endpoint: the four address octets and the port,
/// held as plain integers so that contracts can speak of them directly.
#[derive(Clone, Copy, PartialEq, Eq, Structural, Debug)]
pub struct Endpoint {
    pub ip0: u8,
    pub ip1: u8,
    pub ip2: u8,
    pub ip3: u8,
    pub port: u16,
}

impl Endpoint {
    /// Builds an endpoint from its five plain components.
    pub fn new(ip0: u8, ip1: u8, ip2: u8, ip3: u8, port: u16) -> (e: Endpoint)
        ensures
            e == (Endpoint { ip0, ip1, ip2, ip3, port }),
    {
        Endpoint { ip0, ip1, ip2, ip3, port }
    }
}

} // verus!
