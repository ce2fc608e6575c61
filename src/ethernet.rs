//! Ethernet II framing of an IPv4 datagram.
use vstd::prelude::*;
use crate::wire::push_all;

verus! {

/// The size of the Ethernet II header.
pub const ETHERNET_HEADER_LEN: usize = 14;

/// The EtherType of IPv4.
pub const ETHERTYPE_IPV4: u16 = 0x0800;

/// The frame: destination MAC, source MAC, EtherType 0x0800, the payload
/// verbatim. No frame check sequence: the adapter adds it.
pub open spec fn ethernet_frame(destination: Seq<u8>, source: Seq<u8>, payload: Seq<u8>) -> Seq<u8> {
    destination + source + seq![0x08u8, 0x00u8] + payload
}

/// Frames an IPv4 datagram.
pub fn frame(destination: [u8; 6], source: [u8; 6], payload: &[u8]) -> (r: Vec<u8>)
    ensures
        r@ == ethernet_frame(destination@, source@, payload@),
        r@.len() == ETHERNET_HEADER_LEN + payload@.len(),
{
    let mut out: Vec<u8> = Vec::new();
    push_all(&mut out, &destination);
    push_all(&mut out, &source);
    out.push((ETHERTYPE_IPV4 / 256) as u8);
    out.push((ETHERTYPE_IPV4 % 256) as u8);
    push_all(&mut out, payload);
    assert(out@ =~= ethernet_frame(destination@, source@, payload@));
    out
}

} // verus!
