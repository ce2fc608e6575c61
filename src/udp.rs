//! The UDP header (RFC 768) and its builder.
use vstd::prelude::*;
use crate::checksum::{ipv4_checksum, pseudo_header_checksum};
use crate::field::{BuildError, BuildErrorView, Field, FieldValue, MAX_DATAGRAM, bytes_result, field_failure, parse_decimal, parse_decimal_text, resolve_field, resolved};
use crate::ipv4::PROTOCOL_UDP;
use crate::wire::{be16, push_all, push_be16};

verus! {

/// The size of the UDP header.
pub const UDP_HEADER_LEN: usize = 8;

/// The caller's settings for a UDP datagram. Both ports must be given.
pub struct UdpSpec {
    pub source_port: String,
    pub destination_port: String,
    pub length: FieldValue,
    pub checksum: FieldValue,
    pub payload: Vec<u8>,
}

/// The 8 header bytes.
pub open spec fn udp_header_bytes(source_port: u16, destination_port: u16, length: u16, checksum: u16) -> Seq<u8> {
    be16(source_port) + be16(destination_port) + be16(length) + be16(checksum)
}

/// The automatic length: header and payload.
pub open spec fn auto_udp_length(payload_len: nat) -> u32 {
    (UDP_HEADER_LEN + payload_len) as u32
}

pub open spec fn port_failure(text: String, field: Field) -> BuildErrorView {
    BuildErrorView::FieldParse { field, raw: text@ }
}

/// The datagram the settings give, with the checksum over the pseudo-header
/// of `source` and `destination`; or the first failure in the order: source
/// port, destination port, datagram size, length, checksum.
pub open spec fn udp_datagram(spec: UdpSpec, source: Seq<u8>, destination: Seq<u8>) -> Result<
    Seq<u8>,
    BuildErrorView,
> {
    let sp = parse_decimal(spec.source_port@, 0xFFFF);
    let dp = parse_decimal(spec.destination_port@, 0xFFFF);
    let len = resolved(spec.length, auto_udp_length(spec.payload@.len()), 0xFFFF);
    if sp is None {
        Err(port_failure(spec.source_port, Field::UdpSourcePort))
    } else if dp is None {
        Err(port_failure(spec.destination_port, Field::UdpDestinationPort))
    } else if UDP_HEADER_LEN + spec.payload@.len() > MAX_DATAGRAM {
        Err(BuildErrorView::TooLong { field: Field::UdpLength })
    } else if len is None {
        Err(field_failure(spec.length, Field::UdpLength))
    } else {
        let unsummed = udp_header_bytes(sp->0 as u16, dp->0 as u16, len->0 as u16, 0)
            + spec.payload@;
        let auto = pseudo_header_checksum(unsummed, 3, source, destination, PROTOCOL_UDP);
        match resolved(spec.checksum, auto as u32, 0xFFFF) {
            None => Err(field_failure(spec.checksum, Field::UdpChecksum)),
            Some(c) => Ok(
                udp_header_bytes(sp->0 as u16, dp->0 as u16, len->0 as u16, c as u16)
                    + spec.payload@,
            ),
        }
    }
}

/// Reads a port that must be given.
fn required_port(text: &String, field: Field) -> (r: Result<u16, BuildError>)
    ensures
        match parse_decimal(text@, 0xFFFF) {
            Some(n) => r == Ok::<u16, BuildError>(n as u16),
            None => r is Err && r->Err_0@ == port_failure(*text, field),
        },
{
    match parse_decimal_text(text.as_str(), 0xFFFF) {
        Some(n) => Ok(n as u16),
        None => Err(BuildError::FieldParse { field, raw: text.clone() }),
    }
}

fn udp_header_to_bytes(source_port: u16, destination_port: u16, length: u16, checksum: u16) -> (r: Vec<u8>)
    ensures
        r@ == udp_header_bytes(source_port, destination_port, length, checksum),
{
    let mut out: Vec<u8> = Vec::new();
    push_be16(&mut out, source_port);
    push_be16(&mut out, destination_port);
    push_be16(&mut out, length);
    push_be16(&mut out, checksum);
    assert(out@ =~= udp_header_bytes(source_port, destination_port, length, checksum));
    out
}

/// Builds a UDP datagram for the given IPv4 addresses.
pub fn build_udp(spec: &UdpSpec, source: [u8; 4], destination: [u8; 4]) -> (r: Result<
    Vec<u8>,
    BuildError,
>)
    ensures
        bytes_result(r) == udp_datagram(*spec, source@, destination@),
        r is Ok ==> r->Ok_0@.len() == UDP_HEADER_LEN + spec.payload@.len(),
{
    let source_port = match required_port(&spec.source_port, Field::UdpSourcePort) {
        Ok(v) => v,
        Err(e) => return Err(e),
    };
    let destination_port = match required_port(&spec.destination_port, Field::UdpDestinationPort) {
        Ok(v) => v,
        Err(e) => return Err(e),
    };
    if spec.payload.len() > MAX_DATAGRAM - UDP_HEADER_LEN {
        return Err(BuildError::TooLong { field: Field::UdpLength });
    }
    let auto_length: u32 = (UDP_HEADER_LEN + spec.payload.len()) as u32;
    let length = match resolve_field(&spec.length, Field::UdpLength, auto_length, 0xFFFF) {
        Ok(v) => v as u16,
        Err(e) => return Err(e),
    };
    let mut bytes = udp_header_to_bytes(source_port, destination_port, length, 0);
    push_all(&mut bytes, spec.payload.as_slice());
    let auto_checksum = ipv4_checksum(bytes.as_slice(), 3, source, destination, PROTOCOL_UDP);
    let sum = match resolve_field(&spec.checksum, Field::UdpChecksum, auto_checksum as u32, 0xFFFF) {
        Ok(v) => v as u16,
        Err(e) => return Err(e),
    };
    let mut out = udp_header_to_bytes(source_port, destination_port, length, sum);
    push_all(&mut out, spec.payload.as_slice());
    Ok(out)
}

} // verus!
