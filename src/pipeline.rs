//! The whole build: transport segment, IPv4 datagram, Ethernet frame.
use vstd::prelude::*;
use crate::address::{ipv4_address, mac_address, mac_text, parse_ipv4, parse_mac};
use crate::ethernet::{ethernet_frame, frame};
use crate::field::{AddressField, BuildError, BuildErrorView, bytes_result};
use crate::icmp::{IcmpSpec, build_icmp, icmp_message};
use crate::ipv4::{
    Ipv4Spec, PROTOCOL_ICMP, PROTOCOL_TCP, PROTOCOL_UDP, Segment, build_ipv4,
    ipv4_addresses_failure, ipv4_datagram,
};
use crate::tcp::{
    EPHEMERAL_PORT_END, EPHEMERAL_PORT_MIN, TcpSpec, encode_tcp, random_ephemeral_port, tcp_segment,
};
use crate::udp::{UdpSpec, build_udp, udp_datagram};

verus! {

/// What rides on IPv4: raw data, or one transport protocol's settings.
pub enum Layer {
    Ip(Vec<u8>),
    Tcp(TcpSpec),
    Udp(UdpSpec),
    Icmp(IcmpSpec),
}

/// Everything a build reads, taken once per build.
pub struct FullPacketSpec {
    pub ip: Ipv4Spec,
    pub layer: Layer,
    pub source_mac: String,
    pub destination_mac: String,
}

/// The protocol number and bytes of the segment, or the first failure.
/// TCP and UDP read the IPv4 addresses first, for their pseudo-header.
pub open spec fn segment_of(spec: FullPacketSpec, auto_source_port: u16, auto_destination_port: u16) -> Result<
    (u8, Seq<u8>),
    BuildErrorView,
> {
    match spec.layer {
        Layer::Ip(d) => Ok((0u8, d@)),
        Layer::Icmp(c) => match icmp_message(c) {
            Err(e) => Err(e),
            Ok(b) => Ok((PROTOCOL_ICMP, b)),
        },
        Layer::Tcp(t) => if ipv4_addresses_failure(spec.ip) is Some {
            Err(ipv4_addresses_failure(spec.ip)->0)
        } else {
            match tcp_segment(
                t,
                parse_ipv4(spec.ip.source@)->0,
                parse_ipv4(spec.ip.destination@)->0,
                auto_source_port,
                auto_destination_port,
            ) {
                Err(e) => Err(e),
                Ok(b) => Ok((PROTOCOL_TCP, b)),
            }
        },
        Layer::Udp(u) => if ipv4_addresses_failure(spec.ip) is Some {
            Err(ipv4_addresses_failure(spec.ip)->0)
        } else {
            match udp_datagram(u, parse_ipv4(spec.ip.source@)->0, parse_ipv4(spec.ip.destination@)->0) {
                Err(e) => Err(e),
                Ok(b) => Ok((PROTOCOL_UDP, b)),
            }
        },
    }
}

/// The frame the settings give, or the first failure: segment, datagram,
/// source MAC, destination MAC. Automatic TCP ports take the values given.
pub open spec fn packet_frame(spec: FullPacketSpec, auto_source_port: u16, auto_destination_port: u16) -> Result<
    Seq<u8>,
    BuildErrorView,
> {
    match segment_of(spec, auto_source_port, auto_destination_port) {
        Err(e) => Err(e),
        Ok((protocol, segment)) => match ipv4_datagram(spec.ip, protocol, segment) {
            Err(e) => Err(e),
            Ok(datagram) => match parse_mac(mac_text(spec.source_mac@)) {
                None => Err(
                    BuildErrorView::AddressParse {
                        which: AddressField::MacSource,
                        raw: spec.source_mac@,
                    },
                ),
                Some(source) => match parse_mac(mac_text(spec.destination_mac@)) {
                    None => Err(
                        BuildErrorView::AddressParse {
                            which: AddressField::MacDestination,
                            raw: spec.destination_mac@,
                        },
                    ),
                    Some(destination) => Ok(ethernet_frame(destination, source, datagram)),
                },
            },
        },
    }
}

pub open spec fn segment_result(r: Result<Segment, BuildError>) -> Result<(u8, Seq<u8>), BuildErrorView> {
    match r {
        Ok(s) => Ok((s.protocol_number(), s.bytes())),
        Err(e) => Err(e@),
    }
}

/// Builds the segment the layer asks for.
pub fn build_segment(spec: &FullPacketSpec, auto_source_port: u16, auto_destination_port: u16) -> (r: Result<
    Segment,
    BuildError,
>)
    ensures
        segment_result(r) == segment_of(*spec, auto_source_port, auto_destination_port),
{
    match &spec.layer {
        Layer::Ip(d) => Ok(Segment::RawData(d.clone())),
        Layer::Icmp(c) => match build_icmp(c) {
            Ok(b) => Ok(Segment::ICMPPacket(b)),
            Err(e) => Err(e),
        },
        Layer::Tcp(t) => {
            let source = match ipv4_address(&spec.ip.source, AddressField::IpSource) {
                Ok(a) => a,
                Err(e) => return Err(e),
            };
            let destination = match ipv4_address(&spec.ip.destination, AddressField::IpDestination) {
                Ok(a) => a,
                Err(e) => return Err(e),
            };
            match encode_tcp(t, source, destination, auto_source_port, auto_destination_port) {
                Ok(b) => Ok(Segment::TCPPacket(b)),
                Err(e) => Err(e),
            }
        },
        Layer::Udp(u) => {
            let source = match ipv4_address(&spec.ip.source, AddressField::IpSource) {
                Ok(a) => a,
                Err(e) => return Err(e),
            };
            let destination = match ipv4_address(&spec.ip.destination, AddressField::IpDestination) {
                Ok(a) => a,
                Err(e) => return Err(e),
            };
            match build_udp(u, source, destination) {
                Ok(b) => Ok(Segment::UDPPacket(b)),
                Err(e) => Err(e),
            }
        },
    }
}

/// Builds the frame; automatic TCP ports take the values given.
pub fn run_with_ports(spec: &FullPacketSpec, auto_source_port: u16, auto_destination_port: u16) -> (r: Result<
    Vec<u8>,
    BuildError,
>)
    ensures
        bytes_result(r) == packet_frame(*spec, auto_source_port, auto_destination_port),
{
    let segment = match build_segment(spec, auto_source_port, auto_destination_port) {
        Ok(s) => s,
        Err(e) => return Err(e),
    };
    let datagram = match build_ipv4(&spec.ip, segment.get_protocol(), segment.payload()) {
        Ok(d) => d,
        Err(e) => return Err(e),
    };
    let source = match mac_address(&spec.source_mac, AddressField::MacSource) {
        Ok(a) => a,
        Err(e) => return Err(e),
    };
    let destination = match mac_address(&spec.destination_mac, AddressField::MacDestination) {
        Ok(a) => a,
        Err(e) => return Err(e),
    };
    Ok(frame(destination, source, datagram.as_slice()))
}

/// Builds the frame; each automatic TCP port is drawn at random from the
/// ephemeral range. Nothing is returned but the whole frame or the first
/// failure.
pub fn run(spec: &FullPacketSpec) -> (r: Result<Vec<u8>, BuildError>)
    ensures
        exists|p: u16, q: u16|
            EPHEMERAL_PORT_MIN <= p < EPHEMERAL_PORT_END && EPHEMERAL_PORT_MIN <= q
                < EPHEMERAL_PORT_END && bytes_result(r) == packet_frame(*spec, p, q),
{
    let p = random_ephemeral_port();
    let q = random_ephemeral_port();
    run_with_ports(spec, p, q)
}

} // verus!
