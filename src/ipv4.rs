//! The IPv4 header (RFC 791) and the builder that wraps a segment in it.
use vstd::prelude::*;
use crate::address::{ipv4_address, parse_ipv4};
use crate::checksum::{checksum, internet_checksum};
use crate::field::{
    AddressField, BuildError, BuildErrorView, Field, FieldValue, MAX_DATAGRAM, bytes_result,
    field_failure, resolve_field, resolved,
};
use crate::options::{OptionTable, encode_options, options_area};
use crate::wire::{be16, push_all, push_be16};

verus! {

/// The size of the IPv4 header without options.
pub const IPV4_BASE_LEN: usize = 20;

/// Protocol numbers carried in the IPv4 header.
pub const PROTOCOL_ICMP: u8 = 1;
pub const PROTOCOL_TCP: u8 = 6;
pub const PROTOCOL_UDP: u8 = 17;

/// What an IPv4 datagram carries: an encoded transport segment, or raw data.
pub enum Segment {
    TCPPacket(Vec<u8>),
    UDPPacket(Vec<u8>),
    ICMPPacket(Vec<u8>),
    RawData(Vec<u8>),
}

impl Segment {
    /// The protocol number for the IPv4 header: 6, 17, 1, or 0 for raw data.
    pub open spec fn protocol_number(&self) -> u8 {
        match self {
            Segment::TCPPacket(_) => PROTOCOL_TCP,
            Segment::UDPPacket(_) => PROTOCOL_UDP,
            Segment::ICMPPacket(_) => PROTOCOL_ICMP,
            Segment::RawData(_) => 0,
        }
    }

    pub open spec fn bytes(&self) -> Seq<u8> {
        match self {
            Segment::TCPPacket(b) => b@,
            Segment::UDPPacket(b) => b@,
            Segment::ICMPPacket(b) => b@,
            Segment::RawData(b) => b@,
        }
    }

    /// The protocol number for the IPv4 header.
    pub fn get_protocol(&self) -> (r: u8)
        ensures
            r == self.protocol_number(),
    {
        match self {
            Segment::TCPPacket(_) => PROTOCOL_TCP,
            Segment::UDPPacket(_) => PROTOCOL_UDP,
            Segment::ICMPPacket(_) => PROTOCOL_ICMP,
            Segment::RawData(_) => 0,
        }
    }

    /// The bytes the datagram carries.
    pub fn payload(&self) -> (r: &[u8])
        ensures
            r@ == self.bytes(),
    {
        match self {
            Segment::TCPPacket(b) => b.as_slice(),
            Segment::UDPPacket(b) => b.as_slice(),
            Segment::ICMPPacket(b) => b.as_slice(),
            Segment::RawData(b) => b.as_slice(),
        }
    }

    /// A fixed placeholder body: four zero bytes, whatever the segment holds.
    /// The bytes a segment carries are those of `payload`.
    pub fn to_bytes(&self) -> (r: Vec<u8>)
        ensures
            r@ == seq![0u8, 0u8, 0u8, 0u8],
    {
        let r: Vec<u8> = vec![0u8, 0u8, 0u8, 0u8];
        assert(r@ =~= seq![0u8, 0u8, 0u8, 0u8]);
        r
    }
}

/// The caller's settings for an IPv4 header.
pub struct Ipv4Spec {
    pub source: String,
    pub destination: String,
    pub version: FieldValue,
    pub header_length: FieldValue,
    pub dscp: FieldValue,
    pub ecn: FieldValue,
    pub total_length: FieldValue,
    pub identification: FieldValue,
    pub fragment_offset: FieldValue,
    pub ttl: FieldValue,
    pub checksum: FieldValue,
    pub dont_fragment: bool,
    pub more_fragments: bool,
    pub reserved_flag: bool,
    /// Comma-separated option names, such as "NOP, EOL".
    pub options: String,
}

/// A resolved IPv4 header.
#[derive(Clone, Copy, Debug)]
pub struct Ipv4Header {
    pub version: u8,
    pub header_length: u8,
    pub dscp: u8,
    pub ecn: u8,
    pub total_length: u16,
    pub identification: u16,
    pub flags: u8,
    pub fragment_offset: u16,
    pub ttl: u8,
    pub protocol: u8,
    pub checksum: u16,
    pub source: [u8; 4],
    pub destination: [u8; 4],
}

/// The values of an IPv4 header.
pub struct Ipv4HeaderView {
    pub version: u8,
    pub header_length: u8,
    pub dscp: u8,
    pub ecn: u8,
    pub total_length: u16,
    pub identification: u16,
    pub flags: u8,
    pub fragment_offset: u16,
    pub ttl: u8,
    pub protocol: u8,
    pub checksum: u16,
    pub source: Seq<u8>,
    pub destination: Seq<u8>,
}

impl View for Ipv4Header {
    type V = Ipv4HeaderView;

    open spec fn view(&self) -> Ipv4HeaderView {
        Ipv4HeaderView {
            version: self.version,
            header_length: self.header_length,
            dscp: self.dscp,
            ecn: self.ecn,
            total_length: self.total_length,
            identification: self.identification,
            flags: self.flags,
            fragment_offset: self.fragment_offset,
            ttl: self.ttl,
            protocol: self.protocol,
            checksum: self.checksum,
            source: self.source@,
            destination: self.destination@,
        }
    }
}

/// Whether each field fits its width on the wire.
pub open spec fn ipv4_header_fits(h: Ipv4HeaderView) -> bool {
    &&& h.version < 16
    &&& h.header_length < 16
    &&& h.dscp < 64
    &&& h.ecn < 4
    &&& h.flags < 8
    &&& h.fragment_offset < 0x2000
    &&& h.source.len() == 4
    &&& h.destination.len() == 4
}

/// The 20 bytes of the header, options not included.
pub open spec fn ipv4_header_bytes(h: Ipv4HeaderView) -> Seq<u8> {
    seq![(h.version * 16 + h.header_length) as u8, (h.dscp * 4 + h.ecn) as u8] + be16(
        h.total_length,
    ) + be16(h.identification) + seq![
        (h.flags * 32 + h.fragment_offset / 256) as u8,
        (h.fragment_offset % 256) as u8,
        h.ttl,
        h.protocol,
    ] + be16(h.checksum) + h.source + h.destination
}

/// The header fields a decoder reads from the first 20 bytes.
pub open spec fn decode_ipv4_header(b: Seq<u8>) -> Ipv4HeaderView {
    Ipv4HeaderView {
        version: b[0] / 16,
        header_length: b[0] % 16,
        dscp: b[1] / 4,
        ecn: b[1] % 4,
        total_length: crate::wire::read16(b, 2),
        identification: crate::wire::read16(b, 4),
        flags: b[6] / 32,
        fragment_offset: ((b[6] % 32) as nat * 256 + b[7] as nat) as u16,
        ttl: b[8],
        protocol: b[9],
        checksum: crate::wire::read16(b, 10),
        source: b.subrange(12, 16),
        destination: b.subrange(16, 20),
    }
}

/// The 3-bit flags field: reserved, don't-fragment, more-fragments.
pub open spec fn ipv4_flags(spec: Ipv4Spec) -> u8 {
    ((if spec.reserved_flag { 4u8 } else { 0u8 }) + (if spec.dont_fragment { 2u8 } else { 0u8 })
        + (if spec.more_fragments { 1u8 } else { 0u8 })) as u8
}

/// The automatic header length: the base header and the padded options, in
/// words. It is also the least header length the options leave room for.
pub open spec fn auto_header_length(options_len: nat) -> u32 {
    ((IPV4_BASE_LEN + options_len) / 4) as u32
}

/// The automatic total length: the header's words and the payload.
pub open spec fn auto_total_length(header_length: u32, payload_len: nat) -> u32 {
    (header_length * 4 + payload_len) as u32
}

/// The header length the settings give: the override must leave room for
/// the base header and the options.
pub open spec fn ipv4_header_length(spec: Ipv4Spec, options_len: nat) -> Option<u32> {
    match resolved(spec.header_length, auto_header_length(options_len), 15) {
        Some(n) => if n >= auto_header_length(options_len) {
            Some(n)
        } else {
            None
        },
        None => None,
    }
}

pub open spec fn ipv4_addresses_failure(spec: Ipv4Spec) -> Option<BuildErrorView> {
    if parse_ipv4(spec.source@) is None {
        Some(BuildErrorView::AddressParse { which: AddressField::IpSource, raw: spec.source@ })
    } else if parse_ipv4(spec.destination@) is None {
        Some(
            BuildErrorView::AddressParse {
                which: AddressField::IpDestination,
                raw: spec.destination@,
            },
        )
    } else {
        None
    }
}

/// The header the settings give, with a zero checksum, or the first failure
/// in the order: header length, datagram size, addresses, version, DSCP,
/// ECN, total length, identification, fragment offset, TTL.
pub open spec fn ipv4_header_fields(
    spec: Ipv4Spec,
    protocol: u8,
    options_len: nat,
    payload_len: nat,
) -> Result<Ipv4HeaderView, BuildErrorView> {
    let ihl = ipv4_header_length(spec, options_len);
    let version = resolved(spec.version, 4, 15);
    let dscp = resolved(spec.dscp, 0, 63);
    let ecn = resolved(spec.ecn, 0, 3);
    let id = resolved(spec.identification, 12345, 0xFFFF);
    let offset = resolved(spec.fragment_offset, 0, 0x1FFF);
    let ttl = resolved(spec.ttl, 64, 255);
    if ihl is None {
        Err(field_failure(spec.header_length, Field::IpHeaderLength))
    } else if ihl->0 * 4 + payload_len > MAX_DATAGRAM {
        Err(BuildErrorView::TooLong { field: Field::IpTotalLength })
    } else if ipv4_addresses_failure(spec) is Some {
        Err(ipv4_addresses_failure(spec)->0)
    } else if version is None {
        Err(field_failure(spec.version, Field::IpVersion))
    } else if dscp is None {
        Err(field_failure(spec.dscp, Field::IpDscp))
    } else if ecn is None {
        Err(field_failure(spec.ecn, Field::IpEcn))
    } else if resolved(spec.total_length, auto_total_length(ihl->0, payload_len), 0xFFFF) is None {
        Err(field_failure(spec.total_length, Field::IpTotalLength))
    } else if id is None {
        Err(field_failure(spec.identification, Field::IpIdentification))
    } else if offset is None {
        Err(field_failure(spec.fragment_offset, Field::IpFragmentOffset))
    } else if ttl is None {
        Err(field_failure(spec.ttl, Field::IpTtl))
    } else {
        Ok(
            Ipv4HeaderView {
                version: version->0 as u8,
                header_length: ihl->0 as u8,
                dscp: dscp->0 as u8,
                ecn: ecn->0 as u8,
                total_length: resolved(
                    spec.total_length,
                    auto_total_length(ihl->0, payload_len),
                    0xFFFF,
                )->0 as u16,
                identification: id->0 as u16,
                flags: ipv4_flags(spec),
                fragment_offset: offset->0 as u16,
                ttl: ttl->0 as u8,
                protocol,
                checksum: 0,
                source: parse_ipv4(spec.source@)->0,
                destination: parse_ipv4(spec.destination@)->0,
            },
        )
    }
}

/// Zero bytes.
pub open spec fn zeros(n: int) -> Seq<u8> {
    Seq::new(n as nat, |i: int| 0u8)
}

/// The header's `header_length` words: the 20 base bytes, the options, and
/// zero bytes up to the end of the last word.
pub open spec fn ipv4_header_area(h: Ipv4HeaderView, options: Seq<u8>) -> Seq<u8> {
    ipv4_header_bytes(h) + options + zeros(h.header_length * 4 - IPV4_BASE_LEN - options.len())
}

/// The header with its checksum: the override, or the checksum of the
/// header's words with the checksum word left out.
pub open spec fn ipv4_with_checksum(spec: Ipv4Spec, h: Ipv4HeaderView, options: Seq<u8>) -> Option<
    Ipv4HeaderView,
> {
    match resolved(spec.checksum, internet_checksum(ipv4_header_area(h, options), 5) as u32, 0xFFFF) {
        Some(c) => Some(Ipv4HeaderView { checksum: c as u16, ..h }),
        None => None,
    }
}

/// The datagram the settings give around `payload`: the header's words
/// (base header, padded options, zero fill), then the payload; or the first
/// failure, options first.
pub open spec fn ipv4_datagram(spec: Ipv4Spec, protocol: u8, payload: Seq<u8>) -> Result<
    Seq<u8>,
    BuildErrorView,
> {
    match options_area(OptionTable::Ipv4, spec.options@, Field::IpOptions) {
        Err(e) => Err(e),
        Ok(options) => match ipv4_header_fields(spec, protocol, options.len(), payload.len()) {
            Err(e) => Err(e),
            Ok(h) => match ipv4_with_checksum(spec, h, options) {
                None => Err(field_failure(spec.checksum, Field::IpChecksum)),
                Some(hc) => Ok(ipv4_header_area(hc, options) + payload),
            },
        },
    }
}

/// Writes the 20 bytes of the header.
pub fn ipv4_header_to_bytes(h: &Ipv4Header) -> (r: Vec<u8>)
    requires
        ipv4_header_fits(h@),
    ensures
        r@ == ipv4_header_bytes(h@),
{
    let mut out: Vec<u8> = Vec::new();
    out.push(h.version * 16 + h.header_length);
    out.push(h.dscp * 4 + h.ecn);
    push_be16(&mut out, h.total_length);
    push_be16(&mut out, h.identification);
    out.push(h.flags * 32 + (h.fragment_offset / 256) as u8);
    out.push((h.fragment_offset % 256) as u8);
    out.push(h.ttl);
    out.push(h.protocol);
    push_be16(&mut out, h.checksum);
    push_all(&mut out, &h.source);
    push_all(&mut out, &h.destination);
    assert(out@ =~= ipv4_header_bytes(h@));
    out
}

/// Appends `n` zero bytes.
pub fn push_zeros(out: &mut Vec<u8>, n: usize)
    ensures
        final(out)@ == old(out)@ + zeros(n as int),
{
    let mut k: usize = 0;
    while k < n
        invariant
            k <= n,
            out@ == old(out)@ + zeros(k as int),
        decreases n - k,
    {
        out.push(0);
        k = k + 1;
        assert(out@ =~= old(out)@ + zeros(k as int));
    }
}

/// Writes the header's words: base header, options, zero fill.
fn ipv4_header_area_bytes(h: &Ipv4Header, options: &Vec<u8>) -> (r: Vec<u8>)
    requires
        ipv4_header_fits(h@),
        IPV4_BASE_LEN + options@.len() <= h.header_length * 4,
    ensures
        r@ == ipv4_header_area(h@, options@),
{
    let mut out = ipv4_header_to_bytes(h);
    push_all(&mut out, options.as_slice());
    push_zeros(&mut out, h.header_length as usize * 4 - IPV4_BASE_LEN - options.len());
    out
}

/// Builds an IPv4 datagram around `payload` for protocol `next_protocol`.
pub fn build_ipv4(spec: &Ipv4Spec, next_protocol: u8, payload: &[u8]) -> (r: Result<Vec<u8>, BuildError>)
    ensures
        bytes_result(r) == ipv4_datagram(*spec, next_protocol, payload@),
{
    let options = match encode_options(OptionTable::Ipv4, spec.options.as_str(), Field::IpOptions) {
        Ok(o) => o,
        Err(e) => return Err(e),
    };
    let ghost opts = options@;
    let auto_ihl: u32 = ((IPV4_BASE_LEN + options.len()) / 4) as u32;
    let header_length = match resolve_field(&spec.header_length, Field::IpHeaderLength, auto_ihl, 15) {
        Ok(v) => v,
        Err(e) => return Err(e),
    };
    if header_length < auto_ihl {
        return Err(BuildError::FieldParse { field: Field::IpHeaderLength, raw: match &spec.header_length {
            FieldValue::Override(t) => t.clone(),
            FieldValue::Auto => String::new(),
        } });
    }
    let header_len: usize = header_length as usize * 4;
    if payload.len() > MAX_DATAGRAM - header_len {
        return Err(BuildError::TooLong { field: Field::IpTotalLength });
    }
    let source = match ipv4_address(&spec.source, AddressField::IpSource) {
        Ok(a) => a,
        Err(e) => return Err(e),
    };
    let destination = match ipv4_address(&spec.destination, AddressField::IpDestination) {
        Ok(a) => a,
        Err(e) => return Err(e),
    };
    let version = match resolve_field(&spec.version, Field::IpVersion, 4, 15) {
        Ok(v) => v,
        Err(e) => return Err(e),
    };
    let dscp = match resolve_field(&spec.dscp, Field::IpDscp, 0, 63) {
        Ok(v) => v,
        Err(e) => return Err(e),
    };
    let ecn = match resolve_field(&spec.ecn, Field::IpEcn, 0, 3) {
        Ok(v) => v,
        Err(e) => return Err(e),
    };
    let auto_total: u32 = (header_len + payload.len()) as u32;
    let total_length = match resolve_field(&spec.total_length, Field::IpTotalLength, auto_total, 0xFFFF) {
        Ok(v) => v,
        Err(e) => return Err(e),
    };
    let identification = match resolve_field(&spec.identification, Field::IpIdentification, 12345, 0xFFFF) {
        Ok(v) => v,
        Err(e) => return Err(e),
    };
    let fragment_offset = match resolve_field(&spec.fragment_offset, Field::IpFragmentOffset, 0, 0x1FFF) {
        Ok(v) => v,
        Err(e) => return Err(e),
    };
    let ttl = match resolve_field(&spec.ttl, Field::IpTtl, 64, 255) {
        Ok(v) => v,
        Err(e) => return Err(e),
    };
    let flags: u8 = (if spec.reserved_flag { 4u8 } else { 0u8 }) + (if spec.dont_fragment { 2u8 } else { 0u8 })
        + (if spec.more_fragments { 1u8 } else { 0u8 });
    let mut header = Ipv4Header {
        version: version as u8,
        header_length: header_length as u8,
        dscp: dscp as u8,
        ecn: ecn as u8,
        total_length: total_length as u16,
        identification: identification as u16,
        flags,
        fragment_offset: fragment_offset as u16,
        ttl: ttl as u8,
        protocol: next_protocol,
        checksum: 0,
        source,
        destination,
    };
    let ghost fields = ipv4_header_fields(*spec, next_protocol, opts.len(), payload@.len());
    assert(fields is Ok && header@ == fields->Ok_0);
    let bytes = ipv4_header_area_bytes(&header, &options);
    let auto_checksum = checksum(bytes.as_slice(), 5);
    let sum = match resolve_field(&spec.checksum, Field::IpChecksum, auto_checksum as u32, 0xFFFF) {
        Ok(v) => v,
        Err(e) => return Err(e),
    };
    header.checksum = sum as u16;
    let mut out = ipv4_header_area_bytes(&header, &options);
    push_all(&mut out, payload);
    Ok(out)
}

} // verus!
