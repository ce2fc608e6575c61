//! The TCP header (RFC 793) and its builder.
use vstd::prelude::*;
use crate::checksum::{ipv4_checksum, pseudo_header_checksum};
use crate::field::{
    BuildError, BuildErrorView, Field, FieldValue, MAX_DATAGRAM, bytes_result, field_failure,
    resolve_field, resolved,
};
use crate::ipv4::{PROTOCOL_TCP, push_zeros, zeros};
use crate::options::{OptionTable, encode_options, options_area};
use crate::wire::{be16, be32, push_all, push_be16, push_be32};

verus! {

/// The size of the TCP header without options.
pub const TCP_BASE_LEN: usize = 20;

/// The first port of the dynamic (ephemeral) range.
pub const EPHEMERAL_PORT_MIN: u16 = 49152;

/// The end of the range automatic ports are drawn from (not included).
pub const EPHEMERAL_PORT_END: u16 = 65535;

/// The nine TCP control flags.
#[derive(Clone, Copy, Debug)]
pub struct TcpFlags {
    pub ns: bool,
    pub cwr: bool,
    pub ece: bool,
    pub urg: bool,
    pub ack: bool,
    pub psh: bool,
    pub rst: bool,
    pub syn: bool,
    pub fin: bool,
}

pub open spec fn bit(b: bool, weight: nat) -> nat {
    if b {
        weight
    } else {
        0
    }
}

/// The 9-bit flags field: NS in the highest bit, FIN in the lowest.
pub open spec fn tcp_flags_value(f: TcpFlags) -> u16 {
    (bit(f.ns, 256) + bit(f.cwr, 128) + bit(f.ece, 64) + bit(f.urg, 32) + bit(f.ack, 16) + bit(
        f.psh,
        8,
    ) + bit(f.rst, 4) + bit(f.syn, 2) + bit(f.fin, 1)) as u16
}

/// The caller's settings for a TCP segment.
pub struct TcpSpec {
    pub source_port: FieldValue,
    pub destination_port: FieldValue,
    pub sequence: FieldValue,
    pub acknowledgement: FieldValue,
    pub data_offset: FieldValue,
    pub window: FieldValue,
    pub urgent_pointer: FieldValue,
    pub checksum: FieldValue,
    /// The three reserved bits, lowest first.
    pub reserved_1: bool,
    pub reserved_2: bool,
    pub reserved_3: bool,
    pub flags: TcpFlags,
    /// Comma-separated option names, such as "MSS, NOP".
    pub options: String,
    pub payload: Vec<u8>,
}

/// A resolved TCP header.
#[derive(Clone, Copy, Debug)]
pub struct TcpHeader {
    pub source_port: u16,
    pub destination_port: u16,
    pub sequence: u32,
    pub acknowledgement: u32,
    pub data_offset: u8,
    pub reserved: u8,
    pub flags: u16,
    pub window: u16,
    pub checksum: u16,
    pub urgent_pointer: u16,
}

pub open spec fn tcp_header_fits(h: TcpHeader) -> bool {
    h.data_offset < 16 && h.reserved < 8 && h.flags < 512
}

/// The 20 bytes of the header, options not included.
pub open spec fn tcp_header_bytes(h: TcpHeader) -> Seq<u8> {
    be16(h.source_port) + be16(h.destination_port) + be32(h.sequence) + be32(h.acknowledgement)
        + seq![
        (h.data_offset * 16 + h.reserved * 2 + h.flags / 256) as u8,
        (h.flags % 256) as u8,
    ] + be16(h.window) + be16(h.checksum) + be16(h.urgent_pointer)
}

/// The header fields a decoder reads from the first 20 bytes.
pub open spec fn decode_tcp_header(b: Seq<u8>) -> TcpHeader {
    TcpHeader {
        source_port: crate::wire::read16(b, 0),
        destination_port: crate::wire::read16(b, 2),
        sequence: crate::wire::read32(b, 4),
        acknowledgement: crate::wire::read32(b, 8),
        data_offset: b[12] / 16,
        reserved: (b[12] % 16) / 2,
        flags: ((b[12] % 2) as nat * 256 + b[13] as nat) as u16,
        window: crate::wire::read16(b, 14),
        checksum: crate::wire::read16(b, 16),
        urgent_pointer: crate::wire::read16(b, 18),
    }
}

pub open spec fn tcp_reserved(spec: TcpSpec) -> u8 {
    (bit(spec.reserved_1, 1) + bit(spec.reserved_2, 2) + bit(spec.reserved_3, 4)) as u8
}

/// The automatic data offset: the base header and the padded options, in
/// words. It is also the least data offset the options leave room for.
pub open spec fn auto_data_offset(options_len: nat) -> u32 {
    ((TCP_BASE_LEN + options_len) / 4) as u32
}

/// The data offset the settings give: the override must leave room for the
/// base header and the options.
pub open spec fn tcp_data_offset(spec: TcpSpec, options_len: nat) -> Option<u32> {
    match resolved(spec.data_offset, auto_data_offset(options_len), 15) {
        Some(n) => if n >= auto_data_offset(options_len) {
            Some(n)
        } else {
            None
        },
        None => None,
    }
}

/// The header the settings give, with a zero checksum, or the first failure
/// in the order: ports, sequence, acknowledgement, data offset, segment
/// size, window, urgent pointer. Automatic ports take the values given.
pub open spec fn tcp_header_fields(
    spec: TcpSpec,
    options_len: nat,
    auto_source_port: u16,
    auto_destination_port: u16,
) -> Result<TcpHeader, BuildErrorView> {
    let sp = resolved(spec.source_port, auto_source_port as u32, 0xFFFF);
    let dp = resolved(spec.destination_port, auto_destination_port as u32, 0xFFFF);
    let seqn = resolved(spec.sequence, 0, 0xFFFF_FFFF);
    let ackn = resolved(spec.acknowledgement, 0, 0xFFFF_FFFF);
    let off = tcp_data_offset(spec, options_len);
    let win = resolved(spec.window, 0, 0xFFFF);
    let urg = resolved(spec.urgent_pointer, 0, 0xFFFF);
    if sp is None {
        Err(field_failure(spec.source_port, Field::TcpSourcePort))
    } else if dp is None {
        Err(field_failure(spec.destination_port, Field::TcpDestinationPort))
    } else if seqn is None {
        Err(field_failure(spec.sequence, Field::TcpSequence))
    } else if ackn is None {
        Err(field_failure(spec.acknowledgement, Field::TcpAcknowledgement))
    } else if off is None {
        Err(field_failure(spec.data_offset, Field::TcpDataOffset))
    } else if off->0 * 4 + spec.payload@.len() > MAX_DATAGRAM {
        Err(BuildErrorView::TooLong { field: Field::TcpPayload })
    } else if win is None {
        Err(field_failure(spec.window, Field::TcpWindow))
    } else if urg is None {
        Err(field_failure(spec.urgent_pointer, Field::TcpUrgentPointer))
    } else {
        Ok(
            TcpHeader {
                source_port: sp->0 as u16,
                destination_port: dp->0 as u16,
                sequence: seqn->0,
                acknowledgement: ackn->0,
                data_offset: off->0 as u8,
                reserved: tcp_reserved(spec),
                flags: tcp_flags_value(spec.flags),
                window: win->0 as u16,
                checksum: 0,
                urgent_pointer: urg->0 as u16,
            },
        )
    }
}

/// The header's `data_offset` words: the 20 base bytes, the options, and
/// zero bytes up to the end of the last word.
pub open spec fn tcp_header_area(h: TcpHeader, options: Seq<u8>) -> Seq<u8> {
    tcp_header_bytes(h) + options + zeros(h.data_offset * 4 - TCP_BASE_LEN - options.len())
}

/// The segment the settings give: the header's words, payload, with
/// the checksum over the pseudo-header of `source` and `destination`; or
/// the first failure, options first, checksum last.
pub open spec fn tcp_segment(
    spec: TcpSpec,
    source: Seq<u8>,
    destination: Seq<u8>,
    auto_source_port: u16,
    auto_destination_port: u16,
) -> Result<Seq<u8>, BuildErrorView> {
    match options_area(OptionTable::Tcp, spec.options@, Field::TcpOptions) {
        Err(e) => Err(e),
        Ok(options) => match tcp_header_fields(
            spec,
            options.len(),
            auto_source_port,
            auto_destination_port,
        ) {
            Err(e) => Err(e),
            Ok(h) => {
                let unsummed = tcp_header_area(h, options) + spec.payload@;
                let auto = pseudo_header_checksum(unsummed, 8, source, destination, PROTOCOL_TCP);
                match resolved(spec.checksum, auto as u32, 0xFFFF) {
                    None => Err(field_failure(spec.checksum, Field::TcpChecksum)),
                    Some(c) => Ok(
                        tcp_header_area(TcpHeader { checksum: c as u16, ..h }, options)
                            + spec.payload@,
                    ),
                }
            },
        },
    }
}

/// Writes the 20 bytes of the header.
pub fn tcp_header_to_bytes(h: &TcpHeader) -> (r: Vec<u8>)
    requires
        tcp_header_fits(*h),
    ensures
        r@ == tcp_header_bytes(*h),
{
    let mut out: Vec<u8> = Vec::new();
    push_be16(&mut out, h.source_port);
    push_be16(&mut out, h.destination_port);
    push_be32(&mut out, h.sequence);
    push_be32(&mut out, h.acknowledgement);
    out.push(h.data_offset * 16 + h.reserved * 2 + (h.flags / 256) as u8);
    out.push((h.flags % 256) as u8);
    push_be16(&mut out, h.window);
    push_be16(&mut out, h.checksum);
    push_be16(&mut out, h.urgent_pointer);
    assert(out@ =~= tcp_header_bytes(*h));
    out
}

/// The 9-bit flags field.
#[verifier::rlimit(30)]
pub fn tcp_flags_bits(f: &TcpFlags) -> (r: u16)
    ensures
        r == tcp_flags_value(*f),
        r < 512,
{
    bit_value(f.ns, 256) + bit_value(f.cwr, 128) + bit_value(f.ece, 64) + bit_value(f.urg, 32)
        + bit_value(f.ack, 16) + bit_value(f.psh, 8) + bit_value(f.rst, 4) + bit_value(f.syn, 2)
        + bit_value(f.fin, 1)
}

/// `weight` when `b` holds, else zero.
fn bit_value(b: bool, weight: u16) -> (r: u16)
    ensures
        r == bit(b, weight as nat),
{
    if b {
        weight
    } else {
        0
    }
}

/// Writes the header's words: base header, options, zero fill.
fn tcp_header_area_bytes(h: &TcpHeader, options: &Vec<u8>) -> (r: Vec<u8>)
    requires
        tcp_header_fits(*h),
        TCP_BASE_LEN + options@.len() <= h.data_offset * 4,
    ensures
        r@ == tcp_header_area(*h, options@),
{
    let mut out = tcp_header_to_bytes(h);
    push_all(&mut out, options.as_slice());
    push_zeros(&mut out, h.data_offset as usize * 4 - TCP_BASE_LEN - options.len());
    out
}

/// Encodes a TCP segment; automatic ports take the values given.
#[verifier::rlimit(60)]
pub fn encode_tcp(
    spec: &TcpSpec,
    source: [u8; 4],
    destination: [u8; 4],
    auto_source_port: u16,
    auto_destination_port: u16,
) -> (r: Result<Vec<u8>, BuildError>)
    ensures
        bytes_result(r) == tcp_segment(
            *spec,
            source@,
            destination@,
            auto_source_port,
            auto_destination_port,
        ),
{
    let options = match encode_options(OptionTable::Tcp, spec.options.as_str(), Field::TcpOptions) {
        Ok(o) => o,
        Err(e) => return Err(e),
    };
    let source_port = match resolve_field(&spec.source_port, Field::TcpSourcePort, auto_source_port as u32, 0xFFFF) {
        Ok(v) => v,
        Err(e) => return Err(e),
    };
    let destination_port = match resolve_field(&spec.destination_port, Field::TcpDestinationPort, auto_destination_port as u32, 0xFFFF) {
        Ok(v) => v,
        Err(e) => return Err(e),
    };
    let sequence = match resolve_field(&spec.sequence, Field::TcpSequence, 0, 0xFFFF_FFFF) {
        Ok(v) => v,
        Err(e) => return Err(e),
    };
    let acknowledgement = match resolve_field(&spec.acknowledgement, Field::TcpAcknowledgement, 0, 0xFFFF_FFFF) {
        Ok(v) => v,
        Err(e) => return Err(e),
    };
    let auto_offset: u32 = ((TCP_BASE_LEN + options.len()) / 4) as u32;
    let data_offset = match resolve_field(&spec.data_offset, Field::TcpDataOffset, auto_offset, 15) {
        Ok(v) => v,
        Err(e) => return Err(e),
    };
    if data_offset < auto_offset {
        return Err(BuildError::FieldParse { field: Field::TcpDataOffset, raw: match &spec.data_offset {
            FieldValue::Override(t) => t.clone(),
            FieldValue::Auto => String::new(),
        } });
    }
    if spec.payload.len() > MAX_DATAGRAM - data_offset as usize * 4 {
        return Err(BuildError::TooLong { field: Field::TcpPayload });
    }
    let window = match resolve_field(&spec.window, Field::TcpWindow, 0, 0xFFFF) {
        Ok(v) => v,
        Err(e) => return Err(e),
    };
    let urgent_pointer = match resolve_field(&spec.urgent_pointer, Field::TcpUrgentPointer, 0, 0xFFFF) {
        Ok(v) => v,
        Err(e) => return Err(e),
    };
    let reserved: u8 = (if spec.reserved_1 { 1u8 } else { 0u8 }) + (if spec.reserved_2 { 2u8 } else { 0u8 })
        + (if spec.reserved_3 { 4u8 } else { 0u8 });
    let mut header = TcpHeader {
        source_port: source_port as u16,
        destination_port: destination_port as u16,
        sequence,
        acknowledgement,
        data_offset: data_offset as u8,
        reserved,
        flags: tcp_flags_bits(&spec.flags),
        window: window as u16,
        checksum: 0,
        urgent_pointer: urgent_pointer as u16,
    };
    let ghost fields = tcp_header_fields(*spec, options@.len(), auto_source_port, auto_destination_port);
    assert(fields is Ok && header == fields->Ok_0);
    let mut bytes = tcp_header_area_bytes(&header, &options);
    push_all(&mut bytes, spec.payload.as_slice());
    let auto_checksum = ipv4_checksum(bytes.as_slice(), 8, source, destination, PROTOCOL_TCP);
    let sum = match resolve_field(&spec.checksum, Field::TcpChecksum, auto_checksum as u32, 0xFFFF) {
        Ok(v) => v,
        Err(e) => return Err(e),
    };
    header.checksum = sum as u16;
    let mut out = tcp_header_area_bytes(&header, &options);
    push_all(&mut out, spec.payload.as_slice());
    Ok(out)
}

/// Relies on rand's `thread_rng().gen_range`: a value in the half-open range.
#[verifier::external_body]
pub(crate) fn random_ephemeral_port() -> (r: u16)
    ensures
        EPHEMERAL_PORT_MIN <= r < EPHEMERAL_PORT_END,
{
    rand::Rng::gen_range(&mut rand::thread_rng(), EPHEMERAL_PORT_MIN..EPHEMERAL_PORT_END)
}

/// Builds a TCP segment; each automatic port is drawn at random from the
/// ephemeral range.
pub fn build_tcp(spec: &TcpSpec, source: [u8; 4], destination: [u8; 4]) -> (r: Result<
    Vec<u8>,
    BuildError,
>)
    ensures
        exists|p: u16, q: u16|
            EPHEMERAL_PORT_MIN <= p < EPHEMERAL_PORT_END && EPHEMERAL_PORT_MIN <= q
                < EPHEMERAL_PORT_END && bytes_result(r) == tcp_segment(
                *spec,
                source@,
                destination@,
                p,
                q,
            ),
{
    let p = random_ephemeral_port();
    let q = random_ephemeral_port();
    encode_tcp(spec, source, destination, p, q)
}

} // verus!
