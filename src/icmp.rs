//! ICMP messages (RFC 792, the echo and unreachable subset) and their builder.
use vstd::prelude::*;
use crate::checksum::{checksum, internet_checksum};
use crate::field::{BuildError, BuildErrorView, Field, FieldValue, MAX_DATAGRAM, bytes_result, field_failure, resolve_field, resolved};
use crate::wire::{be16, push_all, push_be16};

verus! {

/// The size of the ICMP header: type, code, checksum.
pub const ICMP_HEADER_LEN: usize = 4;

/// The automatic code. RFC 792 gives 0 for an echo request; this library
/// deliberately writes 8.
pub const AUTO_ICMP_CODE: u32 = 8;

/// The ICMP message types a caller can choose.
#[derive(Clone, Copy, Debug, PartialEq, Eq, Structural)]
pub enum IcmpType {
    EchoRequest,
    EchoReply,
    DestinationUnreachable,
}

pub open spec fn icmp_type_number(t: IcmpType) -> u8 {
    match t {
        IcmpType::EchoRequest => 8,
        IcmpType::EchoReply => 0,
        IcmpType::DestinationUnreachable => 3,
    }
}

/// The caller's settings for an ICMP message. An empty payload stands for
/// the placeholder text "ICMP request".
pub struct IcmpSpec {
    pub icmp_type: IcmpType,
    pub code: FieldValue,
    pub checksum: FieldValue,
    pub payload: Vec<u8>,
}

/// The bytes of "ICMP request".
pub open spec fn placeholder_payload() -> Seq<u8> {
    seq![73u8, 67, 77, 80, 32, 114, 101, 113, 117, 101, 115, 116]
}

pub open spec fn icmp_payload(spec: IcmpSpec) -> Seq<u8> {
    if spec.payload@.len() == 0 {
        placeholder_payload()
    } else {
        spec.payload@
    }
}

pub open spec fn icmp_header_bytes(icmp_type: u8, code: u8, checksum: u16) -> Seq<u8> {
    seq![icmp_type, code] + be16(checksum)
}

/// The message the settings give; or the first failure: message size,
/// code, checksum.
pub open spec fn icmp_message(spec: IcmpSpec) -> Result<Seq<u8>, BuildErrorView> {
    let t = icmp_type_number(spec.icmp_type);
    if ICMP_HEADER_LEN + icmp_payload(spec).len() > MAX_DATAGRAM {
        Err(BuildErrorView::TooLong { field: Field::IcmpPayload })
    } else {
    match resolved(spec.code, AUTO_ICMP_CODE, 255) {
        None => Err(field_failure(spec.code, Field::IcmpCode)),
        Some(code) => {
            let unsummed = icmp_header_bytes(t, code as u8, 0) + icmp_payload(spec);
            match resolved(spec.checksum, internet_checksum(unsummed, 1) as u32, 0xFFFF) {
                None => Err(field_failure(spec.checksum, Field::IcmpChecksum)),
                Some(c) => Ok(icmp_header_bytes(t, code as u8, c as u16) + icmp_payload(spec)),
            }
        },
    }
    }
}

fn icmp_type_byte(t: IcmpType) -> (r: u8)
    ensures
        r == icmp_type_number(t),
{
    match t {
        IcmpType::EchoRequest => 8,
        IcmpType::EchoReply => 0,
        IcmpType::DestinationUnreachable => 3,
    }
}

fn icmp_header_to_bytes(icmp_type: u8, code: u8, checksum: u16) -> (r: Vec<u8>)
    ensures
        r@ == icmp_header_bytes(icmp_type, code, checksum),
{
    let mut out: Vec<u8> = Vec::new();
    out.push(icmp_type);
    out.push(code);
    push_be16(&mut out, checksum);
    assert(out@ =~= icmp_header_bytes(icmp_type, code, checksum));
    out
}

/// Builds an ICMP message.
pub fn build_icmp(spec: &IcmpSpec) -> (r: Result<Vec<u8>, BuildError>)
    ensures
        bytes_result(r) == icmp_message(*spec),
        r is Ok ==> r->Ok_0@.len() == ICMP_HEADER_LEN + icmp_payload(*spec).len(),
{
    let payload: Vec<u8> = if spec.payload.len() == 0 {
        let p: Vec<u8> = vec![73u8, 67, 77, 80, 32, 114, 101, 113, 117, 101, 115, 116];
        assert(p@ =~= placeholder_payload());
        p
    } else {
        spec.payload.clone()
    };
    assert(payload@ == icmp_payload(*spec));
    if payload.len() > MAX_DATAGRAM - ICMP_HEADER_LEN {
        return Err(BuildError::TooLong { field: Field::IcmpPayload });
    }
    let t = icmp_type_byte(spec.icmp_type);
    let code = match resolve_field(&spec.code, Field::IcmpCode, AUTO_ICMP_CODE, 255) {
        Ok(v) => v as u8,
        Err(e) => return Err(e),
    };
    let mut bytes = icmp_header_to_bytes(t, code, 0);
    push_all(&mut bytes, payload.as_slice());
    let auto_checksum = checksum(bytes.as_slice(), 1);
    let sum = match resolve_field(&spec.checksum, Field::IcmpChecksum, auto_checksum as u32, 0xFFFF) {
        Ok(v) => v as u16,
        Err(e) => return Err(e),
    };
    let mut out = icmp_header_to_bytes(t, code, sum);
    push_all(&mut out, payload.as_slice());
    Ok(out)
}

} // verus!
