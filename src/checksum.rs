//! The internet checksum: a one's-complement sum of big-endian 16-bit
//! words, with end-around carry, complemented.
use vstd::prelude::*;

verus! {

/// The most bytes a checksum is taken over (its 32-bit sum cannot overflow).
pub const MAX_CHECKSUM_INPUT: usize = 100000;

/// The big-endian word at word index `i`; an odd trailing byte is padded with zero.
pub open spec fn word_at(data: Seq<u8>, i: int) -> nat {
    data[2 * i] as nat * 256 + if 2 * i + 1 < data.len() {
        data[2 * i + 1] as nat
    } else {
        0
    }
}

/// The number of words in `data`, counting an odd trailing byte as one.
pub open spec fn word_count(data: Seq<u8>) -> int {
    (data.len() as int + 1) / 2
}

/// The sum of the words at indexes below `n`, leaving out word `skip`.
pub open spec fn word_sum(data: Seq<u8>, skip: int, n: int) -> nat
    decreases n,
{
    if n <= 0 {
        0
    } else {
        word_sum(data, skip, n - 1) + if n - 1 == skip {
            0
        } else {
            word_at(data, n - 1)
        }
    }
}

/// Adds the carries above 16 bits back into the low 16 bits until none is left.
pub open spec fn fold_carries(s: nat) -> nat
    decreases s,
{
    if s < 0x10000 {
        s
    } else {
        fold_carries(s / 0x10000 + s % 0x10000)
    }
}

/// The one's complement of a sum after folding.
pub open spec fn complement(s: nat) -> u16 {
    (0xFFFF - fold_carries(s)) as u16
}

/// The checksum of `data` with word `skip` counted as zero (an index past
/// the end skips nothing); zero for empty data.
pub open spec fn internet_checksum(data: Seq<u8>, skip: int) -> u16 {
    if data.len() == 0 {
        0
    } else {
        complement(word_sum(data, skip, word_count(data)))
    }
}

/// The sum of the IPv4 pseudo-header: both addresses as two words each,
/// the protocol number, and the segment length.
pub open spec fn pseudo_header_sum(source: Seq<u8>, destination: Seq<u8>, protocol: u8, len: nat) -> nat {
    (source[0] as nat * 256 + source[1] as nat) + (source[2] as nat * 256 + source[3] as nat)
        + (destination[0] as nat * 256 + destination[1] as nat) + (destination[2] as nat * 256
        + destination[3] as nat) + protocol as nat + len
}

/// The TCP/UDP checksum of a segment over IPv4: the pseudo-header followed
/// by the segment, with word `skip` of the segment counted as zero.
pub open spec fn pseudo_header_checksum(
    data: Seq<u8>,
    skip: int,
    source: Seq<u8>,
    destination: Seq<u8>,
    protocol: u8,
) -> u16 {
    complement(
        pseudo_header_sum(source, destination, protocol, data.len()) + word_sum(
            data,
            skip,
            word_count(data),
        ),
    )
}

/// Relies on pnet::util::checksum: the folded, complemented sum of the data's
/// big-endian words, leaving out word `skipword`, and 0 for empty data.
#[verifier::external_body]
pub(crate) fn checksum(data: &[u8], skipword: usize) -> (r: u16)
    requires
        data@.len() <= MAX_CHECKSUM_INPUT,
    ensures
        r == internet_checksum(data@, skipword as int),
{
    pnet::util::checksum(data, skipword)
}

/// Relies on pnet::util::ipv4_checksum (with no extra data): the folded,
/// complemented sum of the IPv4 pseudo-header and the segment's words,
/// leaving out word `skipword`.
#[verifier::external_body]
pub(crate) fn ipv4_checksum(
    data: &[u8],
    skipword: usize,
    source: [u8; 4],
    destination: [u8; 4],
    protocol: u8,
) -> (r: u16)
    requires
        data@.len() <= MAX_CHECKSUM_INPUT,
    ensures
        r == pseudo_header_checksum(data@, skipword as int, source@, destination@, protocol),
{
    let src = pnet::util::core_net::Ipv4Addr::from(source);
    let dst = pnet::util::core_net::Ipv4Addr::from(destination);
    let proto = pnet::packet::ip::IpNextHeaderProtocol::new(protocol);
    pnet::util::ipv4_checksum(data, skipword, &[], &src, &dst, proto)
}

} // verus!
