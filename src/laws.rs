//! Properties of the builders, proved over their specifications.
use vstd::prelude::*;
use crate::address::parse_ipv4;
use crate::checksum::{
    complement, fold_carries, internet_checksum, pseudo_header_checksum, word_at, word_count, word_sum,
};
use crate::field::{FieldValue, field_failure, resolved};
use crate::ipv4::{
    Ipv4HeaderView, Ipv4Spec, auto_header_length, auto_total_length, decode_ipv4_header,
    ipv4_flags, ipv4_header_area, ipv4_header_bytes, ipv4_header_fields, ipv4_header_fits,
    ipv4_header_length, ipv4_datagram, zeros,
};
use crate::options::{OptionTable, options_area};
use crate::field::Field;
use crate::wire::{be16, be32, read16, lemma_read16_be16, lemma_read32_be32};
use crate::ipv4::{PROTOCOL_TCP, PROTOCOL_UDP};
use crate::udp::{UdpSpec, auto_udp_length, udp_datagram, udp_header_bytes};
use crate::icmp::{AUTO_ICMP_CODE, IcmpSpec, icmp_header_bytes, icmp_message, icmp_payload, icmp_type_number};
use crate::pipeline::{FullPacketSpec, Layer, packet_frame, segment_of};
use crate::field::BuildErrorView;
use crate::ipv4::ipv4_addresses_failure;
use crate::ethernet::ethernet_frame;
use crate::address::{mac_text, parse_mac};
use crate::field::parse_decimal;
use crate::tcp::{
    TcpHeader, TcpSpec, auto_data_offset, decode_tcp_header, tcp_data_offset, tcp_flags_value,
    tcp_header_area, tcp_header_bytes, tcp_header_fields, tcp_header_fits, tcp_reserved,
    tcp_segment,
};

verus! {

/// Decoding the 20 header bytes gives back every field that fits its width.
pub proof fn lemma_ipv4_header_decode(h: Ipv4HeaderView, rest: Seq<u8>)
    requires
        ipv4_header_fits(h),
    ensures
        decode_ipv4_header(ipv4_header_bytes(h) + rest) == h,
{
    let b = ipv4_header_bytes(h) + rest;
    let prefix0 = seq![(h.version * 16 + h.header_length) as u8, (h.dscp * 4 + h.ecn) as u8];
    let prefix1 = prefix0 + be16(h.total_length);
    let prefix2 = prefix1 + be16(h.identification);
    let prefix3 = prefix2 + seq![
        (h.flags * 32 + h.fragment_offset / 256) as u8,
        (h.fragment_offset % 256) as u8,
        h.ttl,
        h.protocol,
    ];
    let prefix4 = prefix3 + be16(h.checksum);
    assert(ipv4_header_bytes(h) == prefix4 + h.source + h.destination);
    assert(b =~= prefix0 + be16(h.total_length) + (be16(h.identification) + seq![
        (h.flags * 32 + h.fragment_offset / 256) as u8,
        (h.fragment_offset % 256) as u8,
        h.ttl,
        h.protocol,
    ] + be16(h.checksum) + h.source + h.destination + rest));
    lemma_read16_be16(h.total_length, prefix0, be16(h.identification) + seq![
        (h.flags * 32 + h.fragment_offset / 256) as u8,
        (h.fragment_offset % 256) as u8,
        h.ttl,
        h.protocol,
    ] + be16(h.checksum) + h.source + h.destination + rest);
    assert(b =~= prefix1 + be16(h.identification) + (seq![
        (h.flags * 32 + h.fragment_offset / 256) as u8,
        (h.fragment_offset % 256) as u8,
        h.ttl,
        h.protocol,
    ] + be16(h.checksum) + h.source + h.destination + rest));
    lemma_read16_be16(h.identification, prefix1, seq![
        (h.flags * 32 + h.fragment_offset / 256) as u8,
        (h.fragment_offset % 256) as u8,
        h.ttl,
        h.protocol,
    ] + be16(h.checksum) + h.source + h.destination + rest);
    assert(b =~= prefix3 + be16(h.checksum) + (h.source + h.destination + rest));
    lemma_read16_be16(h.checksum, prefix3, h.source + h.destination + rest);
    assert(b[6] == (h.flags * 32 + h.fragment_offset / 256) as u8);
    assert(b[7] == (h.fragment_offset % 256) as u8);
    assert(b.subrange(12, 16) =~= h.source);
    assert(b.subrange(16, 20) =~= h.destination);
    let d = decode_ipv4_header(b);
    assert(d.fragment_offset == h.fragment_offset);
    assert(d == h);
}

/// Words outside the skipped one decide a skipping sum.
pub proof fn lemma_word_sum_ignores_skipped(a: Seq<u8>, b: Seq<u8>, skip: int, n: int)
    requires
        a.len() == b.len(),
        0 <= n <= word_count(a),
        forall|i: int| 0 <= i < a.len() && i != 2 * skip && i != 2 * skip + 1 ==> a[i] == b[i],
    ensures
        word_sum(a, skip, n) == word_sum(b, skip, n),
    decreases n,
{
    if n > 0 {
        lemma_word_sum_ignores_skipped(a, b, skip, n - 1);
        if n - 1 != skip {
            assert(word_at(a, n - 1) == word_at(b, n - 1));
        }
    }
}

/// Skipping a word that is zero changes nothing.
pub proof fn lemma_word_sum_zero_word(a: Seq<u8>, skip: int, other: int, n: int)
    requires
        0 <= skip,
        2 * skip + 1 < a.len(),
        a[2 * skip] == 0,
        a[2 * skip + 1] == 0,
        0 <= n <= word_count(a),
        other >= word_count(a),
    ensures
        word_sum(a, skip, n) == word_sum(a, other, n),
    decreases n,
{
    if n > 0 {
        lemma_word_sum_zero_word(a, skip, other, n - 1);
    }
}

/// The checksum of `data` with the two bytes at `2 * skip` cleared equals
/// both the skipping checksum of `data` and the plain checksum of the
/// cleared bytes.
pub proof fn lemma_checksum_of_cleared(data: Seq<u8>, skip: int)
    requires
        0 <= skip,
        2 * skip + 1 < data.len(),
    ensures
        internet_checksum(data.update(2 * skip, 0).update(2 * skip + 1, 0), skip)
            == internet_checksum(data, skip),
        internet_checksum(data.update(2 * skip, 0).update(2 * skip + 1, 0), skip)
            == internet_checksum(
            data.update(2 * skip, 0).update(2 * skip + 1, 0),
            word_count(data),
        ),
{
    let z = data.update(2 * skip, 0).update(2 * skip + 1, 0);
    lemma_word_sum_ignores_skipped(z, data, skip, word_count(data));
    lemma_word_sum_zero_word(z, skip, word_count(data), word_count(data));
}

/// An option area is whole words, at most 40 bytes.
pub proof fn lemma_options_area_shape(table: OptionTable, text: Seq<char>, field: Field)
    requires
        options_area(table, text, field) is Ok,
    ensures
        options_area(table, text, field)->Ok_0.len() <= 40,
        options_area(table, text, field)->Ok_0.len() % 4 == 0,
{
    let o = options_area(table, text, field)->Ok_0;
    let b = if text.len() == 0 {
        Seq::<u8>::empty()
    } else {
        crate::options::encode_tokens(table, crate::text::split_on(text, ','))->Ok_0
    };
    assert(o == crate::options::pad_to_words(b));
    let k = b.len();
    assert((k + (4 - k % 4) % 4) % 4 == 0) by (nonlinear_arith);
}

/// Round trip: decoding a built datagram gives back every setting (the
/// override's number, or the automatic value), the options, the zero fill
/// up to the header length, and the payload after the header's words.
pub proof fn ipv4_round_trip(spec: Ipv4Spec, protocol: u8, payload: Seq<u8>)
    requires
        ipv4_datagram(spec, protocol, payload) is Ok,
    ensures
        ({
            let d = ipv4_datagram(spec, protocol, payload)->Ok_0;
            let options = options_area(OptionTable::Ipv4, spec.options@, Field::IpOptions)->Ok_0;
            let h = decode_ipv4_header(d);
            let hl = h.header_length as int * 4;
            &&& h.version as u32 == resolved(spec.version, 4, 15)->0
            &&& ipv4_header_length(spec, options.len()) == Some(h.header_length as u32)
            &&& h.dscp as u32 == resolved(spec.dscp, 0, 63)->0
            &&& h.ecn as u32 == resolved(spec.ecn, 0, 3)->0
            &&& h.total_length as u32 == resolved(
                spec.total_length,
                auto_total_length(h.header_length as u32, payload.len()),
                0xFFFF,
            )->0
            &&& h.identification as u32 == resolved(spec.identification, 12345, 0xFFFF)->0
            &&& h.flags == ipv4_flags(spec)
            &&& h.fragment_offset as u32 == resolved(spec.fragment_offset, 0, 0x1FFF)->0
            &&& h.ttl as u32 == resolved(spec.ttl, 64, 255)->0
            &&& h.protocol == protocol
            &&& h.source == parse_ipv4(spec.source@)->0
            &&& h.destination == parse_ipv4(spec.destination@)->0
            &&& 20 + options.len() <= hl
            &&& d.len() == hl + payload.len()
            &&& d.len() <= 0xFFFF
            &&& d.subrange(20, 20 + options.len() as int) == options
            &&& d.subrange(20 + options.len() as int, hl) == zeros(hl - 20 - options.len())
            &&& d.subrange(hl, d.len() as int) == payload
        }),
{
    let options = options_area(OptionTable::Ipv4, spec.options@, Field::IpOptions)->Ok_0;
    let h = ipv4_header_fields(spec, protocol, options.len(), payload.len())->Ok_0;
    let sum = resolved(
        spec.checksum,
        internet_checksum(ipv4_header_area(h, options), 5) as u32,
        0xFFFF,
    )->0;
    let hc = Ipv4HeaderView { checksum: sum as u16, ..h };
    let d = ipv4_datagram(spec, protocol, payload)->Ok_0;
    let fill = zeros(hc.header_length * 4 - 20 - options.len());
    assert(d == ipv4_header_area(hc, options) + payload);
    assert(ipv4_header_fits(hc));
    assert(d =~= ipv4_header_bytes(hc) + (options + fill + payload));
    lemma_ipv4_header_decode(hc, options + fill + payload);
    let hl = hc.header_length as int * 4;
    assert(d.subrange(20, 20 + options.len() as int) =~= options);
    assert(d.subrange(20 + options.len() as int, hl) =~= fill);
    assert(d.subrange(hl, d.len() as int) =~= payload);
}

/// Checksum self-check: with an automatic checksum, clearing the checksum
/// field of the built header (its `header_length` words) and running the
/// checksum again (skipping that word or not) gives back the checksum that
/// was written.
#[verifier::rlimit(40)]
pub proof fn ipv4_checksum_reproduces(spec: Ipv4Spec, protocol: u8, payload: Seq<u8>)
    requires
        ipv4_datagram(spec, protocol, payload) is Ok,
        spec.checksum is Auto,
    ensures
        ({
            let d = ipv4_datagram(spec, protocol, payload)->Ok_0;
            let hl = decode_ipv4_header(d).header_length as int * 4;
            let cleared = d.subrange(0, hl).update(10, 0).update(11, 0);
            &&& internet_checksum(cleared, 5) == read16(d, 10)
            &&& internet_checksum(cleared, word_count(cleared)) == read16(d, 10)
        }),
{
    let options = options_area(OptionTable::Ipv4, spec.options@, Field::IpOptions)->Ok_0;
    let h = ipv4_header_fields(spec, protocol, options.len(), payload.len())->Ok_0;
    let unsummed = ipv4_header_area(h, options);
    let c = internet_checksum(unsummed, 5);
    let hc = Ipv4HeaderView { checksum: c, ..h };
    let d = ipv4_datagram(spec, protocol, payload)->Ok_0;
    let fill = zeros(hc.header_length * 4 - 20 - options.len());
    assert(d == ipv4_header_area(hc, options) + payload);
    assert(ipv4_header_fits(hc));
    lemma_ipv4_header_decode(hc, options + fill + payload);
    assert(d =~= ipv4_header_bytes(hc) + (options + fill + payload));
    let header = d.subrange(0, hc.header_length as int * 4);
    assert(header =~= ipv4_header_area(hc, options));
    let cleared = header.update(10, 0).update(11, 0);
    lemma_checksum_of_cleared(header, 5);
    lemma_word_sum_ignores_skipped(header, unsummed, 5, word_count(header));
    assert(internet_checksum(header, 5) == c);
    assert(word_count(cleared) == word_count(header));
}

/// Length consistency: with an automatic total length, the total length is
/// the header's words plus the payload, and is the datagram's length; with an
/// automatic header length too, the header's words are the base header and
/// the padded options.
#[verifier::rlimit(40)]
pub proof fn ipv4_length_consistency(spec: Ipv4Spec, protocol: u8, payload: Seq<u8>)
    requires
        ipv4_datagram(spec, protocol, payload) is Ok,
        spec.total_length is Auto,
    ensures
        ({
            let d = ipv4_datagram(spec, protocol, payload)->Ok_0;
            let options = options_area(OptionTable::Ipv4, spec.options@, Field::IpOptions)->Ok_0;
            let h = decode_ipv4_header(d);
            &&& h.total_length == h.header_length * 4 + payload.len()
            &&& h.total_length == d.len()
            &&& spec.header_length is Auto ==> h.header_length * 4 == 20 + options.len()
        }),
{
    ipv4_round_trip(spec, protocol, payload);
    let options = options_area(OptionTable::Ipv4, spec.options@, Field::IpOptions)->Ok_0;
    lemma_options_area_shape(OptionTable::Ipv4, spec.options@, Field::IpOptions);
    let n = options.len();
    let d = ipv4_datagram(spec, protocol, payload)->Ok_0;
    let h = decode_ipv4_header(d);
    let ihl = h.header_length as u32;
    assert(resolved(spec.total_length, auto_total_length(ihl, payload.len()), 0xFFFF) == Some(
        auto_total_length(ihl, payload.len()),
    ));
    assert(auto_total_length(ihl, payload.len()) == ihl * 4 + payload.len());
    if spec.header_length is Auto {
        assert(auto_header_length(n) * 4 == 20 + n);
    }
}

/// Automatic defaults: with every field automatic and no options, the header
/// says version 4, header length 5, TTL 64, DSCP 0, ECN 0, identification
/// 12345 and fragment offset 0.
pub proof fn ipv4_auto_defaults(spec: Ipv4Spec, protocol: u8, payload: Seq<u8>)
    requires
        ipv4_datagram(spec, protocol, payload) is Ok,
        spec.version is Auto,
        spec.header_length is Auto,
        spec.dscp is Auto,
        spec.ecn is Auto,
        spec.identification is Auto,
        spec.fragment_offset is Auto,
        spec.ttl is Auto,
        spec.options@.len() == 0,
    ensures
        ({
            let h = decode_ipv4_header(ipv4_datagram(spec, protocol, payload)->Ok_0);
            &&& h.version == 4
            &&& h.header_length == 5
            &&& h.ttl == 64
            &&& h.dscp == 0
            &&& h.ecn == 0
            &&& h.identification == 12345
            &&& h.fragment_offset == 0
        }),
{
    ipv4_round_trip(spec, protocol, payload);
    assert(options_area(OptionTable::Ipv4, spec.options@, Field::IpOptions)->Ok_0 =~= Seq::<u8>::empty());
    assert(auto_header_length(0) == 5);
}

/// The pseudo-header checksum of `data` with the two bytes at `2 * skip`
/// cleared equals both the skipping checksum of `data` and the plain
/// checksum of the cleared bytes.
pub proof fn lemma_pseudo_checksum_of_cleared(
    data: Seq<u8>,
    skip: int,
    source: Seq<u8>,
    destination: Seq<u8>,
    protocol: u8,
)
    requires
        0 <= skip,
        2 * skip + 1 < data.len(),
    ensures
        pseudo_header_checksum(
            data.update(2 * skip, 0).update(2 * skip + 1, 0),
            skip,
            source,
            destination,
            protocol,
        ) == pseudo_header_checksum(data, skip, source, destination, protocol),
        pseudo_header_checksum(
            data.update(2 * skip, 0).update(2 * skip + 1, 0),
            skip,
            source,
            destination,
            protocol,
        ) == pseudo_header_checksum(
            data.update(2 * skip, 0).update(2 * skip + 1, 0),
            word_count(data),
            source,
            destination,
            protocol,
        ),
{
    let z = data.update(2 * skip, 0).update(2 * skip + 1, 0);
    lemma_word_sum_ignores_skipped(z, data, skip, word_count(data));
    lemma_word_sum_zero_word(z, skip, word_count(data), word_count(data));
}

/// Decoding the 20 TCP header bytes gives back every field that fits its width.
pub proof fn lemma_tcp_header_decode(h: TcpHeader, rest: Seq<u8>)
    requires
        tcp_header_fits(h),
    ensures
        decode_tcp_header(tcp_header_bytes(h) + rest) == h,
{
    let b = tcp_header_bytes(h) + rest;
    let mid = seq![
        (h.data_offset * 16 + h.reserved * 2 + h.flags / 256) as u8,
        (h.flags % 256) as u8,
    ];
    let prefix0 = Seq::<u8>::empty();
    let prefix1 = be16(h.source_port);
    let prefix2 = prefix1 + be16(h.destination_port);
    let prefix3 = prefix2 + be32(h.sequence);
    let prefix4 = prefix3 + be32(h.acknowledgement);
    let prefix5 = prefix4 + mid;
    let prefix6 = prefix5 + be16(h.window);
    let prefix7 = prefix6 + be16(h.checksum);
    assert(b =~= prefix0 + be16(h.source_port) + (be16(h.destination_port) + be32(h.sequence) + be32(
        h.acknowledgement,
    ) + mid + be16(h.window) + be16(h.checksum) + be16(h.urgent_pointer) + rest));
    lemma_read16_be16(h.source_port, prefix0, be16(h.destination_port) + be32(h.sequence) + be32(
        h.acknowledgement,
    ) + mid + be16(h.window) + be16(h.checksum) + be16(h.urgent_pointer) + rest);
    assert(b =~= prefix1 + be16(h.destination_port) + (be32(h.sequence) + be32(h.acknowledgement) + mid
        + be16(h.window) + be16(h.checksum) + be16(h.urgent_pointer) + rest));
    lemma_read16_be16(h.destination_port, prefix1, be32(h.sequence) + be32(h.acknowledgement) + mid
        + be16(h.window) + be16(h.checksum) + be16(h.urgent_pointer) + rest);
    assert(b =~= prefix2 + be32(h.sequence) + (be32(h.acknowledgement) + mid + be16(h.window) + be16(
        h.checksum,
    ) + be16(h.urgent_pointer) + rest));
    lemma_read32_be32(h.sequence, prefix2, be32(h.acknowledgement) + mid + be16(h.window) + be16(
        h.checksum,
    ) + be16(h.urgent_pointer) + rest);
    assert(b =~= prefix3 + be32(h.acknowledgement) + (mid + be16(h.window) + be16(h.checksum) + be16(
        h.urgent_pointer,
    ) + rest));
    lemma_read32_be32(h.acknowledgement, prefix3, mid + be16(h.window) + be16(h.checksum) + be16(
        h.urgent_pointer,
    ) + rest);
    assert(b =~= prefix5 + be16(h.window) + (be16(h.checksum) + be16(h.urgent_pointer) + rest));
    lemma_read16_be16(h.window, prefix5, be16(h.checksum) + be16(h.urgent_pointer) + rest);
    assert(b =~= prefix6 + be16(h.checksum) + (be16(h.urgent_pointer) + rest));
    lemma_read16_be16(h.checksum, prefix6, be16(h.urgent_pointer) + rest);
    assert(b =~= prefix7 + be16(h.urgent_pointer) + rest);
    lemma_read16_be16(h.urgent_pointer, prefix7, rest);
    assert(b[12] == (h.data_offset * 16 + h.reserved * 2 + h.flags / 256) as u8);
    assert(b[13] == (h.flags % 256) as u8);
    let d = decode_tcp_header(b);
    assert(d.flags == h.flags);
    assert(d == h);
}

/// Round trip: decoding a built TCP segment gives back every setting (the
/// override's number, or the automatic value), the options and the payload.
#[verifier::rlimit(60)]
pub proof fn tcp_round_trip(
    spec: TcpSpec,
    source: Seq<u8>,
    destination: Seq<u8>,
    auto_source_port: u16,
    auto_destination_port: u16,
)
    requires
        tcp_segment(spec, source, destination, auto_source_port, auto_destination_port) is Ok,
    ensures
        ({
            let s = tcp_segment(spec, source, destination, auto_source_port, auto_destination_port)->Ok_0;
            let options = options_area(OptionTable::Tcp, spec.options@, Field::TcpOptions)->Ok_0;
            let h = decode_tcp_header(s);
            &&& h.source_port as u32 == resolved(spec.source_port, auto_source_port as u32, 0xFFFF)->0
            &&& h.destination_port as u32 == resolved(
                spec.destination_port,
                auto_destination_port as u32,
                0xFFFF,
            )->0
            &&& h.sequence == resolved(spec.sequence, 0, 0xFFFF_FFFF)->0
            &&& h.acknowledgement == resolved(spec.acknowledgement, 0, 0xFFFF_FFFF)->0
            &&& tcp_data_offset(spec, options.len()) == Some(h.data_offset as u32)
            &&& h.reserved == tcp_reserved(spec)
            &&& h.flags == tcp_flags_value(spec.flags)
            &&& h.window as u32 == resolved(spec.window, 0, 0xFFFF)->0
            &&& h.urgent_pointer as u32 == resolved(spec.urgent_pointer, 0, 0xFFFF)->0
            &&& 20 + options.len() <= h.data_offset * 4
            &&& s.len() == h.data_offset * 4 + spec.payload@.len()
            &&& s.len() <= 0xFFFF
            &&& s.subrange(20, 20 + options.len() as int) == options
            &&& s.subrange(20 + options.len() as int, h.data_offset * 4) == zeros(
                h.data_offset * 4 - 20 - options.len(),
            )
            &&& s.subrange(h.data_offset * 4, s.len() as int) == spec.payload@
        }),
{
    let options = options_area(OptionTable::Tcp, spec.options@, Field::TcpOptions)->Ok_0;
    let h = tcp_header_fields(spec, options.len(), auto_source_port, auto_destination_port)->Ok_0;
    let unsummed = tcp_header_area(h, options) + spec.payload@;
    let auto = pseudo_header_checksum(unsummed, 8, source, destination, PROTOCOL_TCP);
    let c = resolved(spec.checksum, auto as u32, 0xFFFF)->0;
    let hc = TcpHeader { checksum: c as u16, ..h };
    let s = tcp_segment(spec, source, destination, auto_source_port, auto_destination_port)->Ok_0;
    let fill = zeros(hc.data_offset * 4 - 20 - options.len());
    assert(s == tcp_header_area(hc, options) + spec.payload@);
    assert(tcp_header_fits(hc));
    assert(s =~= tcp_header_bytes(hc) + (options + fill + spec.payload@));
    lemma_tcp_header_decode(hc, options + fill + spec.payload@);
    let hl = hc.data_offset * 4;
    assert(s.subrange(20, 20 + options.len() as int) =~= options);
    assert(s.subrange(20 + options.len() as int, hl) =~= fill);
    assert(s.subrange(hl, s.len() as int) =~= spec.payload@);
}

/// Checksum self-check: with an automatic checksum, clearing the checksum
/// field of the built segment and running the pseudo-header checksum again
/// (skipping that word or not) gives back the checksum that was written.
#[verifier::rlimit(40)]
pub proof fn tcp_checksum_reproduces(
    spec: TcpSpec,
    source: Seq<u8>,
    destination: Seq<u8>,
    auto_source_port: u16,
    auto_destination_port: u16,
)
    requires
        tcp_segment(spec, source, destination, auto_source_port, auto_destination_port) is Ok,
        spec.checksum is Auto,
    ensures
        ({
            let s = tcp_segment(spec, source, destination, auto_source_port, auto_destination_port)->Ok_0;
            let cleared = s.update(16, 0).update(17, 0);
            &&& pseudo_header_checksum(cleared, 8, source, destination, PROTOCOL_TCP) == read16(s, 16)
            &&& pseudo_header_checksum(cleared, word_count(cleared), source, destination, PROTOCOL_TCP)
                == read16(s, 16)
        }),
{
    let options = options_area(OptionTable::Tcp, spec.options@, Field::TcpOptions)->Ok_0;
    let h = tcp_header_fields(spec, options.len(), auto_source_port, auto_destination_port)->Ok_0;
    let unsummed = tcp_header_area(h, options) + spec.payload@;
    let c = pseudo_header_checksum(unsummed, 8, source, destination, PROTOCOL_TCP);
    let hc = TcpHeader { checksum: c, ..h };
    let s = tcp_segment(spec, source, destination, auto_source_port, auto_destination_port)->Ok_0;
    let fill = zeros(hc.data_offset * 4 - 20 - options.len());
    assert(s == tcp_header_area(hc, options) + spec.payload@);
    assert(tcp_header_fits(hc));
    assert(s =~= tcp_header_bytes(hc) + (options + fill + spec.payload@));
    lemma_tcp_header_decode(hc, options + fill + spec.payload@);
    lemma_pseudo_checksum_of_cleared(s, 8, source, destination, PROTOCOL_TCP);
    assert(unsummed =~= tcp_header_bytes(h) + (options + fill + spec.payload@));
    lemma_word_sum_ignores_skipped(s, unsummed, 8, word_count(s));
    assert(pseudo_header_checksum(s, 8, source, destination, PROTOCOL_TCP) == c);
}

/// Automatic defaults: with every numeric field automatic and no options,
/// the header says data offset 5, sequence 0, acknowledgement 0, window 0
/// and urgent pointer 0, and carries the chosen flags.
pub proof fn tcp_auto_defaults(
    spec: TcpSpec,
    source: Seq<u8>,
    destination: Seq<u8>,
    auto_source_port: u16,
    auto_destination_port: u16,
)
    requires
        tcp_segment(spec, source, destination, auto_source_port, auto_destination_port) is Ok,
        spec.sequence is Auto,
        spec.acknowledgement is Auto,
        spec.data_offset is Auto,
        spec.window is Auto,
        spec.urgent_pointer is Auto,
        spec.options@.len() == 0,
    ensures
        ({
            let h = decode_tcp_header(
                tcp_segment(spec, source, destination, auto_source_port, auto_destination_port)->Ok_0,
            );
            &&& h.data_offset == 5
            &&& h.sequence == 0
            &&& h.acknowledgement == 0
            &&& h.window == 0
            &&& h.urgent_pointer == 0
            &&& h.flags == tcp_flags_value(spec.flags)
        }),
{
    tcp_round_trip(spec, source, destination, auto_source_port, auto_destination_port);
    assert(options_area(OptionTable::Tcp, spec.options@, Field::TcpOptions)->Ok_0 =~= Seq::<u8>::empty());
    assert(auto_data_offset(0) == 5);
}

/// Round trip: decoding a built UDP datagram gives back both ports, the
/// length setting and the payload.
pub proof fn udp_round_trip(spec: UdpSpec, source: Seq<u8>, destination: Seq<u8>)
    requires
        udp_datagram(spec, source, destination) is Ok,
    ensures
        ({
            let u = udp_datagram(spec, source, destination)->Ok_0;
            &&& read16(u, 0) as nat == parse_decimal(spec.source_port@, 0xFFFF)->0
            &&& read16(u, 2) as nat == parse_decimal(spec.destination_port@, 0xFFFF)->0
            &&& read16(u, 4) as u32 == resolved(spec.length, auto_udp_length(spec.payload@.len()), 0xFFFF)->0
            &&& u.len() == 8 + spec.payload@.len()
            &&& u.subrange(8, u.len() as int) == spec.payload@
        }),
{
    let sp = parse_decimal(spec.source_port@, 0xFFFF)->0 as u16;
    let dp = parse_decimal(spec.destination_port@, 0xFFFF)->0 as u16;
    let len = resolved(spec.length, auto_udp_length(spec.payload@.len()), 0xFFFF)->0 as u16;
    let unsummed = udp_header_bytes(sp, dp, len, 0) + spec.payload@;
    let c = resolved(
        spec.checksum,
        pseudo_header_checksum(unsummed, 3, source, destination, PROTOCOL_UDP) as u32,
        0xFFFF,
    )->0 as u16;
    let u = udp_datagram(spec, source, destination)->Ok_0;
    assert(u == udp_header_bytes(sp, dp, len, c) + spec.payload@);
    lemma_udp_header_decode(sp, dp, len, c, spec.payload@);
    assert(u.subrange(8, u.len() as int) =~= spec.payload@);
}

/// Decoding the 8 UDP header bytes gives back its four fields.
pub proof fn lemma_udp_header_decode(sp: u16, dp: u16, len: u16, c: u16, rest: Seq<u8>)
    ensures
        read16(udp_header_bytes(sp, dp, len, c) + rest, 0) == sp,
        read16(udp_header_bytes(sp, dp, len, c) + rest, 2) == dp,
        read16(udp_header_bytes(sp, dp, len, c) + rest, 4) == len,
        read16(udp_header_bytes(sp, dp, len, c) + rest, 6) == c,
        (udp_header_bytes(sp, dp, len, c) + rest).len() == 8 + rest.len(),
{
    let b = udp_header_bytes(sp, dp, len, c) + rest;
    assert(b =~= Seq::<u8>::empty() + be16(sp) + (be16(dp) + be16(len) + be16(c) + rest));
    lemma_read16_be16(sp, Seq::<u8>::empty(), be16(dp) + be16(len) + be16(c) + rest);
    assert(b =~= be16(sp) + be16(dp) + (be16(len) + be16(c) + rest));
    lemma_read16_be16(dp, be16(sp), be16(len) + be16(c) + rest);
    assert(b =~= be16(sp) + be16(dp) + be16(len) + (be16(c) + rest));
    lemma_read16_be16(len, be16(sp) + be16(dp), be16(c) + rest);
    assert(b =~= be16(sp) + be16(dp) + be16(len) + be16(c) + rest);
    lemma_read16_be16(c, be16(sp) + be16(dp) + be16(len), rest);
}

/// Checksum self-check: with an automatic checksum, clearing the checksum
/// field of the built datagram and running the pseudo-header checksum again
/// (skipping that word or not) gives back the checksum that was written.
#[verifier::rlimit(40)]
pub proof fn udp_checksum_reproduces(spec: UdpSpec, source: Seq<u8>, destination: Seq<u8>)
    requires
        udp_datagram(spec, source, destination) is Ok,
        spec.checksum is Auto,
    ensures
        ({
            let u = udp_datagram(spec, source, destination)->Ok_0;
            let cleared = u.update(6, 0).update(7, 0);
            &&& pseudo_header_checksum(cleared, 3, source, destination, PROTOCOL_UDP) == read16(u, 6)
            &&& pseudo_header_checksum(cleared, word_count(cleared), source, destination, PROTOCOL_UDP)
                == read16(u, 6)
        }),
{
    let sp = parse_decimal(spec.source_port@, 0xFFFF)->0 as u16;
    let dp = parse_decimal(spec.destination_port@, 0xFFFF)->0 as u16;
    let len = resolved(spec.length, auto_udp_length(spec.payload@.len()), 0xFFFF)->0 as u16;
    let unsummed = udp_header_bytes(sp, dp, len, 0) + spec.payload@;
    let c = pseudo_header_checksum(unsummed, 3, source, destination, PROTOCOL_UDP);
    let u = udp_datagram(spec, source, destination)->Ok_0;
    assert(u == udp_header_bytes(sp, dp, len, c) + spec.payload@);
    lemma_udp_header_decode(sp, dp, len, c, spec.payload@);
    lemma_pseudo_checksum_of_cleared(u, 3, source, destination, PROTOCOL_UDP);
    lemma_word_sum_ignores_skipped(u, unsummed, 3, word_count(u));
    assert(pseudo_header_checksum(u, 3, source, destination, PROTOCOL_UDP) == c);
}

/// Length consistency: with an automatic length, the length field is the
/// header plus the payload, and the datagram's length.
pub proof fn udp_length_consistency(spec: UdpSpec, source: Seq<u8>, destination: Seq<u8>)
    requires
        udp_datagram(spec, source, destination) is Ok,
        spec.length is Auto,
    ensures
        read16(udp_datagram(spec, source, destination)->Ok_0, 4) == 8 + spec.payload@.len(),
        udp_datagram(spec, source, destination)->Ok_0.len() == 8 + spec.payload@.len(),
{
    udp_round_trip(spec, source, destination);
}

/// Round trip: decoding a built ICMP message gives back the type, the code
/// setting and the payload (the placeholder when none was given).
pub proof fn icmp_round_trip(spec: IcmpSpec)
    requires
        icmp_message(spec) is Ok,
    ensures
        ({
            let m = icmp_message(spec)->Ok_0;
            &&& m[0] == icmp_type_number(spec.icmp_type)
            &&& m[1] as u32 == resolved(spec.code, AUTO_ICMP_CODE, 255)->0
            &&& m.len() == 4 + icmp_payload(spec).len()
            &&& m.subrange(4, m.len() as int) == icmp_payload(spec)
        }),
{
    let m = icmp_message(spec)->Ok_0;
    assert(m.subrange(4, m.len() as int) =~= icmp_payload(spec));
}

/// Checksum self-check: with an automatic checksum, clearing the checksum
/// field of the built message and running the checksum again (skipping that
/// word or not) gives back the checksum that was written.
pub proof fn icmp_checksum_reproduces(spec: IcmpSpec)
    requires
        icmp_message(spec) is Ok,
        spec.checksum is Auto,
    ensures
        ({
            let m = icmp_message(spec)->Ok_0;
            let cleared = m.update(2, 0).update(3, 0);
            &&& internet_checksum(cleared, 1) == read16(m, 2)
            &&& internet_checksum(cleared, word_count(cleared)) == read16(m, 2)
        }),
{
    let t = icmp_type_number(spec.icmp_type);
    let code = resolved(spec.code, AUTO_ICMP_CODE, 255)->0 as u8;
    let unsummed = icmp_header_bytes(t, code, 0) + icmp_payload(spec);
    let c = internet_checksum(unsummed, 1);
    let m = icmp_message(spec)->Ok_0;
    assert(m == icmp_header_bytes(t, code, c) + icmp_payload(spec));
    assert(m =~= seq![t, code] + be16(c) + icmp_payload(spec));
    lemma_read16_be16(c, seq![t, code], icmp_payload(spec));
    lemma_checksum_of_cleared(m, 1);
    lemma_word_sum_ignores_skipped(m, unsummed, 1, word_count(m));
    assert(internet_checksum(m, 1) == c);
}

/// Automatic default: an echo request with no code given carries code 8.
pub proof fn icmp_auto_code(spec: IcmpSpec)
    requires
        icmp_message(spec) is Ok,
        spec.code is Auto,
    ensures
        icmp_message(spec)->Ok_0[1] == 8,
{
    icmp_round_trip(spec);
}

/// Framing: a built frame is the destination MAC, the source MAC, EtherType
/// 0x0800 and the IPv4 datagram around the segment, 14 bytes longer than it.
pub proof fn frame_layout(spec: FullPacketSpec, auto_source_port: u16, auto_destination_port: u16)
    requires
        packet_frame(spec, auto_source_port, auto_destination_port) is Ok,
    ensures
        ({
            let f = packet_frame(spec, auto_source_port, auto_destination_port)->Ok_0;
            let seg = segment_of(spec, auto_source_port, auto_destination_port)->Ok_0;
            let d = ipv4_datagram(spec.ip, seg.0, seg.1)->Ok_0;
            &&& segment_of(spec, auto_source_port, auto_destination_port) is Ok
            &&& ipv4_datagram(spec.ip, seg.0, seg.1) is Ok
            &&& f.subrange(0, 6) == parse_mac(mac_text(spec.destination_mac@))->0
            &&& f.subrange(6, 12) == parse_mac(mac_text(spec.source_mac@))->0
            &&& read16(f, 12) == 0x0800
            &&& f.subrange(14, f.len() as int) == d
            &&& f.len() == 14 + d.len()
        }),
{
    let f = packet_frame(spec, auto_source_port, auto_destination_port)->Ok_0;
    let seg = segment_of(spec, auto_source_port, auto_destination_port)->Ok_0;
    let d = ipv4_datagram(spec.ip, seg.0, seg.1)->Ok_0;
    let dm = parse_mac(mac_text(spec.destination_mac@))->0;
    let sm = parse_mac(mac_text(spec.source_mac@))->0;
    assert(f == ethernet_frame(dm, sm, d));
    assert(f.subrange(0, 6) =~= dm);
    assert(f.subrange(6, 12) =~= sm);
    assert(f.subrange(14, f.len() as int) =~= d);
    assert(f[12] == 8 && f[13] == 0);
}

/// An override whose text is not a decimal number no larger than `max`.
pub open spec fn unparseable(v: FieldValue, max: u32) -> bool {
    match v {
        FieldValue::Auto => false,
        FieldValue::Override(s) => parse_decimal(s@, max as nat) is None,
    }
}

/// The setting behind each IPv4 field, with the largest value it takes.
pub open spec fn ipv4_setting(spec: Ipv4Spec, field: Field) -> Option<(FieldValue, u32)> {
    match field {
        Field::IpVersion => Some((spec.version, 15u32)),
        Field::IpHeaderLength => Some((spec.header_length, 15u32)),
        Field::IpDscp => Some((spec.dscp, 63u32)),
        Field::IpEcn => Some((spec.ecn, 3u32)),
        Field::IpTotalLength => Some((spec.total_length, 0xFFFFu32)),
        Field::IpIdentification => Some((spec.identification, 0xFFFFu32)),
        Field::IpFragmentOffset => Some((spec.fragment_offset, 0x1FFFu32)),
        Field::IpTtl => Some((spec.ttl, 255u32)),
        Field::IpChecksum => Some((spec.checksum, 0xFFFFu32)),
        _ => None,
    }
}

/// The setting behind each field of a transport layer, with the largest
/// value it takes (UDP ports are required text).
pub open spec fn layer_setting(layer: Layer, field: Field) -> Option<(FieldValue, u32)> {
    match layer {
        Layer::Ip(_) => None,
        Layer::Tcp(t) => match field {
            Field::TcpSourcePort => Some((t.source_port, 0xFFFFu32)),
            Field::TcpDestinationPort => Some((t.destination_port, 0xFFFFu32)),
            Field::TcpSequence => Some((t.sequence, 0xFFFF_FFFFu32)),
            Field::TcpAcknowledgement => Some((t.acknowledgement, 0xFFFF_FFFFu32)),
            Field::TcpDataOffset => Some((t.data_offset, 15u32)),
            Field::TcpWindow => Some((t.window, 0xFFFFu32)),
            Field::TcpUrgentPointer => Some((t.urgent_pointer, 0xFFFFu32)),
            Field::TcpChecksum => Some((t.checksum, 0xFFFFu32)),
            _ => None,
        },
        Layer::Udp(u) => match field {
            Field::UdpSourcePort => Some((FieldValue::Override(u.source_port), 0xFFFFu32)),
            Field::UdpDestinationPort => Some((FieldValue::Override(u.destination_port), 0xFFFFu32)),
            Field::UdpLength => Some((u.length, 0xFFFFu32)),
            Field::UdpChecksum => Some((u.checksum, 0xFFFFu32)),
            _ => None,
        },
        Layer::Icmp(c) => match field {
            Field::IcmpCode => Some((c.code, 255u32)),
            Field::IcmpChecksum => Some((c.checksum, 0xFFFFu32)),
            _ => None,
        },
    }
}

/// The setting behind each field a build reads.
pub open spec fn packet_setting(spec: FullPacketSpec, field: Field) -> Option<(FieldValue, u32)> {
    if ipv4_setting(spec.ip, field) is Some {
        ipv4_setting(spec.ip, field)
    } else {
        layer_setting(spec.layer, field)
    }
}

/// Whether a setting is an override that does not parse.
pub open spec fn setting_is_bad(setting: Option<(FieldValue, u32)>) -> bool {
    match setting {
        Some((v, max)) => unparseable(v, max),
        None => false,
    }
}

/// The fields that set a header's size in words: an override that parses
/// may still leave too little room for the options.
pub open spec fn sets_header_words(field: Field) -> bool {
    field == Field::IpHeaderLength || field == Field::TcpDataOffset
}

/// Whether a setting is an override with text `raw` that is refused: it does
/// not parse, or it sets a header's size to fewer words than its options need.
pub open spec fn setting_refused_with(
    setting: Option<(FieldValue, u32)>,
    field: Field,
    raw: Seq<char>,
) -> bool {
    match setting {
        Some((v, max)) => v is Override && v->Override_0@ == raw && (unparseable(v, max)
            || sets_header_words(field)),
        None => false,
    }
}

/// Whether `e`, if it is a field error, names a setting refused with its text.
pub open spec fn names_bad_setting(
    settings: spec_fn(Field) -> Option<(FieldValue, u32)>,
    e: BuildErrorView,
) -> bool {
    match e {
        BuildErrorView::FieldParse { field, raw } => setting_refused_with(settings(field), field, raw),
        _ => true,
    }
}

/// Fail-fast for IPv4: an IPv4 field whose override does not parse makes
/// the datagram fail, and each field error names a refused override and its text.
pub proof fn ipv4_fail_fast(spec: Ipv4Spec, protocol: u8, payload: Seq<u8>, field: Field)
    ensures
        setting_is_bad(ipv4_setting(spec, field)) ==> ipv4_datagram(spec, protocol, payload) is Err,
        ipv4_datagram(spec, protocol, payload) is Err ==> names_bad_setting(
            |f: Field| ipv4_setting(spec, f),
            ipv4_datagram(spec, protocol, payload)->Err_0,
        ),
{
}

/// Fail-fast for TCP: a TCP field whose override does not parse makes the
/// segment fail, and each field error names a refused override and its text.
pub proof fn tcp_fail_fast(
    spec: TcpSpec,
    source: Seq<u8>,
    destination: Seq<u8>,
    auto_source_port: u16,
    auto_destination_port: u16,
    field: Field,
)
    ensures
        setting_is_bad(layer_setting(Layer::Tcp(spec), field)) ==> tcp_segment(
            spec,
            source,
            destination,
            auto_source_port,
            auto_destination_port,
        ) is Err,
        tcp_segment(spec, source, destination, auto_source_port, auto_destination_port) is Err
            ==> names_bad_setting(
            |f: Field| layer_setting(Layer::Tcp(spec), f),
            tcp_segment(spec, source, destination, auto_source_port, auto_destination_port)->Err_0,
        ),
{
}

/// Fail-fast for UDP: a UDP field whose text does not parse (a missing port
/// included) makes the datagram fail, and each field error names such a
/// field and its text.
pub proof fn udp_fail_fast(spec: UdpSpec, source: Seq<u8>, destination: Seq<u8>, field: Field)
    ensures
        setting_is_bad(layer_setting(Layer::Udp(spec), field)) ==> udp_datagram(
            spec,
            source,
            destination,
        ) is Err,
        udp_datagram(spec, source, destination) is Err ==> names_bad_setting(
            |f: Field| layer_setting(Layer::Udp(spec), f),
            udp_datagram(spec, source, destination)->Err_0,
        ),
{
}

/// Fail-fast for ICMP: a code or checksum override that does not parse
/// makes the message fail, and each field error names it and its text.
pub proof fn icmp_fail_fast(spec: IcmpSpec, field: Field)
    ensures
        setting_is_bad(layer_setting(Layer::Icmp(spec), field)) ==> icmp_message(spec) is Err,
        icmp_message(spec) is Err ==> names_bad_setting(
            |f: Field| layer_setting(Layer::Icmp(spec), f),
            icmp_message(spec)->Err_0,
        ),
{
}

/// Fail-fast: when any field the build reads holds an override that does
/// not parse, the build yields no bytes; and every field error the build
/// reports names a refused override (one that does not parse, or a header
/// size too small for the options), with its text.
pub proof fn fail_fast(spec: FullPacketSpec, auto_source_port: u16, auto_destination_port: u16, field: Field)
    ensures
        setting_is_bad(packet_setting(spec, field)) ==> packet_frame(
            spec,
            auto_source_port,
            auto_destination_port,
        ) is Err,
        packet_frame(spec, auto_source_port, auto_destination_port) is Err ==> names_bad_setting(
            |f: Field| packet_setting(spec, f),
            packet_frame(spec, auto_source_port, auto_destination_port)->Err_0,
        ),
{
    let seg = segment_of(spec, auto_source_port, auto_destination_port);
    let r = packet_frame(spec, auto_source_port, auto_destination_port);
    let src = parse_ipv4(spec.ip.source@)->0;
    let dst = parse_ipv4(spec.ip.destination@)->0;
    match spec.layer {
        Layer::Tcp(t) => {
            tcp_fail_fast(t, src, dst, auto_source_port, auto_destination_port, field);
            if r is Err && r->Err_0 is FieldParse {
                tcp_fail_fast(t, src, dst, auto_source_port, auto_destination_port, r->Err_0->FieldParse_field);
            }
        },
        Layer::Udp(u) => {
            udp_fail_fast(u, src, dst, field);
            if r is Err && r->Err_0 is FieldParse {
                udp_fail_fast(u, src, dst, r->Err_0->FieldParse_field);
            }
        },
        Layer::Icmp(c) => {
            icmp_fail_fast(c, field);
            if r is Err && r->Err_0 is FieldParse {
                icmp_fail_fast(c, r->Err_0->FieldParse_field);
            }
        },
        Layer::Ip(_) => {},
    }
    if seg is Ok {
        let (protocol, bytes) = seg->Ok_0;
        ipv4_fail_fast(spec.ip, protocol, bytes, field);
        if r is Err && r->Err_0 is FieldParse {
            ipv4_fail_fast(spec.ip, protocol, bytes, r->Err_0->FieldParse_field);
        }
    }
}

/// Folding keeps the value modulo 0xFFFF and lands in 1..=0xFFFF for a
/// positive sum.
pub proof fn lemma_fold_carries(s: nat)
    ensures
        fold_carries(s) % 0xFFFF == s % 0xFFFF,
        fold_carries(s) <= 0xFFFF,
        s > 0 ==> fold_carries(s) >= 1,
        s == 0 ==> fold_carries(s) == 0,
    decreases s,
{
    if s >= 0x10000 {
        let q = s / 0x10000;
        let r = s % 0x10000;
        let t = q + r;
        assert(s == 0x10000 * q + r);
        assert(t < s);
        assert(s == t + 0xFFFF * q);
        assert((t + 0xFFFF * q) % 0xFFFF == t % 0xFFFF) by (nonlinear_arith);
        assert(t > 0);
        lemma_fold_carries(t);
    }
}

/// A sum plus the complement of its fold folds to 0xFFFF: its complement is zero.
pub proof fn lemma_sum_with_checksum(s: nat)
    ensures
        complement(s + (0xFFFF - fold_carries(s)) as nat) == 0,
{
    lemma_fold_carries(s);
    let f = fold_carries(s);
    let s2 = (s + (0xFFFF - f)) as nat;
    lemma_fold_carries(s2);
    if s > 0 {
        assert(s2 % 0xFFFF == 0) by {
            assert(s % 0xFFFF == f % 0xFFFF);
            assert((s + (0xFFFF - f)) % 0xFFFF == (f % 0xFFFF + (0xFFFF - f)) % 0xFFFF) by (
            nonlinear_arith)
                requires
                    s % 0xFFFF == f % 0xFFFF,
                    f <= 0xFFFF,
            ;
            if f == 0xFFFF {
            } else {
                assert(f % 0xFFFF == f);
            }
        }
        assert(fold_carries(s2) == 0xFFFF);
    } else {
        assert(s2 == 0xFFFF);
    }
}

/// Leaving no word out adds the otherwise skipped word.
pub proof fn lemma_word_sum_with_word(data: Seq<u8>, skip: int, other: int, n: int)
    requires
        0 <= skip < n <= word_count(data),
        other >= word_count(data),
    ensures
        word_sum(data, other, n) == word_sum(data, skip, n) + word_at(data, skip),
    decreases n,
{
    if n - 1 > skip {
        lemma_word_sum_with_word(data, skip, other, n - 1);
    } else {
        lemma_word_sum_zero_skip(data, skip, other, n - 1);
    }
}

proof fn lemma_word_sum_zero_skip(data: Seq<u8>, skip: int, other: int, n: int)
    requires
        0 <= n <= skip < word_count(data),
        other >= word_count(data),
    ensures
        word_sum(data, other, n) == word_sum(data, skip, n),
    decreases n,
{
    if n > 0 {
        lemma_word_sum_zero_skip(data, skip, other, n - 1);
    }
}

/// Verification: with an automatic checksum, the checksum of the whole
/// built IPv4 header, checksum field included, is zero.
#[verifier::rlimit(40)]
pub proof fn ipv4_checksum_verifies(spec: Ipv4Spec, protocol: u8, payload: Seq<u8>)
    requires
        ipv4_datagram(spec, protocol, payload) is Ok,
        spec.checksum is Auto,
    ensures
        ({
            let d = ipv4_datagram(spec, protocol, payload)->Ok_0;
            let header = d.subrange(0, decode_ipv4_header(d).header_length as int * 4);
            internet_checksum(header, word_count(header)) == 0
        }),
{
    let options = options_area(OptionTable::Ipv4, spec.options@, Field::IpOptions)->Ok_0;
    let h = ipv4_header_fields(spec, protocol, options.len(), payload.len())->Ok_0;
    let unsummed = ipv4_header_area(h, options);
    let c = internet_checksum(unsummed, 5);
    let hc = Ipv4HeaderView { checksum: c, ..h };
    let d = ipv4_datagram(spec, protocol, payload)->Ok_0;
    let fill = zeros(hc.header_length * 4 - 20 - options.len());
    assert(d == ipv4_header_area(hc, options) + payload);
    assert(ipv4_header_fits(hc));
    lemma_ipv4_header_decode(hc, options + fill + payload);
    assert(d =~= ipv4_header_bytes(hc) + (options + fill + payload));
    let header = d.subrange(0, hc.header_length as int * 4);
    assert(header =~= ipv4_header_area(hc, options));
    let n = word_count(header);
    lemma_word_sum_ignores_skipped(header, unsummed, 5, n);
    lemma_word_sum_with_word(header, 5, n, n);
    assert(header[10] == (c / 256) as u8 && header[11] == (c % 256) as u8);
    assert(word_at(header, 5) == c);
    lemma_fold_carries(word_sum(unsummed, 5, n));
    lemma_sum_with_checksum(word_sum(unsummed, 5, n));
}

/// Verification: with an automatic checksum, the pseudo-header checksum of
/// the whole built TCP segment, checksum field included, is zero.
#[verifier::rlimit(40)]
pub proof fn tcp_checksum_verifies(
    spec: TcpSpec,
    source: Seq<u8>,
    destination: Seq<u8>,
    auto_source_port: u16,
    auto_destination_port: u16,
)
    requires
        tcp_segment(spec, source, destination, auto_source_port, auto_destination_port) is Ok,
        spec.checksum is Auto,
    ensures
        ({
            let s = tcp_segment(spec, source, destination, auto_source_port, auto_destination_port)->Ok_0;
            pseudo_header_checksum(s, word_count(s), source, destination, PROTOCOL_TCP) == 0
        }),
{
    let options = options_area(OptionTable::Tcp, spec.options@, Field::TcpOptions)->Ok_0;
    let h = tcp_header_fields(spec, options.len(), auto_source_port, auto_destination_port)->Ok_0;
    let unsummed = tcp_header_area(h, options) + spec.payload@;
    let c = pseudo_header_checksum(unsummed, 8, source, destination, PROTOCOL_TCP);
    let hc = TcpHeader { checksum: c, ..h };
    let s = tcp_segment(spec, source, destination, auto_source_port, auto_destination_port)->Ok_0;
    assert(s == tcp_header_area(hc, options) + spec.payload@);
    let n = word_count(s);
    lemma_word_sum_ignores_skipped(s, unsummed, 8, n);
    lemma_word_sum_with_word(s, 8, n, n);
    assert(s[16] == (c / 256) as u8 && s[17] == (c % 256) as u8);
    assert(word_at(s, 8) == c);
    let total = crate::checksum::pseudo_header_sum(source, destination, PROTOCOL_TCP, s.len()) + word_sum(
        unsummed,
        8,
        n,
    );
    assert(unsummed.len() == s.len());
    lemma_fold_carries(total);
    lemma_sum_with_checksum(total);
    assert(crate::checksum::pseudo_header_sum(source, destination, PROTOCOL_TCP, s.len()) + word_sum(s, n, n) == total + c);
}

/// Verification: with an automatic checksum, the pseudo-header checksum of
/// the whole built UDP datagram, checksum field included, is zero.
#[verifier::rlimit(40)]
pub proof fn udp_checksum_verifies(spec: UdpSpec, source: Seq<u8>, destination: Seq<u8>)
    requires
        udp_datagram(spec, source, destination) is Ok,
        spec.checksum is Auto,
    ensures
        ({
            let u = udp_datagram(spec, source, destination)->Ok_0;
            pseudo_header_checksum(u, word_count(u), source, destination, PROTOCOL_UDP) == 0
        }),
{
    let sp = parse_decimal(spec.source_port@, 0xFFFF)->0 as u16;
    let dp = parse_decimal(spec.destination_port@, 0xFFFF)->0 as u16;
    let len = resolved(spec.length, auto_udp_length(spec.payload@.len()), 0xFFFF)->0 as u16;
    let unsummed = udp_header_bytes(sp, dp, len, 0) + spec.payload@;
    let c = pseudo_header_checksum(unsummed, 3, source, destination, PROTOCOL_UDP);
    let u = udp_datagram(spec, source, destination)->Ok_0;
    assert(u == udp_header_bytes(sp, dp, len, c) + spec.payload@);
    let n = word_count(u);
    lemma_word_sum_ignores_skipped(u, unsummed, 3, n);
    lemma_word_sum_with_word(u, 3, n, n);
    assert(u[6] == (c / 256) as u8 && u[7] == (c % 256) as u8);
    assert(word_at(u, 3) == c);
    let total = crate::checksum::pseudo_header_sum(source, destination, PROTOCOL_UDP, u.len()) + word_sum(
        unsummed,
        3,
        n,
    );
    assert(unsummed.len() == u.len());
    lemma_fold_carries(total);
    lemma_sum_with_checksum(total);
    assert(crate::checksum::pseudo_header_sum(source, destination, PROTOCOL_UDP, u.len()) + word_sum(u, n, n) == total + c);
}

/// Verification: with an automatic checksum, the checksum of the whole
/// built ICMP message, checksum field included, is zero.
pub proof fn icmp_checksum_verifies(spec: IcmpSpec)
    requires
        icmp_message(spec) is Ok,
        spec.checksum is Auto,
    ensures
        internet_checksum(icmp_message(spec)->Ok_0, word_count(icmp_message(spec)->Ok_0)) == 0,
{
    let t = icmp_type_number(spec.icmp_type);
    let code = resolved(spec.code, AUTO_ICMP_CODE, 255)->0 as u8;
    let unsummed = icmp_header_bytes(t, code, 0) + icmp_payload(spec);
    let c = internet_checksum(unsummed, 1);
    let m = icmp_message(spec)->Ok_0;
    assert(m == icmp_header_bytes(t, code, c) + icmp_payload(spec));
    let n = word_count(m);
    lemma_word_sum_ignores_skipped(m, unsummed, 1, n);
    lemma_word_sum_with_word(m, 1, n, n);
    assert(m[2] == (c / 256) as u8 && m[3] == (c % 256) as u8);
    assert(word_at(m, 1) == c);
    lemma_fold_carries(word_sum(unsummed, 1, n));
    lemma_sum_with_checksum(word_sum(unsummed, 1, n));
}

/// Round trip through the whole frame: after the 14-byte Ethernet header
/// lies an IPv4 header that decodes to the IP settings, and after its
/// options lies exactly the segment the layer's builder gave.
pub proof fn frame_round_trip(spec: FullPacketSpec, auto_source_port: u16, auto_destination_port: u16)
    requires
        packet_frame(spec, auto_source_port, auto_destination_port) is Ok,
    ensures
        ({
            let f = packet_frame(spec, auto_source_port, auto_destination_port)->Ok_0;
            let seg = segment_of(spec, auto_source_port, auto_destination_port)->Ok_0;
            let h = decode_ipv4_header(f.subrange(14, f.len() as int));
            &&& h.version as u32 == resolved(spec.ip.version, 4, 15)->0
            &&& h.ttl as u32 == resolved(spec.ip.ttl, 64, 255)->0
            &&& h.protocol == seg.0
            &&& h.source == parse_ipv4(spec.ip.source@)->0
            &&& h.destination == parse_ipv4(spec.ip.destination@)->0
            &&& f.subrange(14 + h.header_length * 4, f.len() as int) == seg.1
        }),
{
    frame_layout(spec, auto_source_port, auto_destination_port);
    let f = packet_frame(spec, auto_source_port, auto_destination_port)->Ok_0;
    let seg = segment_of(spec, auto_source_port, auto_destination_port)->Ok_0;
    let d = ipv4_datagram(spec.ip, seg.0, seg.1)->Ok_0;
    ipv4_round_trip(spec.ip, seg.0, seg.1);
    let options = options_area(OptionTable::Ipv4, spec.ip.options@, Field::IpOptions)->Ok_0;
    let hl = decode_ipv4_header(d).header_length as int * 4;
    assert(f.subrange(14, f.len() as int) == d);
    assert(f.subrange(14 + hl, f.len() as int) =~= d.subrange(hl, d.len() as int));
}

} // verus!
