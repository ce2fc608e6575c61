use packet_forge::address::{mac_address, parse_ipv4_text};
use packet_forge::ethernet::frame;
use packet_forge::field::{parse_decimal_text, resolve_field, AddressField, BuildError, Field, FieldValue};
use packet_forge::icmp::{build_icmp, IcmpSpec, IcmpType};
use packet_forge::ipv4::{build_ipv4, Ipv4Spec, Segment};
use packet_forge::options::{encode_options, lookup_option, OptionTable};
use packet_forge::pipeline::{run, run_with_ports, FullPacketSpec, Layer};
use packet_forge::tcp::{build_tcp, encode_tcp, TcpFlags, TcpSpec};
use packet_forge::udp::{build_udp, UdpSpec};

fn auto() -> FieldValue {
    FieldValue::Auto
}

fn set(s: &str) -> FieldValue {
    FieldValue::Override(s.to_string())
}

fn ip_spec(src: &str, dst: &str) -> Ipv4Spec {
    Ipv4Spec {
        source: src.to_string(),
        destination: dst.to_string(),
        version: auto(),
        header_length: auto(),
        dscp: auto(),
        ecn: auto(),
        total_length: auto(),
        identification: auto(),
        fragment_offset: auto(),
        ttl: auto(),
        checksum: auto(),
        dont_fragment: false,
        more_fragments: false,
        reserved_flag: false,
        options: String::new(),
    }
}

fn no_flags() -> TcpFlags {
    TcpFlags { ns: false, cwr: false, ece: false, urg: false, ack: false, psh: false, rst: false, syn: false, fin: false }
}

fn tcp_spec() -> TcpSpec {
    TcpSpec {
        source_port: auto(),
        destination_port: auto(),
        sequence: auto(),
        acknowledgement: auto(),
        data_offset: auto(),
        window: auto(),
        urgent_pointer: auto(),
        checksum: auto(),
        reserved_1: false,
        reserved_2: false,
        reserved_3: false,
        flags: no_flags(),
        options: String::new(),
        payload: Vec::new(),
    }
}

fn udp_spec(src_port: &str, dst_port: &str, payload: &[u8]) -> UdpSpec {
    UdpSpec {
        source_port: src_port.to_string(),
        destination_port: dst_port.to_string(),
        length: auto(),
        checksum: auto(),
        payload: payload.to_vec(),
    }
}

fn icmp_spec() -> IcmpSpec {
    IcmpSpec { icmp_type: IcmpType::EchoRequest, code: auto(), checksum: auto(), payload: Vec::new() }
}

/// An independent one's-complement sum over big-endian words.
fn ones_sum(data: &[u8]) -> u32 {
    let mut sum: u32 = 0;
    let mut i = 0;
    while i < data.len() {
        let hi = data[i] as u32;
        let lo = if i + 1 < data.len() { data[i + 1] as u32 } else { 0 };
        sum += (hi << 8) | lo;
        i += 2;
    }
    while sum > 0xFFFF {
        sum = (sum & 0xFFFF) + (sum >> 16);
    }
    sum
}

fn reference_checksum(data: &[u8]) -> u16 {
    !(ones_sum(data) as u16)
}

fn reference_pseudo_checksum(segment: &[u8], src: [u8; 4], dst: [u8; 4], protocol: u8) -> u16 {
    let mut all = Vec::new();
    all.extend_from_slice(&src);
    all.extend_from_slice(&dst);
    all.push(0);
    all.push(protocol);
    all.push((segment.len() >> 8) as u8);
    all.push(segment.len() as u8);
    all.extend_from_slice(segment);
    reference_checksum(&all)
}

fn be16(b: &[u8], i: usize) -> u16 {
    ((b[i] as u16) << 8) | b[i + 1] as u16
}

#[test]
fn udp_scenario_loopback_empty_payload() {
    let spec = udp_spec("1234", "1234", &[]);
    let out = build_udp(&spec, [127, 0, 0, 1], [127, 0, 0, 1]).unwrap();
    assert_eq!(out.len(), 8);
    assert_eq!(be16(&out, 0), 1234);
    assert_eq!(be16(&out, 2), 1234);
    assert_eq!(be16(&out, 4), 8);
    let mut cleared = out.clone();
    cleared[6] = 0;
    cleared[7] = 0;
    assert_eq!(be16(&out, 6), reference_pseudo_checksum(&cleared, [127, 0, 0, 1], [127, 0, 0, 1], 17));
}

#[test]
fn udp_length_counts_payload() {
    let spec = udp_spec("53", "5353", b"hello");
    let out = build_udp(&spec, [10, 8, 0, 1], [127, 0, 0, 1]).unwrap();
    assert_eq!(out.len(), 13);
    assert_eq!(be16(&out, 4), 13);
    assert_eq!(&out[8..], b"hello");
}

#[test]
fn udp_missing_port_is_an_error() {
    let spec = udp_spec("", "1234", &[]);
    let err = build_udp(&spec, [127, 0, 0, 1], [127, 0, 0, 1]).unwrap_err();
    assert!(matches!(err, BuildError::FieldParse { field: Field::UdpSourcePort, ref raw } if raw.is_empty()));
}

#[test]
fn udp_checksum_override_is_written() {
    let mut spec = udp_spec("1", "2", &[]);
    spec.checksum = set("4660");
    let out = build_udp(&spec, [1, 2, 3, 4], [5, 6, 7, 8]).unwrap();
    assert_eq!(be16(&out, 6), 0x1234);
}

#[test]
fn tcp_syn_scenario_all_auto() {
    let mut spec = tcp_spec();
    spec.flags.syn = true;
    let src = [192, 168, 1, 1];
    let dst = [127, 0, 0, 1];
    let out = build_tcp(&spec, src, dst).unwrap();
    assert_eq!(out.len(), 20);
    let sp = be16(&out, 0);
    let dp = be16(&out, 2);
    assert!((49152..65535).contains(&sp));
    assert!((49152..65535).contains(&dp));
    assert_eq!(&out[4..12], &[0u8; 8]);
    assert_eq!(out[12], 0x50);
    assert_eq!(out[13], 0x02);
    let mut cleared = out.clone();
    cleared[16] = 0;
    cleared[17] = 0;
    assert_eq!(be16(&out, 16), reference_pseudo_checksum(&cleared, src, dst, 6));
}

#[test]
fn tcp_fields_and_options_round_trip() {
    let mut spec = tcp_spec();
    spec.source_port = set("43455");
    spec.destination_port = set("80");
    spec.sequence = set("4294967295");
    spec.acknowledgement = set("7");
    spec.window = set("1024");
    spec.urgent_pointer = set("3");
    spec.flags.ns = true;
    spec.flags.psh = true;
    spec.flags.ack = true;
    spec.reserved_2 = true;
    spec.options = "MSS, WSCALE".to_string();
    spec.payload = b"hello".to_vec();
    let out = encode_tcp(&spec, [192, 168, 1, 1], [127, 0, 0, 1], 50000, 50001).unwrap();
    assert_eq!(out.len(), 24 + 5);
    assert_eq!(be16(&out, 0), 43455);
    assert_eq!(be16(&out, 2), 80);
    assert_eq!(&out[4..8], &[255, 255, 255, 255]);
    assert_eq!(&out[8..12], &[0, 0, 0, 7]);
    assert_eq!(out[12], 0x60 | (2 << 1) | 1);
    assert_eq!(out[13], 0x18);
    assert_eq!(be16(&out, 14), 1024);
    assert_eq!(be16(&out, 18), 3);
    assert_eq!(&out[20..24], &[2, 3, 0, 0]);
    assert_eq!(&out[24..], b"hello");
}

#[test]
fn tcp_auto_ports_take_given_values() {
    let spec = tcp_spec();
    let out = encode_tcp(&spec, [1, 1, 1, 1], [2, 2, 2, 2], 50000, 60000).unwrap();
    assert_eq!(be16(&out, 0), 50000);
    assert_eq!(be16(&out, 2), 60000);
}

#[test]
fn tcp_unknown_option_is_named() {
    let mut spec = tcp_spec();
    spec.options = "NOP, BOGUS".to_string();
    let err = encode_tcp(&spec, [1, 1, 1, 1], [2, 2, 2, 2], 50000, 50000).unwrap_err();
    match err {
        BuildError::UnsupportedOption { token } => assert_eq!(token.iter().collect::<String>(), "BOGUS"),
        other => panic!("unexpected {:?}", other),
    }
}

#[test]
fn tcp_too_many_options() {
    let mut spec = tcp_spec();
    spec.options = vec!["MSS"; 41].join(",");
    let err = encode_tcp(&spec, [1, 1, 1, 1], [2, 2, 2, 2], 50000, 50000).unwrap_err();
    assert!(matches!(err, BuildError::OptionsTooLong { field: Field::TcpOptions }));
}

#[test]
fn tcp_bad_sequence_names_the_field() {
    let mut spec = tcp_spec();
    spec.sequence = set("4294967296");
    let err = encode_tcp(&spec, [1, 1, 1, 1], [2, 2, 2, 2], 50000, 50000).unwrap_err();
    assert!(matches!(err, BuildError::FieldParse { field: Field::TcpSequence, ref raw } if raw == "4294967296"));
}

#[test]
fn ipv4_options_nop_eol() {
    let mut spec = ip_spec("127.0.0.1", "127.0.0.1");
    spec.options = "NOP,EOL".to_string();
    let out = build_ipv4(&spec, 0, &[]).unwrap();
    assert_eq!(out.len(), 24);
    assert_eq!(&out[20..22], &[1, 0]);
    assert_eq!(&out[22..24], &[0, 0]);
    assert_eq!(out[0], 0x46);
    assert_eq!(be16(&out, 2), 24);
}

#[test]
fn ipv4_all_auto_defaults() {
    let spec = ip_spec("10.0.0.1", "10.0.0.2");
    let out = build_ipv4(&spec, 6, b"abcd").unwrap();
    assert_eq!(out.len(), 24);
    assert_eq!(out[0] >> 4, 4);
    assert_eq!(out[0] & 0x0f, 5);
    assert_eq!(out[1], 0);
    assert_eq!(be16(&out, 2), 24);
    assert_eq!(be16(&out, 4), 12345);
    assert_eq!(be16(&out, 6), 0);
    assert_eq!(out[8], 64);
    assert_eq!(out[9], 6);
    assert_eq!(&out[12..16], &[10, 0, 0, 1]);
    assert_eq!(&out[16..20], &[10, 0, 0, 2]);
    assert_eq!(&out[20..], b"abcd");
}

#[test]
fn ipv4_known_header_checksum() {
    let mut spec = ip_spec("192.168.0.1", "192.168.0.199");
    spec.total_length = set("115");
    spec.identification = set("0");
    spec.dont_fragment = true;
    let out = build_ipv4(&spec, 17, &[]).unwrap();
    assert_eq!(
        out,
        vec![0x45, 0x00, 0x00, 0x73, 0x00, 0x00, 0x40, 0x00, 0x40, 0x11, 0xb8, 0x61, 0xc0, 0xa8, 0x00, 0x01, 0xc0, 0xa8, 0x00, 0xc7]
    );
}

#[test]
fn ipv4_checksum_self_check() {
    let mut spec = ip_spec("172.16.5.9", "8.8.8.8");
    spec.options = "RR, NOP".to_string();
    spec.more_fragments = true;
    spec.reserved_flag = true;
    spec.dscp = set("46");
    spec.ecn = set("3");
    spec.fragment_offset = set("8191");
    let out = build_ipv4(&spec, 1, b"xyz").unwrap();
    assert_eq!(out[0] & 0x0f, 6);
    assert_eq!(out[1], (46 << 2) | 3);
    assert_eq!(out[6], (0b101 << 5) | 0x1f);
    assert_eq!(out[7], 0xff);
    assert_eq!(&out[20..24], &[7, 1, 0, 0]);
    let mut header = out[..24].to_vec();
    let written = be16(&header, 10);
    header[10] = 0;
    header[11] = 0;
    assert_eq!(reference_checksum(&header), written);
    assert_eq!(ones_sum(&out[..24]), 0xFFFF);
}

#[test]
fn ipv4_length_consistency_with_options() {
    let mut spec = ip_spec("1.2.3.4", "5.6.7.8");
    spec.options = "TS".to_string();
    let payload = vec![9u8; 100];
    let out = build_ipv4(&spec, 0, &payload).unwrap();
    let ihl = (out[0] & 0x0f) as usize;
    assert_eq!(ihl, 6);
    assert_eq!(be16(&out, 2) as usize, ihl * 4 + payload.len());
    assert_eq!(out.len(), ihl * 4 + payload.len());
}

#[test]
fn ipv4_bad_ttl_is_named() {
    let mut spec = ip_spec("1.2.3.4", "5.6.7.8");
    spec.ttl = set("abc");
    let err = build_ipv4(&spec, 0, &[]).unwrap_err();
    assert!(matches!(err, BuildError::FieldParse { field: Field::IpTtl, ref raw } if raw == "abc"));
}

#[test]
fn ipv4_version_out_of_range() {
    let mut spec = ip_spec("1.2.3.4", "5.6.7.8");
    spec.version = set("16");
    let err = build_ipv4(&spec, 0, &[]).unwrap_err();
    assert!(matches!(err, BuildError::FieldParse { field: Field::IpVersion, .. }));
}

#[test]
fn ipv4_bad_source_address() {
    let spec = ip_spec("1.2.3", "5.6.7.8");
    let err = build_ipv4(&spec, 0, &[]).unwrap_err();
    assert!(matches!(err, BuildError::AddressParse { which: AddressField::IpSource, ref raw } if raw == "1.2.3"));
}

#[test]
fn ipv4_unknown_option() {
    let mut spec = ip_spec("1.2.3.4", "5.6.7.8");
    spec.options = "NOP, MSS".to_string();
    let err = build_ipv4(&spec, 0, &[]).unwrap_err();
    match err {
        BuildError::UnsupportedOption { token } => assert_eq!(token.iter().collect::<String>(), "MSS"),
        other => panic!("unexpected {:?}", other),
    }
}

#[test]
fn ipv4_header_length_override_sets_layout() {
    let mut spec = ip_spec("1.2.3.4", "5.6.7.8");
    spec.header_length = set("6");
    let out = build_ipv4(&spec, 0, b"data").unwrap();
    assert_eq!(out.len(), 28);
    assert_eq!(out[0], 0x46);
    assert_eq!(be16(&out, 2), 28);
    assert_eq!(&out[20..24], &[0, 0, 0, 0]);
    assert_eq!(&out[24..], b"data");
    let mut header = out[..24].to_vec();
    let written = be16(&header, 10);
    header[10] = 0;
    header[11] = 0;
    assert_eq!(reference_checksum(&header), written);
}

#[test]
fn ipv4_header_length_too_small_for_options() {
    let mut spec = ip_spec("1.2.3.4", "5.6.7.8");
    spec.options = "NOP".to_string();
    spec.header_length = set("5");
    let err = build_ipv4(&spec, 0, &[]).unwrap_err();
    assert!(matches!(err, BuildError::FieldParse { field: Field::IpHeaderLength, ref raw } if raw == "5"));
}

#[test]
fn ipv4_datagram_too_long() {
    let spec = ip_spec("1.2.3.4", "5.6.7.8");
    assert!(build_ipv4(&spec, 0, &vec![0u8; 65515]).is_ok());
    let err = build_ipv4(&spec, 0, &vec![0u8; 65516]).unwrap_err();
    assert!(matches!(err, BuildError::TooLong { field: Field::IpTotalLength }));
}

#[test]
fn tcp_data_offset_override_sets_layout() {
    let mut spec = tcp_spec();
    spec.data_offset = set("6");
    spec.payload = b"xy".to_vec();
    let out = encode_tcp(&spec, [1, 1, 1, 1], [2, 2, 2, 2], 50000, 50000).unwrap();
    assert_eq!(out.len(), 26);
    assert_eq!(out[12] >> 4, 6);
    assert_eq!(&out[20..24], &[0, 0, 0, 0]);
    assert_eq!(&out[24..], b"xy");
    let mut small = tcp_spec();
    small.options = "NOP".to_string();
    small.data_offset = set("5");
    let err = encode_tcp(&small, [1, 1, 1, 1], [2, 2, 2, 2], 50000, 50000).unwrap_err();
    assert!(matches!(err, BuildError::FieldParse { field: Field::TcpDataOffset, .. }));
}

#[test]
fn icmp_echo_request_default_code() {
    let out = build_icmp(&icmp_spec()).unwrap();
    assert_eq!(out[0], 8);
    assert_eq!(out[1], 8);
    assert_eq!(&out[4..], b"ICMP request");
    let mut cleared = out.clone();
    cleared[2] = 0;
    cleared[3] = 0;
    assert_eq!(be16(&out, 2), reference_checksum(&cleared));
}

#[test]
fn icmp_reply_with_code_and_data() {
    let spec = IcmpSpec { icmp_type: IcmpType::EchoReply, code: set("0"), checksum: auto(), payload: b"ping".to_vec() };
    let out = build_icmp(&spec).unwrap();
    assert_eq!(&out[..2], &[0, 0]);
    assert_eq!(&out[4..], b"ping");
}

#[test]
fn icmp_bad_code() {
    let mut spec = icmp_spec();
    spec.code = set("300");
    let err = build_icmp(&spec).unwrap_err();
    assert!(matches!(err, BuildError::FieldParse { field: Field::IcmpCode, ref raw } if raw == "300"));
}

#[test]
fn ethernet_frame_of_twenty_byte_datagram() {
    let datagram = build_ipv4(&ip_spec("127.0.0.1", "127.0.0.1"), 0, &[]).unwrap();
    assert_eq!(datagram.len(), 20);
    let f = frame([0xff; 6], [10, 1, 1, 1, 1, 1], &datagram);
    assert_eq!(f.len(), 34);
    assert_eq!(&f[..6], &[0xff; 6]);
    assert_eq!(&f[6..12], &[10, 1, 1, 1, 1, 1]);
    assert_eq!(&f[12..14], &[0x08, 0x00]);
    assert_eq!(&f[14..], &datagram[..]);
}

#[test]
fn decimal_parsing_rules() {
    assert_eq!(parse_decimal_text("0", 255), Some(0));
    assert_eq!(parse_decimal_text("+7", 255), Some(7));
    assert_eq!(parse_decimal_text("255", 255), Some(255));
    assert_eq!(parse_decimal_text("256", 255), None);
    assert_eq!(parse_decimal_text("-1", 255), None);
    assert_eq!(parse_decimal_text(" 1", 255), None);
    assert_eq!(parse_decimal_text("", 255), None);
    assert_eq!(parse_decimal_text("+", 255), None);
    assert_eq!(parse_decimal_text("00012", 255), Some(12));
    assert_eq!(parse_decimal_text("99999999999999999999", 0xFFFF_FFFF), None);
}

#[test]
fn resolve_field_auto_and_override() {
    assert_eq!(resolve_field(&auto(), Field::IpTtl, 64, 255).unwrap(), 64);
    assert_eq!(resolve_field(&set("12"), Field::IpTtl, 64, 255).unwrap(), 12);
    assert!(resolve_field(&set("x"), Field::IpTtl, 64, 255).is_err());
}

#[test]
fn dotted_decimal_rules() {
    assert_eq!(parse_ipv4_text("192.168.0.1"), Some([192, 168, 0, 1]));
    assert_eq!(parse_ipv4_text("0.0.0.0"), Some([0, 0, 0, 0]));
    assert_eq!(parse_ipv4_text("256.0.0.1"), None);
    assert_eq!(parse_ipv4_text("01.2.3.4"), None);
    assert_eq!(parse_ipv4_text("1.2.3.4.5"), None);
    assert_eq!(parse_ipv4_text("1..3.4"), None);
    assert_eq!(parse_ipv4_text(""), None);
}

#[test]
fn mac_address_parsing() {
    let ok = mac_address(&"12:34:56:78:90:ab".to_string(), AddressField::MacSource).unwrap();
    assert_eq!(ok, [0x12, 0x34, 0x56, 0x78, 0x90, 0xab]);
    let short = mac_address(&"1:2:3:4:5:6".to_string(), AddressField::MacSource).unwrap();
    assert_eq!(short, [1, 2, 3, 4, 5, 6]);
    let dotted = mac_address(&"aa.bb.cc.dd.ee.ff".to_string(), AddressField::MacDestination).unwrap();
    assert_eq!(dotted, [0xaa, 0xbb, 0xcc, 0xdd, 0xee, 0xff]);
    let err = mac_address(&"aa-bb-cc-dd-ee-ff".to_string(), AddressField::MacDestination).unwrap_err();
    assert!(matches!(err, BuildError::AddressParse { which: AddressField::MacDestination, ref raw } if raw == "aa-bb-cc-dd-ee-ff"));
    assert!(mac_address(&"1:2:3:4:5:6:7".to_string(), AddressField::MacSource).is_err());
    assert!(mac_address(&"1:2:3:4:5:100".to_string(), AddressField::MacSource).is_err());
}

#[test]
fn option_table_lookup() {
    let name: Vec<char> = "SACK_PERMITTED".chars().collect();
    assert_eq!(lookup_option(OptionTable::Tcp, &name), Some(4));
    assert_eq!(lookup_option(OptionTable::Ipv4, &name), None);
    let exp: Vec<char> = "EXP".chars().collect();
    assert_eq!(lookup_option(OptionTable::Ipv4, &exp), Some(30));
}

#[test]
fn options_are_trimmed_and_padded() {
    let out = encode_options(OptionTable::Ipv4, "  SEC ,\tNOP ", Field::IpOptions).unwrap();
    assert_eq!(out, vec![2, 1, 0, 0]);
    let none = encode_options(OptionTable::Ipv4, "", Field::IpOptions).unwrap();
    assert!(none.is_empty());
    assert!(encode_options(OptionTable::Ipv4, "NOP,", Field::IpOptions).is_err());
}

#[test]
fn segment_protocols() {
    assert_eq!(Segment::TCPPacket(vec![1]).get_protocol(), 6);
    assert_eq!(Segment::UDPPacket(vec![]).get_protocol(), 17);
    assert_eq!(Segment::ICMPPacket(vec![]).get_protocol(), 1);
    assert_eq!(Segment::RawData(vec![]).get_protocol(), 0);
    assert_eq!(Segment::TCPPacket(vec![1, 2]).payload(), &[1, 2]);
    assert_eq!(Segment::UDPPacket(vec![9, 9, 9]).to_bytes(), vec![0, 0, 0, 0]);
}

fn full(layer: Layer) -> FullPacketSpec {
    FullPacketSpec {
        ip: ip_spec("127.0.0.1", "127.0.0.1"),
        layer,
        source_mac: "0a:01:01:01:01:01".to_string(),
        destination_mac: "ff:ff:ff:ff:ff:ff".to_string(),
    }
}

#[test]
fn pipeline_udp_frame() {
    let spec = full(Layer::Udp(udp_spec("1234", "1234", &[])));
    let f = run(&spec).unwrap();
    assert_eq!(f.len(), 14 + 20 + 8);
    assert_eq!(&f[12..14], &[0x08, 0x00]);
    assert_eq!(f[14 + 9], 17);
    assert_eq!(be16(&f, 14 + 2), 28);
    assert_eq!(be16(&f, 14 + 20 + 4), 8);
}

#[test]
fn pipeline_ip_only_raw_payload() {
    let spec = full(Layer::Ip(b"raw".to_vec()));
    let f = run_with_ports(&spec, 50000, 50000).unwrap();
    assert_eq!(f.len(), 14 + 20 + 3);
    assert_eq!(f[14 + 9], 0);
    assert_eq!(&f[34..], b"raw");
}

#[test]
fn pipeline_icmp_and_tcp_protocol_numbers() {
    let f = run(&full(Layer::Icmp(icmp_spec()))).unwrap();
    assert_eq!(f[14 + 9], 1);
    assert_eq!(f[34], 8);
    let t = run_with_ports(&full(Layer::Tcp(tcp_spec())), 50000, 50001).unwrap();
    assert_eq!(t[14 + 9], 6);
    assert_eq!(be16(&t, 34), 50000);
    assert_eq!(be16(&t, 36), 50001);
}

#[test]
fn pipeline_bad_mac_fails_whole_build() {
    let mut spec = full(Layer::Ip(Vec::new()));
    spec.destination_mac = "zz:ff:ff:ff:ff:ff".to_string();
    let err = run(&spec).unwrap_err();
    assert!(matches!(err, BuildError::AddressParse { which: AddressField::MacDestination, .. }));
}

#[test]
fn pipeline_udp_reads_addresses_first() {
    let mut spec = full(Layer::Udp(udp_spec("", "1", &[])));
    spec.ip.destination = "nowhere".to_string();
    let err = run(&spec).unwrap_err();
    assert!(matches!(err, BuildError::AddressParse { which: AddressField::IpDestination, .. }));
}

#[test]
fn pipeline_first_failing_field_wins() {
    let mut spec = full(Layer::Icmp(icmp_spec()));
    spec.ip.ttl = set("999");
    spec.source_mac = "bad".to_string();
    let err = run(&spec).unwrap_err();
    assert!(matches!(err, BuildError::FieldParse { field: Field::IpTtl, .. }));
}

#[test]
fn udp_largest_length_that_fits() {
    let payload = vec![0xabu8; 65527];
    let spec = udp_spec("7", "9", &payload);
    let out = build_udp(&spec, [10, 0, 0, 1], [10, 0, 0, 2]).unwrap();
    assert_eq!(out.len(), 65535);
    assert_eq!(be16(&out, 4), 65535);
    let mut cleared = out.clone();
    cleared[6] = 0;
    cleared[7] = 0;
    assert_eq!(be16(&out, 6), reference_pseudo_checksum(&cleared, [10, 0, 0, 1], [10, 0, 0, 2], 17));
}

#[test]
fn udp_too_long() {
    let spec = udp_spec("7", "9", &vec![0u8; 65528]);
    let err = build_udp(&spec, [10, 0, 0, 1], [10, 0, 0, 2]).unwrap_err();
    assert!(matches!(err, BuildError::TooLong { field: Field::UdpLength }));
}

#[test]
fn tcp_odd_payload_checksum() {
    let mut spec = tcp_spec();
    spec.payload = b"odd".to_vec();
    spec.flags.fin = true;
    let src = [10, 1, 2, 3];
    let dst = [10, 3, 2, 1];
    let out = encode_tcp(&spec, src, dst, 49152, 65534).unwrap();
    assert_eq!(out.len(), 23);
    let mut cleared = out.clone();
    cleared[16] = 0;
    cleared[17] = 0;
    assert_eq!(be16(&out, 16), reference_pseudo_checksum(&cleared, src, dst, 6));
}
