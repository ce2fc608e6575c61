//! Field resolution: each header field is either computed automatically or
//! given explicitly as decimal text, and every failure names what failed.
use vstd::prelude::*;
use crate::text::chars_of;

verus! {

/// The fields a build reads: the header fields a caller may override, the
/// option lists, and the data of the TCP and ICMP layers.
#[derive(Clone, Copy, Debug, PartialEq, Eq, Structural)]
pub enum Field {
    IpVersion,
    IpHeaderLength,
    IpDscp,
    IpEcn,
    IpTotalLength,
    IpIdentification,
    IpFragmentOffset,
    IpTtl,
    IpChecksum,
    IpOptions,
    TcpSourcePort,
    TcpDestinationPort,
    TcpSequence,
    TcpAcknowledgement,
    TcpDataOffset,
    TcpWindow,
    TcpUrgentPointer,
    TcpChecksum,
    TcpOptions,
    TcpPayload,
    UdpSourcePort,
    UdpDestinationPort,
    UdpLength,
    UdpChecksum,
    IcmpCode,
    IcmpChecksum,
    IcmpPayload,
}

/// The most bytes a 16-bit length field can count.
pub const MAX_DATAGRAM: usize = 65535;

/// The addresses a packet is built from.
#[derive(Clone, Copy, Debug, PartialEq, Eq, Structural)]
pub enum AddressField {
    IpSource,
    IpDestination,
    MacSource,
    MacDestination,
}

/// Why a build was refused. The first failure ends the build.
#[derive(Debug)]
pub enum BuildError {
    /// An override that is not a decimal number of the field's width.
    FieldParse { field: Field, raw: String },
    /// A malformed IPv4 or MAC address.
    AddressParse { which: AddressField, raw: String },
    /// An option name outside the protocol's table.
    UnsupportedOption { token: Vec<char> },
    /// Options that do not fit in the header's 4-bit length (40 bytes).
    OptionsTooLong { field: Field },
    /// More bytes than a 16-bit length can count (65535): an IPv4 or UDP
    /// datagram, or a TCP or ICMP message; `field` names the layer's length
    /// field or its data.
    TooLong { field: Field },
}

/// What a `BuildError` says, with its text as character sequences.
pub enum BuildErrorView {
    FieldParse { field: Field, raw: Seq<char> },
    AddressParse { which: AddressField, raw: Seq<char> },
    UnsupportedOption { token: Seq<char> },
    OptionsTooLong { field: Field },
    TooLong { field: Field },
}

impl View for BuildError {
    type V = BuildErrorView;

    open spec fn view(&self) -> BuildErrorView {
        match self {
            BuildError::FieldParse { field, raw } => BuildErrorView::FieldParse {
                field: *field,
                raw: raw@,
            },
            BuildError::AddressParse { which, raw } => BuildErrorView::AddressParse {
                which: *which,
                raw: raw@,
            },
            BuildError::UnsupportedOption { token } => BuildErrorView::UnsupportedOption {
                token: token@,
            },
            BuildError::OptionsTooLong { field } => BuildErrorView::OptionsTooLong {
                field: *field,
            },
            BuildError::TooLong { field } => BuildErrorView::TooLong { field: *field },
        }
    }
}

/// A build result as values: bytes on success, the error's view on failure.
pub open spec fn bytes_result(r: Result<Vec<u8>, BuildError>) -> Result<Seq<u8>, BuildErrorView> {
    match r {
        Ok(v) => Ok(v@),
        Err(e) => Err(e@),
    }
}

/// A field's setting: computed automatically, or the text the caller typed.
#[derive(Debug)]
pub enum FieldValue {
    Auto,
    Override(String),
}

pub open spec fn is_digit(c: char) -> bool {
    '0' <= c <= '9'
}

pub open spec fn digit_value(c: char) -> nat {
    (c as nat - '0' as nat) as nat
}

/// The number that a string of decimal digits denotes.
pub open spec fn digits_value(s: Seq<char>) -> nat
    decreases s.len(),
{
    if s.len() == 0 {
        0
    } else {
        digits_value(s.drop_last()) * 10 + digit_value(s.last())
    }
}

/// The digits of an unsigned decimal: the text after an optional leading `+`.
pub open spec fn unsigned_digits(s: Seq<char>) -> Seq<char> {
    if s.len() > 0 && s[0] == '+' {
        s.drop_first()
    } else {
        s
    }
}

/// An unsigned decimal no larger than `max`: an optional `+`, then at least
/// one digit and nothing else (no spaces, no sign `-`).
pub open spec fn parse_decimal(s: Seq<char>, max: nat) -> Option<nat> {
    let d = unsigned_digits(s);
    if d.len() > 0 && (forall|i: int| 0 <= i < d.len() ==> is_digit(#[trigger] d[i]))
        && digits_value(d) <= max {
        Some(digits_value(d))
    } else {
        None
    }
}

/// The value a field takes: its automatic value, or the override's number.
pub open spec fn resolved(v: FieldValue, auto: u32, max: u32) -> Option<u32> {
    match v {
        FieldValue::Auto => Some(auto),
        FieldValue::Override(s) => match parse_decimal(s@, max as nat) {
            Some(n) => Some(n as u32),
            None => None,
        },
    }
}

/// The error a field gives when its override does not resolve.
pub open spec fn field_failure(v: FieldValue, field: Field) -> BuildErrorView {
    BuildErrorView::FieldParse {
        field,
        raw: match v {
            FieldValue::Auto => Seq::empty(),
            FieldValue::Override(s) => s@,
        },
    }
}

proof fn lemma_digits_value_monotone(d: Seq<char>, j: int, k: int)
    requires
        0 <= j <= k <= d.len(),
    ensures
        digits_value(d.subrange(0, j)) <= digits_value(d.subrange(0, k)),
    decreases k - j,
{
    if j < k {
        lemma_digits_value_monotone(d, j, k - 1);
        assert(d.subrange(0, k).drop_last() =~= d.subrange(0, k - 1));
    }
}

/// Parses an unsigned decimal no larger than `max`.
pub fn parse_decimal_text(s: &str, max: u32) -> (r: Option<u32>)
    ensures
        match parse_decimal(s@, max as nat) {
            Some(n) => r == Some(n as u32),
            None => r is None,
        },
{
    let cs = chars_of(s);
    parse_decimal_chars(&cs, max)
}

/// Parses an unsigned decimal, given as characters, no larger than `max`.
pub fn parse_decimal_chars(cs: &Vec<char>, max: u32) -> (r: Option<u32>)
    ensures
        match parse_decimal(cs@, max as nat) {
            Some(n) => r == Some(n as u32),
            None => r is None,
        },
{
    let ghost s = cs@;
    let start: usize = if cs.len() > 0 && cs[0] == '+' { 1 } else { 0 };
    let ghost d = unsigned_digits(s);
    assert(d =~= cs@.subrange(start as int, cs@.len() as int));
    if start >= cs.len() {
        return None;
    }
    let mut acc: u64 = 0;
    let mut i: usize = start;
    while i < cs.len()
        invariant
            start <= i <= cs.len(),
            d == cs@.subrange(start as int, cs@.len() as int),
            d == unsigned_digits(s),
            s == cs@,
            forall|k: int| 0 <= k < i - start ==> is_digit(#[trigger] d[k]),
            acc == digits_value(d.subrange(0, i - start)),
            acc <= max,
        decreases cs.len() - i,
    {
        let c = cs[i];
        assert(d[i - start] == c);
        if !('0' <= c && c <= '9') {
            assert(!is_digit(d[i - start]));
            assert(parse_decimal(s, max as nat) is None);
            return None;
        }
        let next: u64 = acc * 10 + (c as u64 - '0' as u64);
        assert(d.subrange(0, i + 1 - start).drop_last() =~= d.subrange(0, i - start));
        assert(d.subrange(0, i + 1 - start).last() == c);
        assert(next == digits_value(d.subrange(0, i + 1 - start)));
        if next > max as u64 {
            proof {
                lemma_digits_value_monotone(d, i + 1 - start, d.len() as int);
                assert(d.subrange(0, d.len() as int) =~= d);
                assert(digits_value(d) > max);
            }
            return None;
        }
        acc = next;
        i = i + 1;
    }
    assert(d.subrange(0, d.len() as int) =~= d);
    Some(acc as u32)
}

/// Resolves a field: its automatic value, or its override parsed as an
/// unsigned decimal no larger than `max`.
pub fn resolve_field(value: &FieldValue, field: Field, auto: u32, max: u32) -> (r: Result<
    u32,
    BuildError,
>)
    ensures
        match resolved(*value, auto, max) {
            Some(n) => r == Ok::<u32, BuildError>(n),
            None => r is Err && r->Err_0@ == field_failure(*value, field),
        },
{
    match value {
        FieldValue::Auto => Ok(auto),
        FieldValue::Override(s) => match parse_decimal_text(s.as_str(), max) {
            Some(n) => Ok(n),
            None => Err(BuildError::FieldParse { field, raw: s.clone() }),
        },
    }
}

} // verus!
