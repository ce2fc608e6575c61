//! IPv4 addresses in dotted-decimal text and MAC addresses in
//! colon-separated hex text.
use vstd::prelude::*;
use crate::field::{AddressField, BuildError, BuildErrorView, is_digit, digits_value, unsigned_digits};
use crate::text::{chars_of, split_on, lemma_split_len};

verus! {

/// One dotted-decimal component: one to three digits, no leading zero
/// unless it is "0" itself, at most 255.
pub open spec fn octet_text(t: Seq<char>) -> Option<u8> {
    if 1 <= t.len() <= 3 && (forall|i: int| 0 <= i < t.len() ==> is_digit(#[trigger] t[i])) && (
    t.len() == 1 || t[0] != '0') && digits_value(t) <= 255 {
        Some(digits_value(t) as u8)
    } else {
        None
    }
}

/// The four octets of a dotted-decimal IPv4 address.
pub open spec fn parse_ipv4(s: Seq<char>) -> Option<Seq<u8>> {
    let parts = split_on(s, '.');
    if parts.len() == 4 && (forall|k: int| 0 <= k < 4 ==> (#[trigger] octet_text(parts[k])) is Some) {
        Some(Seq::new(4, |k: int| octet_text(parts[k])->0))
    } else {
        None
    }
}

pub open spec fn is_hex_digit(c: char) -> bool {
    ('0' <= c <= '9') || ('a' <= c <= 'f') || ('A' <= c <= 'F')
}

pub open spec fn hex_digit_value(c: char) -> nat {
    if '0' <= c <= '9' {
        (c as nat - '0' as nat) as nat
    } else if 'a' <= c <= 'f' {
        (c as nat - 'a' as nat + 10) as nat
    } else {
        (c as nat - 'A' as nat + 10) as nat
    }
}

/// The number that a string of hex digits denotes.
pub open spec fn hex_value(s: Seq<char>) -> nat
    decreases s.len(),
{
    if s.len() == 0 {
        0
    } else {
        hex_value(s.drop_last()) * 16 + hex_digit_value(s.last())
    }
}

/// One MAC component as `u8::from_str_radix(_, 16)` reads it: an optional
/// `+`, then at least one hex digit, at most 255.
pub open spec fn hex_component(t: Seq<char>) -> Option<u8> {
    let d = unsigned_digits(t);
    if d.len() > 0 && (forall|i: int| 0 <= i < d.len() ==> is_hex_digit(#[trigger] d[i]))
        && hex_value(d) <= 255 {
        Some(hex_value(d) as u8)
    } else {
        None
    }
}

/// The six octets of a colon-separated MAC address.
pub open spec fn parse_mac(s: Seq<char>) -> Option<Seq<u8>> {
    let parts = split_on(s, ':');
    if parts.len() == 6 && (forall|k: int| 0 <= k < 6 ==> (#[trigger] hex_component(parts[k])) is Some) {
        Some(Seq::new(6, |k: int| hex_component(parts[k])->0))
    } else {
        None
    }
}

/// `s` with every `from` replaced by `to`.
pub open spec fn replace_char(s: Seq<char>, from: char, to: Seq<char>) -> Seq<char>
    decreases s.len(),
{
    if s.len() == 0 {
        Seq::empty()
    } else {
        replace_char(s.drop_last(), from, to) + if s.last() == from {
            to
        } else {
            seq![s.last()]
        }
    }
}

/// MAC text as a form writes it, "aa.bb.cc.dd.ee.ff" or colon-separated:
/// every `.` read as `:`.
pub open spec fn mac_text(s: Seq<char>) -> Seq<char> {
    replace_char(s, '.', seq![':'])
}

/// Relies on std's `str::replace` with a character pattern: every
/// occurrence of `from` replaced by `to`, the rest unchanged.
#[verifier::external_body]
fn replace_all(s: &str, from: char, to: &str) -> (r: String)
    ensures
        r@ == replace_char(s@, from, to@),
{
    s.replace(from, to)
}

/// Relies on pnet's `FromStr` for `MacAddr`: exactly six `:`-separated
/// components, each read by `u8::from_str_radix(_, 16)`.
#[verifier::external_body]
fn mac_from_str(s: &str) -> (r: Option<[u8; 6]>)
    ensures
        r is Some <==> parse_mac(s@) is Some,
        r is Some ==> r->0@ == parse_mac(s@)->0,
{
    match <pnet::util::MacAddr as std::str::FromStr>::from_str(s) {
        Ok(m) => Some(m.octets()),
        Err(_) => None,
    }
}

/// Reads one dotted-decimal component.
fn octet_of(t: &Vec<char>) -> (r: Option<u8>)
    ensures
        r == octet_text(t@),
{
    if t.len() < 1 || t.len() > 3 {
        return None;
    }
    if t.len() > 1 && t[0] == '0' {
        return None;
    }
    let mut acc: u32 = 0;
    let mut i: usize = 0;
    while i < t.len()
        invariant
            1 <= t.len() <= 3,
            i <= t.len(),
            forall|k: int| 0 <= k < i ==> is_digit(#[trigger] t@[k]),
            acc == digits_value(t@.subrange(0, i as int)),
            acc < 1000,
        decreases t.len() - i,
    {
        let c = t[i];
        if !('0' <= c && c <= '9') {
            assert(!is_digit(t@[i as int]));
            return None;
        }
        assert(t@.subrange(0, i as int + 1).drop_last() =~= t@.subrange(0, i as int));
        assert(acc < 100) by {
            lemma_digits_bound(t@.subrange(0, i as int));
        }
        acc = acc * 10 + (c as u32 - '0' as u32);
        i = i + 1;
    }
    assert(t@.subrange(0, i as int) =~= t@);
    if acc > 255 {
        return None;
    }
    Some(acc as u8)
}

proof fn lemma_digits_bound(d: Seq<char>)
    requires
        d.len() <= 2,
        forall|k: int| 0 <= k < d.len() ==> is_digit(#[trigger] d[k]),
    ensures
        digits_value(d) < 100,
        d.len() <= 1 ==> digits_value(d) < 10,
    decreases d.len(),
{
    if d.len() > 0 {
        lemma_digits_bound(d.drop_last());
    }
}

/// Parses a dotted-decimal IPv4 address.
pub fn parse_ipv4_text(s: &str) -> (r: Option<[u8; 4]>)
    ensures
        r is Some <==> parse_ipv4(s@) is Some,
        r is Some ==> r->0@ == parse_ipv4(s@)->0,
{
    let cs = chars_of(s);
    let mut octets: Vec<u8> = Vec::new();
    let mut cur: Vec<char> = Vec::new();
    let mut i: usize = 0;
    assert(cs@.subrange(0, 0) =~= Seq::<char>::empty());
    while i < cs.len()
        invariant
            i <= cs.len(),
            cs@ == s@,
            split_on(cs@.subrange(0, i as int), '.').len() == octets@.len() + 1,
            cur@ == split_on(cs@.subrange(0, i as int), '.').last(),
            octets@.len() <= 4,
            forall|k: int|
                0 <= k < octets@.len() ==> octet_text(
                    #[trigger] split_on(cs@.subrange(0, i as int), '.')[k],
                ) == Some(octets@[k]),
        decreases cs.len() - i,
    {
        let ghost sp = split_on(cs@.subrange(0, i as int), '.');
        let c = cs[i];
        assert(cs@.subrange(0, i as int + 1).drop_last() =~= cs@.subrange(0, i as int));
        if c == '.' {
            let o = octet_of(&cur);
            proof {
                crate::text::lemma_split_prefix(cs@, '.', i as int + 1, cs@.len() as int);
                assert(cs@.subrange(0, cs@.len() as int) =~= cs@);
            }
            match o {
                Some(v) => {
                    if octets.len() == 4 {
                        return None;
                    }
                    octets.push(v);
                },
                None => {
                    assert(octet_text(split_on(s@, '.')[octets@.len() as int]) is None);
                    return None;
                },
            }
            cur = Vec::new();
        } else {
            cur.push(c);
        }
        i = i + 1;
    }
    assert(cs@.subrange(0, i as int) =~= cs@);
    let last = octet_of(&cur);
    match last {
        Some(v) => {
            if octets.len() != 3 {
                return None;
            }
            let r = [octets[0], octets[1], octets[2], v];
            assert(r@ =~= parse_ipv4(s@)->0);
            Some(r)
        },
        None => {
            assert(octet_text(split_on(s@, '.')[octets@.len() as int]) is None);
            None
        },
    }
}

/// Parses an IPv4 address, naming the address on failure.
pub fn ipv4_address(text: &String, which: AddressField) -> (r: Result<[u8; 4], BuildError>)
    ensures
        match parse_ipv4(text@) {
            Some(a) => r is Ok && r->Ok_0@ == a,
            None => r is Err && r->Err_0@ == (BuildErrorView::AddressParse { which, raw: text@ }),
        },
{
    match parse_ipv4_text(text.as_str()) {
        Some(a) => Ok(a),
        None => Err(BuildError::AddressParse { which, raw: text.clone() }),
    }
}

/// Parses a MAC address, with `:` or `.` between its six components,
/// naming the address on failure.
pub fn mac_address(text: &String, which: AddressField) -> (r: Result<[u8; 6], BuildError>)
    ensures
        match parse_mac(mac_text(text@)) {
            Some(a) => r is Ok && r->Ok_0@ == a,
            None => r is Err && r->Err_0@ == (BuildErrorView::AddressParse { which, raw: text@ }),
        },
{
    let colon = ":";
    proof {
        reveal_strlit(":");
    }
    assert(colon@ =~= seq![':']);
    let canonical = replace_all(text.as_str(), '.', colon);
    match mac_from_str(canonical.as_str()) {
        Some(a) => Ok(a),
        None => Err(BuildError::AddressParse { which, raw: text.clone() }),
    }
}

} // verus!
