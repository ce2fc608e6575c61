//! Symbolic option lists ("NOP, EOL") and their wire records.
use vstd::prelude::*;
use crate::field::{BuildError, BuildErrorView, Field, bytes_result};
use crate::text::{chars_of, chars_equal, trim, trim_chars, split_on, lemma_split_prefix};

verus! {

/// The most option bytes an IPv4 or TCP header can carry.
pub const MAX_OPTIONS_LEN: usize = 40;

/// Which protocol's option names a list is read against.
#[derive(Clone, Copy, Debug, PartialEq, Eq, Structural)]
pub enum OptionTable {
    Ipv4,
    Tcp,
}

/// The option number each IPv4 option name stands for.
pub open spec fn ipv4_option_number(name: Seq<char>) -> Option<u8> {
    if name == "EOL"@ { Some(0u8) }
    else if name == "NOP"@ { Some(1u8) }
    else if name == "SEC"@ { Some(2u8) }
    else if name == "LSR"@ { Some(3u8) }
    else if name == "TS"@ { Some(4u8) }
    else if name == "ESEC"@ { Some(5u8) }
    else if name == "CIPSO"@ { Some(6u8) }
    else if name == "RR"@ { Some(7u8) }
    else if name == "SID"@ { Some(8u8) }
    else if name == "SSR"@ { Some(9u8) }
    else if name == "ZSU"@ { Some(10u8) }
    else if name == "MTUP"@ { Some(11u8) }
    else if name == "MTUR"@ { Some(12u8) }
    else if name == "FINN"@ { Some(13u8) }
    else if name == "VISA"@ { Some(14u8) }
    else if name == "ENCODE"@ { Some(15u8) }
    else if name == "IMITD"@ { Some(16u8) }
    else if name == "EIP"@ { Some(17u8) }
    else if name == "TR"@ { Some(18u8) }
    else if name == "ADDEXT"@ { Some(19u8) }
    else if name == "RTRALT"@ { Some(20u8) }
    else if name == "SDB"@ { Some(21u8) }
    else if name == "DPS"@ { Some(23u8) }
    else if name == "UMP"@ { Some(24u8) }
    else if name == "QS"@ { Some(25u8) }
    else if name == "EXP"@ { Some(30u8) }
    else { None }
}

/// The option kind each TCP option name stands for.
pub open spec fn tcp_option_number(name: Seq<char>) -> Option<u8> {
    if name == "EOL"@ { Some(0u8) }
    else if name == "NOP"@ { Some(1u8) }
    else if name == "MSS"@ { Some(2u8) }
    else if name == "WSCALE"@ { Some(3u8) }
    else if name == "SACK_PERMITTED"@ { Some(4u8) }
    else if name == "SACK"@ { Some(5u8) }
    else if name == "TIMESTAMPS"@ { Some(8u8) }
    else { None }
}

pub open spec fn option_number(table: OptionTable, name: Seq<char>) -> Option<u8> {
    match table {
        OptionTable::Ipv4 => ipv4_option_number(name),
        OptionTable::Tcp => tcp_option_number(name),
    }
}

/// The wire record of an option: one byte, its option number (no length
/// or data bytes follow, for any option).
pub open spec fn option_record(number: u8) -> Seq<u8> {
    seq![number]
}

/// The records of the (trimmed) tokens in order, or the first token that
/// names no option.
pub open spec fn encode_tokens(table: OptionTable, tokens: Seq<Seq<char>>) -> Result<
    Seq<u8>,
    Seq<char>,
>
    decreases tokens.len(),
{
    if tokens.len() == 0 {
        Ok(Seq::empty())
    } else {
        match encode_tokens(table, tokens.drop_last()) {
            Err(t) => Err(t),
            Ok(b) => match option_number(table, trim(tokens.last())) {
                Some(n) => Ok(b + option_record(n)),
                None => Err(trim(tokens.last())),
            },
        }
    }
}

/// `b` followed by zero bytes up to a multiple of four.
pub open spec fn pad_to_words(b: Seq<u8>) -> Seq<u8> {
    b + Seq::new(((4 - b.len() % 4) % 4) as nat, |i: int| 0u8)
}

/// The option area an option list gives: the records of its comma-separated
/// names in order, zero-padded to whole words; no options for empty text.
pub open spec fn options_area(table: OptionTable, text: Seq<char>, field: Field) -> Result<
    Seq<u8>,
    BuildErrorView,
> {
    let records = if text.len() == 0 {
        Ok(Seq::empty())
    } else {
        encode_tokens(table, split_on(text, ','))
    };
    match records {
        Err(t) => Err(BuildErrorView::UnsupportedOption { token: t }),
        Ok(b) => if pad_to_words(b).len() > MAX_OPTIONS_LEN {
            Err(BuildErrorView::OptionsTooLong { field })
        } else {
            Ok(pad_to_words(b))
        },
    }
}

proof fn lemma_encode_error_prefix(table: OptionTable, a: Seq<Seq<char>>, b: Seq<Seq<char>>)
    requires
        encode_tokens(table, a) is Err,
        a.len() <= b.len(),
        forall|k: int| 0 <= k < a.len() ==> b[k] == a[k],
    ensures
        encode_tokens(table, b) == encode_tokens(table, a),
    decreases b.len(),
{
    if b.len() == a.len() {
        assert(b =~= a);
    } else {
        lemma_encode_error_prefix(table, a, b.drop_last());
    }
}

/// Looks an option name up in the protocol's table.
pub fn lookup_option(table: OptionTable, name: &Vec<char>) -> (r: Option<u8>)
    ensures
        r == option_number(table, name@),
{
    match table {
        OptionTable::Ipv4 => {
            if chars_equal(name, "EOL") { Some(0) }
            else if chars_equal(name, "NOP") { Some(1) }
            else if chars_equal(name, "SEC") { Some(2) }
            else if chars_equal(name, "LSR") { Some(3) }
            else if chars_equal(name, "TS") { Some(4) }
            else if chars_equal(name, "ESEC") { Some(5) }
            else if chars_equal(name, "CIPSO") { Some(6) }
            else if chars_equal(name, "RR") { Some(7) }
            else if chars_equal(name, "SID") { Some(8) }
            else if chars_equal(name, "SSR") { Some(9) }
            else if chars_equal(name, "ZSU") { Some(10) }
            else if chars_equal(name, "MTUP") { Some(11) }
            else if chars_equal(name, "MTUR") { Some(12) }
            else if chars_equal(name, "FINN") { Some(13) }
            else if chars_equal(name, "VISA") { Some(14) }
            else if chars_equal(name, "ENCODE") { Some(15) }
            else if chars_equal(name, "IMITD") { Some(16) }
            else if chars_equal(name, "EIP") { Some(17) }
            else if chars_equal(name, "TR") { Some(18) }
            else if chars_equal(name, "ADDEXT") { Some(19) }
            else if chars_equal(name, "RTRALT") { Some(20) }
            else if chars_equal(name, "SDB") { Some(21) }
            else if chars_equal(name, "DPS") { Some(23) }
            else if chars_equal(name, "UMP") { Some(24) }
            else if chars_equal(name, "QS") { Some(25) }
            else if chars_equal(name, "EXP") { Some(30) }
            else { None }
        },
        OptionTable::Tcp => {
            if chars_equal(name, "EOL") { Some(0) }
            else if chars_equal(name, "NOP") { Some(1) }
            else if chars_equal(name, "MSS") { Some(2) }
            else if chars_equal(name, "WSCALE") { Some(3) }
            else if chars_equal(name, "SACK_PERMITTED") { Some(4) }
            else if chars_equal(name, "SACK") { Some(5) }
            else if chars_equal(name, "TIMESTAMPS") { Some(8) }
            else { None }
        },
    }
}

/// Appends the record of one trimmed token, or reports it as unsupported.
fn push_token(table: OptionTable, token: &Vec<char>, out: &mut Vec<u8>) -> (r: Result<(), Vec<char>>)
    ensures
        match option_number(table, trim(token@)) {
            Some(n) => r is Ok && final(out)@ == old(out)@ + option_record(n),
            None => r is Err && r->Err_0@ == trim(token@),
        },
{
    let name = trim_chars(token);
    match lookup_option(table, &name) {
        Some(n) => {
            let ghost before = out@;
            out.push(n);
            assert(out@ =~= before + option_record(n));
            Ok(())
        },
        None => Err(name),
    }
}

/// Encodes an option list: the records of its comma-separated names in
/// order, zero-padded to whole words.
pub fn encode_options(table: OptionTable, text: &str, field: Field) -> (r: Result<Vec<u8>, BuildError>)
    ensures
        bytes_result(r) == options_area(table, text@, field),
        r is Ok ==> r->Ok_0@.len() <= MAX_OPTIONS_LEN && r->Ok_0@.len() % 4 == 0,
{
    let cs = chars_of(text);
    let mut out: Vec<u8> = Vec::new();
    if cs.len() > 0 {
        let mut cur: Vec<char> = Vec::new();
        let mut i: usize = 0;
        assert(cs@.subrange(0, 0) =~= Seq::<char>::empty());
        while i < cs.len()
            invariant
                i <= cs.len(),
                cs@ == text@,
                split_on(cs@.subrange(0, i as int), ',').len() >= 1,
                cur@ == split_on(cs@.subrange(0, i as int), ',').last(),
                encode_tokens(table, split_on(cs@.subrange(0, i as int), ',').drop_last()) == Ok::<
                    Seq<u8>,
                    Seq<char>,
                >(out@),
                out@.len() <= i,
            decreases cs.len() - i,
        {
            let ghost sp = split_on(cs@.subrange(0, i as int), ',');
            let c = cs[i];
            assert(cs@.subrange(0, i as int + 1).drop_last() =~= cs@.subrange(0, i as int));
            if c == ',' {
                assert(sp.drop_last().push(sp.last()) =~= sp);
                match push_token(table, &cur, &mut out) {
                    Ok(()) => {},
                    Err(t) => {
                        proof {
                            let full = split_on(cs@.subrange(0, cs@.len() as int), ',');
                            assert(cs@.subrange(0, cs@.len() as int) =~= cs@);
                            assert(split_on(cs@.subrange(0, i as int + 1), ',') =~= sp.push(
                                Seq::empty(),
                            ));
                            lemma_split_prefix(cs@, ',', i as int + 1, cs@.len() as int);
                            lemma_encode_error_prefix(table, sp, full);
                        }
                        return Err(BuildError::UnsupportedOption { token: t });
                    },
                }
                cur = Vec::new();
                assert(split_on(cs@.subrange(0, i as int + 1), ',').drop_last() =~= sp);
            } else {
                cur.push(c);
                assert(split_on(cs@.subrange(0, i as int + 1), ',').drop_last() =~= sp.drop_last());
            }
            i = i + 1;
        }
        let ghost sp = split_on(cs@.subrange(0, i as int), ',');
        assert(cs@.subrange(0, i as int) =~= cs@);
        assert(sp.drop_last().push(sp.last()) =~= sp);
        match push_token(table, &cur, &mut out) {
            Ok(()) => {},
            Err(t) => {
                return Err(BuildError::UnsupportedOption { token: t });
            },
        }
    }
    if out.len() > MAX_OPTIONS_LEN {
        return Err(BuildError::OptionsTooLong { field });
    }
    let ghost records = out@;
    let pad: usize = (4 - out.len() % 4) % 4;
    let mut k: usize = 0;
    while k < pad
        invariant
            k <= pad,
            pad == (4 - records.len() % 4) % 4,
            out@ == records + Seq::new(k as nat, |i: int| 0u8),
        decreases pad - k,
    {
        out.push(0);
        k = k + 1;
        assert(out@ =~= records + Seq::new(k as nat, |i: int| 0u8));
    }
    assert(out@ =~= pad_to_words(records));
    if out.len() > MAX_OPTIONS_LEN {
        return Err(BuildError::OptionsTooLong { field });
    }
    Ok(out)
}

} // verus!
