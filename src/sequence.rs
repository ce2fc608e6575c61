//! Re-sending stored frames: the "first-last" and "index*times" requests
//! and the order in which they send.
use vstd::prelude::*;
use crate::field::{parse_decimal, parse_decimal_chars};
use crate::text::{chars_of, split_chars, split_on};

verus! {

/// The largest index or count a request may name.
pub const MAX_REQUEST_NUMBER: u32 = 0xFFFF_FFFF;

/// A request to send stored frames again.
#[derive(Clone, Copy, Debug, PartialEq, Eq, Structural)]
pub enum SendRequest {
    /// The frames `first` to `last`, both included (`first < last`).
    Range { first: u32, last: u32 },
    /// The frame `index`, `times` times.
    Repeat { index: u32, times: u32 },
}

/// What a request text asks for: "a-b" with `a < b`, or "i*n"; either
/// number an unsigned decimal.
pub open spec fn request_of(text: Seq<char>) -> Option<SendRequest> {
    let dash = split_on(text, '-');
    let star = split_on(text, '*');
    if dash.len() > 1 {
        if dash.len() == 2 && parse_decimal(dash[0], MAX_REQUEST_NUMBER as nat) is Some && parse_decimal(
            dash[1],
            MAX_REQUEST_NUMBER as nat,
        ) is Some && parse_decimal(dash[0], MAX_REQUEST_NUMBER as nat)->0 < parse_decimal(
            dash[1],
            MAX_REQUEST_NUMBER as nat,
        )->0 {
            Some(
                SendRequest::Range {
                    first: parse_decimal(dash[0], MAX_REQUEST_NUMBER as nat)->0 as u32,
                    last: parse_decimal(dash[1], MAX_REQUEST_NUMBER as nat)->0 as u32,
                },
            )
        } else {
            None
        }
    } else if star.len() == 2 && parse_decimal(star[0], MAX_REQUEST_NUMBER as nat) is Some
        && parse_decimal(star[1], MAX_REQUEST_NUMBER as nat) is Some {
        Some(
            SendRequest::Repeat {
                index: parse_decimal(star[0], MAX_REQUEST_NUMBER as nat)->0 as u32,
                times: parse_decimal(star[1], MAX_REQUEST_NUMBER as nat)->0 as u32,
            },
        )
    } else {
        None
    }
}

/// The frames a request sends, in order, for each of `rounds` rounds, and
/// whether it names a frame past the `count` stored ones (an error, after
/// the frames before it went out).
pub struct SendPlan {
    pub indexes: Vec<usize>,
    pub rounds: u32,
    pub overran: bool,
}

/// A range sends the stored frames from `first` up to `last`, stopping at
/// the first one not stored; a repeat sends one stored frame `times` times,
/// and nothing when that frame is not stored.
pub open spec fn plan_of(request: SendRequest, count: nat) -> (Seq<usize>, u32, bool) {
    match request {
        SendRequest::Range { first, last } => {
            let end = if last < count { last as int + 1 } else { count as int };
            let n = if end > first { end - first } else { 0 };
            (Seq::new(n as nat, |i: int| (first + i) as usize), 1u32, last >= count)
        },
        SendRequest::Repeat { index, times } => if index < count {
            (seq![index as usize], times, false)
        } else {
            (Seq::empty(), 0u32, true)
        },
    }
}

/// Reads a request: "a-b" with `a < b`, or "i*n".
pub fn parse_send_request(text: &str) -> (r: Option<SendRequest>)
    ensures
        r == request_of(text@),
{
    let cs = chars_of(text);
    let dash = split_chars(&cs, '-');
    let star = split_chars(&cs, '*');
    if dash.len() > 1 {
        if dash.len() != 2 {
            return None;
        }
        assert(dash@[0]@ == split_on(text@, '-')[0]);
        let first = parse_decimal_chars(&dash[0], MAX_REQUEST_NUMBER);
        assert(dash@[1]@ == split_on(text@, '-')[1]);
        let last = parse_decimal_chars(&dash[1], MAX_REQUEST_NUMBER);
        match (first, last) {
            (Some(a), Some(b)) => if a < b {
                Some(SendRequest::Range { first: a, last: b })
            } else {
                None
            },
            _ => None,
        }
    } else if star.len() == 2 {
        assert(star@[0]@ == split_on(text@, '*')[0]);
        let index = parse_decimal_chars(&star[0], MAX_REQUEST_NUMBER);
        assert(star@[1]@ == split_on(text@, '*')[1]);
        let times = parse_decimal_chars(&star[1], MAX_REQUEST_NUMBER);
        match (index, times) {
            (Some(i), Some(n)) => Some(SendRequest::Repeat { index: i, times: n }),
            _ => None,
        }
    } else {
        None
    }
}

/// The frames a request sends among `count` stored ones.
pub fn plan_sends(request: SendRequest, count: usize) -> (r: SendPlan)
    ensures
        (r.indexes@, r.rounds, r.overran) == plan_of(request, count as nat),
{
    match request {
        SendRequest::Range { first, last } => {
            let end: usize = if (last as usize) < count { last as usize + 1 } else { count };
            let mut indexes: Vec<usize> = Vec::new();
            let mut i: usize = first as usize;
            while i < end
                invariant
                    first <= i,
                    end <= count,
                    i < end ==> indexes@.len() == i - first,
                    i >= end ==> indexes@.len() == (if end > first { end - first } else { 0 }),
                    forall|k: int| 0 <= k < indexes@.len() ==> indexes@[k] == first + k,
                decreases end - i,
            {
                indexes.push(i);
                i = i + 1;
            }
            let ghost expected = plan_of(request, count as nat).0;
            assert(indexes@ =~= expected);
            SendPlan { indexes, rounds: 1, overran: last as usize >= count }
        },
        SendRequest::Repeat { index, times } => {
            if (index as usize) < count {
                let indexes: Vec<usize> = vec![index as usize];
                assert(indexes@ =~= seq![index as usize]);
                SendPlan { indexes, rounds: times, overran: false }
            } else {
                let indexes: Vec<usize> = Vec::new();
                assert(indexes@ =~= Seq::<usize>::empty());
                SendPlan { indexes, rounds: 0, overran: true }
            }
        },
    }
}

} // verus!
