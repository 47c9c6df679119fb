use vstd::prelude::*;

use crate::body::Payload;
use crate::message::Message;
use crate::transport::SendData;

verus! {

broadcast use vstd::string::group_string_axioms;

pub open spec fn is_digit(c: char) -> bool {
    '0' <= c && c <= '9'
}

pub open spec fn digit_value(c: char) -> int {
    (c as int) - ('0' as int)
}

/// The number that a string of decimal digits writes.
pub open spec fn spec_decimal(d: Seq<char>) -> int
    decreases d.len(),
{
    if d.len() == 0 {
        0
    } else {
        10 * spec_decimal(d.drop_last()) + digit_value(d.last())
    }
}

pub open spec fn all_digits(d: Seq<char>) -> bool {
    forall|i: int| 0 <= i < d.len() ==> is_digit(#[trigger] d[i])
}

/// `u32`'s reading of a string (as `str::parse` does it): an optional `+`, then one or more
/// decimal digits, whose number must fit in 32 bits.
pub open spec fn spec_parse_u32(s: Seq<char>) -> Option<u32> {
    let digits = if s.len() > 0 && s[0] == '+' {
        s.drop_first()
    } else {
        s
    };
    if digits.len() > 0 && all_digits(digits) && spec_decimal(digits) <= u32::MAX {
        Some(spec_decimal(digits) as u32)
    } else {
        None
    }
}

/// The number in a node's name: what follows its first character (`n3` is node 3).
pub open spec fn spec_node_number(name: Seq<char>) -> Option<u32> {
    if name.len() == 0 {
        None
    } else {
        spec_parse_u32(name.drop_first())
    }
}

/// Adding digits never makes the number smaller.
proof fn lemma_decimal_grows(d: Seq<char>, i: int, j: int)
    requires
        0 <= i <= j <= d.len(),
        all_digits(d),
    ensures
        spec_decimal(d.subrange(0, i)) <= spec_decimal(d.subrange(0, j)),
        spec_decimal(d.subrange(0, j)) >= 0,
    decreases j - i,
{
    if i < j {
        lemma_decimal_grows(d, i, j - 1);
        assert(d.subrange(0, j).drop_last() =~= d.subrange(0, j - 1));
        assert(is_digit(d[j - 1]));
    } else {
        lemma_decimal_nonneg(d.subrange(0, j));
    }
}

proof fn lemma_decimal_nonneg(d: Seq<char>)
    requires
        all_digits(d),
    ensures
        spec_decimal(d) >= 0,
    decreases d.len(),
{
    if d.len() > 0 {
        lemma_decimal_nonneg(d.drop_last());
    }
}

/// The characters of `s`, in order.
fn chars_of(s: &str) -> (cs: Vec<char>)
    ensures
        cs@ == s@,
{
    let mut cs: Vec<char> = Vec::new();
    for c in it: s.chars()
        invariant
            it.seq() == s@,
            cs@ == it.seq().take(it.index()),
    {
        cs.push(c);
    }
    assert(cs@ =~= s@);
    cs
}

/// Reads `s` as a `u32`, as `str::parse` does.
pub fn parse_u32(s: &str) -> (n: Option<u32>)
    ensures
        n == spec_parse_u32(s@),
{
    let cs = chars_of(s);
    assert(cs@.subrange(0, cs.len() as int) =~= s@);
    parse_u32_from(&cs, 0)
}

/// The number of the node named `name`, as node names are read (`n3` is node 3).
pub fn parse_node_id(name: &str) -> (n: Option<u32>)
    ensures
        n == spec_node_number(name@),
{
    let cs = chars_of(name);
    if cs.len() == 0 {
        return None;
    }
    assert(cs@.subrange(1, cs.len() as int) =~= name@.drop_first());
    parse_u32_from(&cs, 1)
}

/// Reads the characters of `cs` from `start` on as a `u32`.
fn parse_u32_from(cs: &Vec<char>, start: usize) -> (n: Option<u32>)
    requires
        start <= cs.len(),
    ensures
        n == spec_parse_u32(cs@.subrange(start as int, cs.len() as int)),
{
    let ghost s = cs@.subrange(start as int, cs.len() as int);
    let mut begin: usize = start;
    if start < cs.len() && cs[start] == '+' {
        begin = start + 1;
    }
    let ghost digits = if s.len() > 0 && s[0] == '+' {
        s.drop_first()
    } else {
        s
    };
    assert(digits =~= cs@.subrange(begin as int, cs.len() as int));
    if begin == cs.len() {
        return None;
    }
    let mut value: u64 = 0;
    let mut i: usize = begin;
    while i < cs.len()
        invariant
            begin <= i <= cs.len(),
            begin < cs.len(),
            digits == cs@.subrange(begin as int, cs.len() as int),
            s == cs@.subrange(start as int, cs.len() as int),
            digits == (if s.len() > 0 && s[0] == '+' {
                s.drop_first()
            } else {
                s
            }),
            all_digits(digits.subrange(0, i - begin)),
            value == spec_decimal(digits.subrange(0, i - begin)),
            value <= u32::MAX,
        decreases cs.len() - i,
    {
        let c = cs[i];
        if !('0' <= c && c <= '9') {
            assert(!is_digit(digits[i - begin]));
            assert(!all_digits(digits));

            return None;
        }
        let d: u64 = (c as u64) - ('0' as u64);
        assert(digits.subrange(0, i + 1 - begin).drop_last() =~= digits.subrange(0, i - begin));
        assert(all_digits(digits.subrange(0, i + 1 - begin)));
        assert(digits.subrange(0, i + 1 - begin).last() == c);
        assert(spec_decimal(digits.subrange(0, i + 1 - begin)) == 10 * spec_decimal(
            digits.subrange(0, i - begin),
        ) + digit_value(c));
        value = value * 10 + d;
        if value > 0xffff_ffffu64 {
            proof {
                if all_digits(digits) {
                    lemma_decimal_grows(digits, i + 1 - begin, digits.len() as int);
                    assert(digits.subrange(0, digits.len() as int) =~= digits);
                }
            }
            return None;
        }
        i = i + 1;
    }
    assert(digits.subrange(0, i - begin) =~= digits);
    Some(value as u32)
}

/// What the node does with a message it is given.
pub enum NodeCommand {
    /// An `init`: the node learns its name and number, and answers `init_ok`.
    Init { node: String, node_id: u32, reply: SendData },
    /// An `init` whose node name holds no number after its first character.
    BadNodeName,
    /// Anything else goes to the workload, with the sender and the request's id.
    Handle { payload: Payload, dest: String, msg_id: Option<u64> },
}

/// Decides what the node does with `message`.
pub fn route_message(message: Message) -> (cmd: NodeCommand)
    ensures
        match message.body.payload {
            Payload::Init { node_id, .. } => match spec_node_number(node_id@) {
                Some(n) => cmd matches NodeCommand::Init { node, node_id: id, reply } && node
                    == node_id && id == n && reply == (SendData {
                    payload: Payload::InitOk,
                    dest: message.src,
                    in_reply_to: message.body.msg_id,
                }),
                None => cmd is BadNodeName,
            },
            _ => cmd == (NodeCommand::Handle {
                payload: message.body.payload,
                dest: message.src,
                msg_id: message.body.msg_id,
            }),
        },
{
    let dest = message.src;
    let msg_id = message.body.msg_id;
    match message.body.payload {
        Payload::Init { node_id, .. } => match parse_node_id(node_id.as_str()) {
            Some(id) => NodeCommand::Init {
                node: node_id,
                node_id: id,
                reply: SendData { payload: Payload::InitOk, dest, in_reply_to: msg_id },
            },
            None => NodeCommand::BadNodeName,
        },
        payload => NodeCommand::Handle { payload, dest, msg_id },
    }
}

} // verus!
