//! The messages that travel in packets, and their form on the wire.

use vstd::prelude::*;
use vstd::slice::slice_subrange;
use vstd::utf8::is_ascii_chars;

use crate::decimal::{decimal, lemma_decimal_injective, parse_decimal, push_decimal};
use crate::wire::{append, ascii_bytes, ends_with, same_bytes, starts_with, text_bytes};

verus! {

/// What the counterparty asks of the counter.
#[derive(Clone, Copy, Debug, PartialEq, Eq, Structural)]
pub enum PacketMsg {
    /// Add one to the counter.
    Increment,
    /// Set the counter to `count`.
    Reset { count: i32 },
}

/// The wire form of `Increment`: `{"Increment":{}}`.
pub open spec fn increment_wire() -> Seq<u8> {
    ascii_bytes("{\"Increment\":{}}"@)
}

/// What stands before the number in the wire form of `Reset`:
/// `{"Reset":{"count":`.
pub open spec fn reset_head() -> Seq<u8> {
    ascii_bytes("{\"Reset\":{\"count\":"@)
}

/// What stands after the number in the wire form of `Reset`: `}}`.
pub open spec fn reset_tail() -> Seq<u8> {
    ascii_bytes("}}"@)
}

/// The wire form of a message.
pub open spec fn spec_encode(msg: PacketMsg) -> Seq<u8> {
    match msg {
        PacketMsg::Increment => increment_wire(),
        PacketMsg::Reset { count } => reset_head() + decimal(count as int) + reset_tail(),
    }
}

/// The message whose wire form `bytes` is, if there is one.
pub open spec fn spec_decode(bytes: Seq<u8>) -> Option<PacketMsg> {
    if exists|msg: PacketMsg| spec_encode(msg) == bytes {
        Some(choose|msg: PacketMsg| spec_encode(msg) == bytes)
    } else {
        None
    }
}

/// The fixed parts of the wire forms, byte by byte.
proof fn lemma_wire_shapes()
    ensures
        increment_wire().len() == 16,
        increment_wire()[2] == 73,
        reset_head().len() == 18,
        reset_head()[2] == 82,
        reset_tail().len() == 2,
        is_ascii_chars("{\"Increment\":{}}"@),
        is_ascii_chars("{\"Reset\":{\"count\":"@),
        is_ascii_chars("}}"@),
{
    reveal_strlit("{\"Increment\":{}}");
    reveal_strlit("{\"Reset\":{\"count\":");
    reveal_strlit("}}");
}

/// Two messages with the same wire form are the same message.
pub proof fn lemma_encode_injective(a: PacketMsg, b: PacketMsg)
    requires
        spec_encode(a) == spec_encode(b),
    ensures
        a == b,
{
    lemma_wire_shapes();
    match (a, b) {
        (PacketMsg::Increment, PacketMsg::Increment) => {},
        (PacketMsg::Increment, PacketMsg::Reset { .. }) => {
            assert(spec_encode(b)[2] == reset_head()[2]);
        },
        (PacketMsg::Reset { .. }, PacketMsg::Increment) => {
            assert(spec_encode(a)[2] == reset_head()[2]);
        },
        (PacketMsg::Reset { count: x }, PacketMsg::Reset { count: y }) => {
            let ea = spec_encode(a);
            let eb = spec_encode(b);
            assert(ea.subrange(18, ea.len() - 2) =~= decimal(x as int));
            assert(eb.subrange(18, eb.len() - 2) =~= decimal(y as int));
            lemma_decimal_injective(x as int, y as int);
        },
    }
}

/// Decoding the wire form of a message gives that message back, whatever the
/// message: `Increment`, or `Reset` with any count, negative and zero
/// included.
pub proof fn lemma_decode_encode(msg: PacketMsg)
    ensures
        spec_decode(spec_encode(msg)) == Some(msg),
{
    let found = choose|m: PacketMsg| spec_encode(m) == spec_encode(msg);
    lemma_encode_injective(found, msg);
}

/// Bytes that decode to a message are that message's wire form and no other.
pub proof fn lemma_encode_decode(bytes: Seq<u8>, msg: PacketMsg)
    requires
        spec_decode(bytes) == Some(msg),
    ensures
        spec_encode(msg) == bytes,
{
}

impl PacketMsg {
    /// Writes the message as it travels.
    pub fn encode(&self) -> (bytes: Vec<u8>)
        ensures
            bytes@ == spec_encode(*self),
    {
        proof {
            lemma_wire_shapes();
        }
        match self {
            PacketMsg::Increment => {
                let mut bytes: Vec<u8> = Vec::new();
                append(&mut bytes, text_bytes("{\"Increment\":{}}"));
                assert(bytes@ =~= increment_wire());
                bytes
            },
            PacketMsg::Reset { count } => {
                let mut bytes: Vec<u8> = Vec::new();
                append(&mut bytes, text_bytes("{\"Reset\":{\"count\":"));
                push_decimal(*count, &mut bytes);
                append(&mut bytes, text_bytes("}}"));
                assert(bytes@ =~= reset_head() + decimal(*count as int) + reset_tail());
                bytes
            },
        }
    }

    /// Reads a message from the bytes of a packet. Only the exact wire form
    /// of a message is read as that message; anything else is no message.
    pub fn decode(bytes: &[u8]) -> (msg: Option<PacketMsg>)
        ensures
            msg == spec_decode(bytes@),
            msg matches Some(m) ==> spec_encode(m) == bytes@,
            msg is None ==> forall|m: PacketMsg| spec_encode(m) != bytes@,
    {
        proof {
            lemma_wire_shapes();
        }
        let found: Option<PacketMsg> = if same_bytes(bytes, text_bytes("{\"Increment\":{}}")) {
            Some(PacketMsg::Increment)
        } else {
            let head = text_bytes("{\"Reset\":{\"count\":");
            let tail = text_bytes("}}");
            if bytes.len() >= 20 && starts_with(bytes, head) && ends_with(bytes, tail) {
                let middle = slice_subrange(bytes, 18, bytes.len() - 2);
                match parse_decimal(middle) {
                    Some(count) => {
                        assert(bytes@ =~= reset_head() + decimal(count as int) + reset_tail());
                        Some(PacketMsg::Reset { count })
                    },
                    None => None,
                }
            } else {
                None
            }
        };
        proof {
            match found {
                Some(m) => {
                    assert(spec_encode(m) == bytes@);
                    let w = choose|w: PacketMsg| spec_encode(w) == bytes@;
                    lemma_encode_injective(w, m);
                },
                None => {
                    assert forall|m: PacketMsg| spec_encode(m) != bytes@ by {
                        if spec_encode(m) == bytes@ {
                            match m {
                                PacketMsg::Increment => {},
                                PacketMsg::Reset { count } => {
                                    let d = decimal(count as int);
                                    let e = spec_encode(m);
                                    assert(e.len() == 20 + d.len());
                                    assert(e.subrange(0, 18) =~= reset_head());
                                    assert(e.subrange(e.len() - 2, e.len() as int) =~= reset_tail());
                                    assert(e.subrange(18, e.len() - 2) =~= d);
                                },
                            }
                        }
                    }
                },
            }
        }
        found
    }
}

} // verus!
