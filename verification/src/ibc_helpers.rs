//! The validation that both the open and the connect step make of a channel, and
//! the acknowledgement envelope with its form on the wire.

use vstd::prelude::*;
use vstd::slice::slice_subrange;
use vstd::utf8::is_ascii_chars;

use crate::channel::{Channel, ChannelOrder, ChannelView};
use crate::encoding::{
    base64_decode, base64_encode, base64_read, base64_text, json_string, json_string_decode,
    json_string_encode, json_string_read,
};
use crate::error::ContractError;
use crate::ibc::IBC_VERSION;
use crate::response::ChannelOpenAck;
use crate::wire::{append, ascii_bytes, ends_with, same_text, starts_with, text_bytes};

verus! {

/// What the validation answers for a channel and the counterparty's version, if
/// the host knows it: the order is judged first, then the version. With no
/// counterparty version this side is the one that proposes, and it proposes
/// `IBC_VERSION`.
pub open spec fn spec_validate(
    channel: ChannelView,
    counterparty_version: Option<Seq<char>>,
) -> Result<Option<Seq<char>>, ContractError> {
    if channel.order != ChannelOrder::Unordered {
        Err(ContractError::UnsupportedOrder)
    } else {
        match counterparty_version {
            Some(version) => if version == IBC_VERSION@ {
                Ok(None)
            } else {
                Err(ContractError::UnsupportedVersion)
            },
            None => Ok(Some(IBC_VERSION@)),
        }
    }
}

/// The text of an optional string slice.
pub open spec fn version_view(version: Option<&str>) -> Option<Seq<char>> {
    match version {
        Some(v) => Some(v@),
        None => None,
    }
}

/// The text of an optional open acknowledgement.
pub open spec fn open_ack_view(ack: Option<ChannelOpenAck>) -> Option<Seq<char>> {
    match ack {
        Some(a) => Some(a@),
        None => None,
    }
}

/// What a result of the validation is, with the acknowledgement as text.
pub open spec fn open_result_view(
    result: Result<Option<ChannelOpenAck>, ContractError>,
) -> Result<Option<Seq<char>>, ContractError> {
    match result {
        Ok(ack) => Ok(open_ack_view(ack)),
        Err(e) => Err(e),
    }
}

/// Validates that a channel delivers unordered and that the counterparty, where
/// its version is known, speaks `IBC_VERSION`.
pub fn validate_order_and_version(
    channel: &Channel,
    counterparty_version: Option<&str>,
) -> (result: Result<Option<ChannelOpenAck>, ContractError>)
    ensures
        open_result_view(result) == spec_validate(channel@, version_view(counterparty_version)),
{
    match channel.order {
        ChannelOrder::Unordered => {},
        ChannelOrder::Ordered => {
            return Err(ContractError::UnsupportedOrder);
        },
    }
    match counterparty_version {
        Some(version) => {
            if same_text(version, IBC_VERSION) {
                Ok(None)
            } else {
                Err(ContractError::UnsupportedVersion)
            }
        },
        None => Ok(Some(ChannelOpenAck { version: IBC_VERSION.to_owned() })),
    }
}

/// The acknowledgement that answers a packet: the payload of a success, or
/// the reason of a failure.
#[derive(Clone, Debug, PartialEq, Eq)]
pub enum StdAck {
    Result(Vec<u8>),
    Error(String),
}

/// What a `StdAck` is.
pub enum AckView {
    Result(Seq<u8>),
    Error(Seq<char>),
}

impl View for StdAck {
    type V = AckView;

    open spec fn view(&self) -> AckView {
        match self {
            StdAck::Result(data) => AckView::Result(data@),
            StdAck::Error(reason) => AckView::Error(reason@),
        }
    }
}

/// What an optional acknowledgement is.
pub open spec fn option_ack_view(ack: Option<StdAck>) -> Option<AckView> {
    match ack {
        Some(a) => Some(a@),
        None => None,
    }
}

/// What an optional string is, as text.
pub open spec fn option_text_view(text: Option<String>) -> Option<Seq<char>> {
    match text {
        Some(t) => Some(t@),
        None => None,
    }
}

/// What opens the envelope of a success: `{"result":`.
pub open spec fn result_head() -> Seq<u8> {
    ascii_bytes("{\"result\":"@)
}

/// What opens the envelope of a failure: `{"error":`.
pub open spec fn error_head() -> Seq<u8> {
    ascii_bytes("{\"error\":"@)
}

/// What closes either envelope: `}`.
pub open spec fn envelope_tail() -> Seq<u8> {
    ascii_bytes("}"@)
}

/// An envelope: `head`, then `body`, then the closing brace.
pub open spec fn spec_frame(head: Seq<u8>, body: Seq<u8>) -> Seq<u8> {
    head + body + envelope_tail()
}

/// What stands between `head` and the closing brace, if `bytes` begins with
/// the one and ends with the other without the two overlapping.
pub open spec fn spec_unframe(bytes: Seq<u8>, head: Seq<u8>) -> Option<Seq<u8>> {
    if head.is_prefix_of(bytes) && envelope_tail().is_suffix_of(bytes) && head.len()
        + envelope_tail().len() <= bytes.len() {
        Some(bytes.subrange(head.len() as int, bytes.len() - envelope_tail().len()))
    } else {
        None
    }
}

/// The wire form of an acknowledgement: a success carries its payload as a
/// JSON string of base64 text, a failure its reason as a JSON string.
pub open spec fn spec_ack_wire(ack: AckView) -> Seq<u8> {
    match ack {
        AckView::Result(data) => spec_frame(result_head(), json_string(base64_text(data))),
        AckView::Error(reason) => spec_frame(error_head(), json_string(reason)),
    }
}

/// The acknowledgement that `bytes` holds, if they are an envelope whose body
/// reads as a JSON string and, for a success, as base64 text.
pub open spec fn spec_ack_read(bytes: Seq<u8>) -> Option<AckView> {
    match spec_unframe(bytes, result_head()) {
        Some(body) => match json_string_read(body) {
            Some(text) => match base64_read(text) {
                Some(data) => Some(AckView::Result(data)),
                None => None,
            },
            None => None,
        },
        None => match spec_unframe(bytes, error_head()) {
            Some(body) => match json_string_read(body) {
                Some(reason) => Some(AckView::Error(reason)),
                None => None,
            },
            None => None,
        },
    }
}

/// The reason of the failure that an acknowledgement blob reports, if it
/// reports one. A blob that holds no acknowledgement counts as a failure,
/// with its own base64 text as the reason.
pub open spec fn spec_ack_error(bytes: Seq<u8>) -> Option<Seq<char>> {
    match spec_ack_read(bytes) {
        Some(AckView::Error(reason)) => Some(reason),
        Some(AckView::Result(_)) => None,
        None => Some(base64_text(bytes)),
    }
}

/// The fixed parts of the envelopes, as far as the proofs need them.
proof fn lemma_envelope_shapes()
    ensures
        result_head().len() == 10,
        error_head().len() == 9,
        envelope_tail().len() == 1,
        is_ascii_chars("{\"result\":"@),
        is_ascii_chars("{\"error\":"@),
        is_ascii_chars("}"@),
{
    reveal_strlit("{\"result\":");
    reveal_strlit("{\"error\":");
    reveal_strlit("}");
}

/// Puts `body` in an envelope that opens with `head`.
pub fn frame(head: &[u8], body: &[u8]) -> (bytes: Vec<u8>)
    ensures
        bytes@ == spec_frame(head@, body@),
{
    proof {
        lemma_envelope_shapes();
    }
    let mut bytes: Vec<u8> = Vec::new();
    append(&mut bytes, head);
    append(&mut bytes, body);
    append(&mut bytes, text_bytes("}"));
    assert(bytes@ =~= spec_frame(head@, body@));
    bytes
}

/// Takes the body out of an envelope that opens with `head`.
pub fn unframe<'a>(bytes: &'a [u8], head: &[u8]) -> (body: Option<&'a [u8]>)
    ensures
        match body {
            Some(b) => spec_unframe(bytes@, head@) == Some(b@),
            None => spec_unframe(bytes@, head@) is None,
        },
{
    proof {
        lemma_envelope_shapes();
    }
    if head.len() < bytes.len() && starts_with(bytes, head) && ends_with(bytes, text_bytes("}")) {
        Some(slice_subrange(bytes, head.len(), bytes.len() - 1))
    } else {
        None
    }
}

impl StdAck {
    /// The wire form of a success with `data` as its payload.
    pub fn success(data: &[u8]) -> (bytes: Vec<u8>)
        ensures
            bytes@ == spec_ack_wire(AckView::Result(data@)),
    {
        proof {
            lemma_envelope_shapes();
        }
        let text = base64_encode(data);
        let body = json_string_encode(text.as_str());
        frame(text_bytes("{\"result\":"), body.as_slice())
    }

    /// The wire form of a failure with `err` as its reason.
    pub fn fail(err: String) -> (bytes: Vec<u8>)
        ensures
            bytes@ == spec_ack_wire(AckView::Error(err@)),
    {
        proof {
            lemma_envelope_shapes();
        }
        let body = json_string_encode(err.as_str());
        frame(text_bytes("{\"error\":"), body.as_slice())
    }

    /// Writes the acknowledgement as it travels.
    pub fn ack(&self) -> (bytes: Vec<u8>)
        ensures
            bytes@ == spec_ack_wire(self@),
    {
        proof {
            lemma_envelope_shapes();
        }
        match self {
            StdAck::Result(data) => StdAck::success(data.as_slice()),
            StdAck::Error(reason) => {
                let body = json_string_encode(reason.as_str());
                frame(text_bytes("{\"error\":"), body.as_slice())
            },
        }
    }

    /// Reads an acknowledgement from the bytes in which it travelled.
    pub fn decode(bytes: &[u8]) -> (ack: Option<StdAck>)
        ensures
            option_ack_view(ack) == spec_ack_read(bytes@),
    {
        proof {
            lemma_envelope_shapes();
        }
        match unframe(bytes, text_bytes("{\"result\":")) {
            Some(body) => match json_string_decode(body) {
                Some(text) => match base64_decode(text.as_str()) {
                    Some(data) => Some(StdAck::Result(data)),
                    None => None,
                },
                None => None,
            },
            None => match unframe(bytes, text_bytes("{\"error\":")) {
                Some(body) => match json_string_decode(body) {
                    Some(reason) => Some(StdAck::Error(reason)),
                    None => None,
                },
                None => None,
            },
        }
    }

    /// Whether the acknowledgement reports a failure.
    pub fn is_error(&self) -> (failed: bool)
        ensures
            failed == (self@ is Error),
    {
        match self {
            StdAck::Result(_) => false,
            StdAck::Error(_) => true,
        }
    }

    /// The reason of the failure, if the acknowledgement reports one.
    pub fn into_error(self) -> (reason: Option<String>)
        ensures
            option_text_view(reason) == match self@ {
                AckView::Error(r) => Some(r),
                AckView::Result(_) => None,
            },
    {
        match self {
            StdAck::Result(_) => None,
            StdAck::Error(reason) => Some(reason),
        }
    }
}

/// The reason of the failure that an acknowledgement blob reports, if it
/// reports one. What cannot be read as an acknowledgement is a failure, and
/// its reason is the blob itself as base64 text.
pub fn try_get_ack_error(ack: &[u8]) -> (reason: Option<String>)
    ensures
        option_text_view(reason) == spec_ack_error(ack@),
{
    match StdAck::decode(ack) {
        Some(decoded) => decoded.into_error(),
        None => Some(base64_encode(ack)),
    }
}

} // verus!
