//! The handlers that the host calls: the channel's lifecycle, the packets
//! that arrive on it, and the reports on packets that were sent.

use vstd::prelude::*;

use crate::channel::{Channel, ChannelCloseMsg, ChannelOrder, ChannelView};
use crate::error::ContractError;
use crate::ibc_helpers::{
    open_result_view, spec_ack_wire, spec_validate, validate_order_and_version, version_view,
    AckView, StdAck,
};
use crate::msg::{lemma_decode_encode, spec_decode, spec_encode, PacketMsg};
use crate::response::{BasicResponse, ChannelOpenAck, ReceiveResponse};
use crate::state::{State, StateView};
use crate::wire::{ascii_bytes, text_bytes};

verus! {

/// The one version of the packet protocol that this application speaks.
pub const IBC_VERSION: &'static str = "counter-1";

/// The record after a connect step, or the reason for which the step is
/// refused. The channel is validated first; a bound record is never bound again.
pub open spec fn spec_connect(
    state: StateView,
    channel: ChannelView,
    counterparty_version: Option<Seq<char>>,
) -> Result<StateView, ContractError> {
    match spec_validate(channel, counterparty_version) {
        Err(e) => Err(e),
        Ok(_) => if state.endpoint is Some {
            Err(ContractError::AlreadyConnected)
        } else {
            Ok(StateView { endpoint: Some(channel.endpoint), ..state })
        },
    }
}

/// The attributes that a successful connect step reports.
pub open spec fn connect_attributes(channel: ChannelView) -> Seq<(Seq<char>, Seq<char>)> {
    seq![
        ("method"@, "ibc_channel_connect"@),
        ("channel"@, channel.endpoint.channel_id),
        ("port"@, channel.endpoint.port_id),
    ]
}

/// The outcome of a close report: this side asking is refused, the
/// counterparty having closed is accepted.
pub open spec fn spec_close(msg: ChannelCloseMsg) -> Result<(), ContractError> {
    match msg {
        ChannelCloseMsg::CloseInit { .. } => Err(ContractError::CantCloseChannel),
        ChannelCloseMsg::CloseConfirm { .. } => Ok(()),
    }
}

/// The open step of the handshake: validates the proposed channel and touches
/// no stored record.
pub fn ibc_channel_open(channel: &Channel, counterparty_version: Option<&str>) -> (result: Result<
    Option<ChannelOpenAck>,
    ContractError,
>)
    ensures
        open_result_view(result) == spec_validate(channel@, version_view(counterparty_version)),
{
    validate_order_and_version(channel, counterparty_version)
}

/// The connect step of the handshake: validates the committed channel again and
/// binds the record to the channel's end, once.
pub fn ibc_channel_connect(
    state: &mut State,
    channel: &Channel,
    counterparty_version: Option<&str>,
) -> (result: Result<BasicResponse, ContractError>)
    ensures
        match result {
            Ok(response) => {
                &&& spec_connect(old(state)@, channel@, version_view(counterparty_version)) == Ok::<
                    StateView,
                    ContractError,
                >(final(state)@)
                &&& response@ == connect_attributes(channel@)
            },
            Err(e) => {
                &&& spec_connect(old(state)@, channel@, version_view(counterparty_version)) == Err::<
                    StateView,
                    ContractError,
                >(e)
                &&& *final(state) == *old(state)
            },
        },
        final(state).count == old(state).count,
        final(state).owner == old(state).owner,
{
    match validate_order_and_version(channel, counterparty_version) {
        Err(e) => {
            return Err(e);
        },
        Ok(_) => {},
    }
    if state.endpoint.is_some() {
        return Err(ContractError::AlreadyConnected);
    }
    state.endpoint = Some(channel.endpoint.duplicate());
    let response = BasicResponse::new().add_attribute("method", "ibc_channel_connect").add_attribute(
        "channel",
        channel.endpoint.channel_id.as_str(),
    ).add_attribute("port", channel.endpoint.port_id.as_str());
    Ok(response)
}

/// The close report. A close that this side asked for is refused; one that
/// the counterparty has made already is accepted with an empty response.
pub fn ibc_channel_close(msg: &ChannelCloseMsg) -> (result: Result<BasicResponse, ContractError>)
    ensures
        match result {
            Ok(response) => spec_close(*msg) == Ok::<(), ContractError>(()) && response@.len() == 0,
            Err(e) => spec_close(*msg) == Err::<(), ContractError>(e),
        },
{
    match msg {
        ChannelCloseMsg::CloseInit { .. } => Err(ContractError::CantCloseChannel),
        ChannelCloseMsg::CloseConfirm { .. } => Ok(BasicResponse::new()),
    }
}

/// The acknowledgement of a packet that was carried out: a success whose
/// payload is the one character `0`.
pub open spec fn success_ack() -> AckView {
    AckView::Result(ascii_bytes("0"@))
}

/// The acknowledgement of a packet that was not carried out for `error`.
pub open spec fn failure_ack(error: ContractError) -> AckView {
    AckView::Error(error.spec_message())
}

/// The attributes that every answer to a packet reports.
pub open spec fn receive_attributes() -> Seq<(Seq<char>, Seq<char>)> {
    seq![("method"@, "ibc_packet_receive"@)]
}

/// The counter after a message, or the reason for which the message is not
/// carried out. No message stands for a payload that could not be read.
pub open spec fn spec_apply(count: int, msg: Option<PacketMsg>) -> Result<int, ContractError> {
    match msg {
        None => Err(ContractError::InvalidPacket),
        Some(PacketMsg::Increment) => if count < i32::MAX {
            Ok(count + 1)
        } else {
            Err(ContractError::CounterOverflow)
        },
        Some(PacketMsg::Reset { count: value }) => Ok(value as int),
    }
}

/// The counter after a packet with `data` as its payload: a packet that is
/// not carried out leaves the counter as it was.
pub open spec fn spec_count_after(count: int, data: Seq<u8>) -> int {
    match spec_apply(count, spec_decode(data)) {
        Ok(next) => next,
        Err(_) => count,
    }
}

/// The acknowledgement that answers a packet with `data` as its payload.
pub open spec fn spec_ack_after(count: int, data: Seq<u8>) -> AckView {
    match spec_apply(count, spec_decode(data)) {
        Ok(_) => success_ack(),
        Err(e) => failure_ack(e),
    }
}

/// The answer to a packet that was carried out.
fn success_response() -> (response: ReceiveResponse)
    ensures
        response@.acknowledgement == spec_ack_wire(success_ack()),
        response@.attributes == receive_attributes(),
{
    proof {
        reveal_strlit("0");
    }
    ReceiveResponse::new().add_attribute("method", "ibc_packet_receive").set_ack(
        StdAck::success(text_bytes("0")),
    )
}

/// Adds one to the counter, unless it stands at its largest value.
pub fn increment(state: &mut State) -> (result: Result<ReceiveResponse, ContractError>)
    ensures
        match result {
            Ok(response) => {
                &&& spec_apply(old(state)@.count, Some(PacketMsg::Increment)) == Ok::<
                    int,
                    ContractError,
                >(final(state)@.count)
                &&& response@.acknowledgement == spec_ack_wire(success_ack())
                &&& response@.attributes == receive_attributes()
            },
            Err(e) => {
                &&& spec_apply(old(state)@.count, Some(PacketMsg::Increment)) == Err::<
                    int,
                    ContractError,
                >(e)
                &&& *final(state) == *old(state)
            },
        },
        final(state).owner == old(state).owner,
        final(state).endpoint == old(state).endpoint,
{
    match state.count.checked_add(1) {
        Some(next) => {
            state.count = next;
            Ok(success_response())
        },
        None => Err(ContractError::CounterOverflow),
    }
}

/// Sets the counter to `count`.
pub fn reset(state: &mut State, count: i32) -> (result: Result<ReceiveResponse, ContractError>)
    ensures
        result matches Ok(response) && response@.acknowledgement == spec_ack_wire(success_ack())
            && response@.attributes == receive_attributes(),
        final(state).count == count,
        final(state).owner == old(state).owner,
        final(state).endpoint == old(state).endpoint,
{
    state.count = count;
    Ok(success_response())
}

/// Receives a packet. The payload is read as a message and the message is
/// carried out on the counter; the answer always holds an acknowledgement,
/// a failure where the payload is no message or the message cannot be
/// carried out, in which case the record stays as it was.
pub fn ibc_packet_receive(state: &mut State, data: &[u8]) -> (response: ReceiveResponse)
    ensures
        final(state)@.count == spec_count_after(old(state)@.count, data@),
        final(state).owner == old(state).owner,
        final(state).endpoint == old(state).endpoint,
        response@.acknowledgement == spec_ack_wire(spec_ack_after(old(state)@.count, data@)),
        response@.attributes == receive_attributes(),
{
    let outcome = match PacketMsg::decode(data) {
        Some(PacketMsg::Increment) => increment(state),
        Some(PacketMsg::Reset { count }) => reset(state, count),
        None => Err(ContractError::InvalidPacket),
    };
    match outcome {
        Ok(response) => response,
        Err(e) => ReceiveResponse::new().add_attribute("method", "ibc_packet_receive").set_ack(
            StdAck::fail(e.message()),
        ),
    }
}

/// The attributes that the report of an acknowledgement leaves.
pub open spec fn ack_attributes() -> Seq<(Seq<char>, Seq<char>)> {
    seq![("action"@, "ibc_packet_ack"@)]
}

/// The attributes that the report of a timeout leaves.
pub open spec fn timeout_attributes() -> Seq<(Seq<char>, Seq<char>)> {
    seq![("action"@, "ibc_packet_timeout"@)]
}

/// The report that a packet of this side was acknowledged. It is recorded
/// and changes nothing, whatever the packet and the acknowledgement hold.
pub fn ibc_packet_ack(_packet: &[u8], _ack: &[u8]) -> (result: Result<BasicResponse, ContractError>)
    ensures
        result matches Ok(response) && response@ == ack_attributes(),
{
    Ok(BasicResponse::new().add_attribute("action", "ibc_packet_ack"))
}

/// The report that a packet of this side timed out. It is recorded and
/// changes nothing, whatever the packet holds.
pub fn ibc_packet_timeout(_packet: &[u8]) -> (result: Result<BasicResponse, ContractError>)
    ensures
        result matches Ok(response) && response@ == timeout_attributes(),
{
    Ok(BasicResponse::new().add_attribute("action", "ibc_packet_timeout"))
}

/// A channel that does not deliver unordered is refused by the open step and
/// by the connect step alike, for its order, whatever the counterparty's
/// version and whatever the record holds.
pub proof fn lemma_order_is_enforced(
    state: StateView,
    channel: ChannelView,
    counterparty_version: Option<Seq<char>>,
)
    requires
        channel.order != ChannelOrder::Unordered,
    ensures
        spec_validate(channel, counterparty_version) == Err::<Option<Seq<char>>, ContractError>(
            ContractError::UnsupportedOrder,
        ),
        spec_connect(state, channel, counterparty_version) == Err::<StateView, ContractError>(
            ContractError::UnsupportedOrder,
        ),
{
}

/// On an unordered channel a counterparty version other than `IBC_VERSION`
/// is refused by the open step and by the connect step alike, for the
/// version, whatever the record holds.
pub proof fn lemma_version_is_enforced(state: StateView, channel: ChannelView, version: Seq<char>)
    requires
        channel.order == ChannelOrder::Unordered,
        version != IBC_VERSION@,
    ensures
        spec_validate(channel, Some(version)) == Err::<Option<Seq<char>>, ContractError>(
            ContractError::UnsupportedVersion,
        ),
        spec_connect(state, channel, Some(version)) == Err::<StateView, ContractError>(
            ContractError::UnsupportedVersion,
        ),
{
}

/// On an unordered channel, with no counterparty version, the open step
/// accepts and answers with `IBC_VERSION`.
pub proof fn lemma_open_proposes_version(channel: ChannelView)
    requires
        channel.order == ChannelOrder::Unordered,
    ensures
        spec_validate(channel, None) == Ok::<Option<Seq<char>>, ContractError>(Some(IBC_VERSION@)),
{
}

/// A connect step succeeds only on a record that is not bound, and binds it
/// to the channel's end. Every connect step after it fails, and one whose
/// channel is valid fails because the record is bound. As a failed step
/// leaves the record as it was, the channel end of the first stays.
pub proof fn lemma_connect_once(
    state: StateView,
    first: ChannelView,
    first_version: Option<Seq<char>>,
    second: ChannelView,
    second_version: Option<Seq<char>>,
)
    requires
        spec_connect(state, first, first_version) is Ok,
    ensures
        state.endpoint is None,
        spec_connect(state, first, first_version)->Ok_0.endpoint == Some(first.endpoint),
        spec_connect(spec_connect(state, first, first_version)->Ok_0, second, second_version) is Err,
        spec_validate(second, second_version) is Ok ==> spec_connect(
            spec_connect(state, first, first_version)->Ok_0,
            second,
            second_version,
        ) == Err::<StateView, ContractError>(ContractError::AlreadyConnected),
{
}

/// A record that is bound refuses every connect step whose channel is valid,
/// because it is bound.
pub proof fn lemma_bound_refuses_connect(
    state: StateView,
    channel: ChannelView,
    counterparty_version: Option<Seq<char>>,
)
    requires
        state.endpoint is Some,
        spec_validate(channel, counterparty_version) is Ok,
    ensures
        spec_connect(state, channel, counterparty_version) == Err::<StateView, ContractError>(
            ContractError::AlreadyConnected,
        ),
{
}

/// A close that this side asked for is always refused; one that the
/// counterparty has made is always accepted.
pub proof fn lemma_close_outcomes(channel: Channel)
    ensures
        spec_close(ChannelCloseMsg::CloseInit { channel }) == Err::<(), ContractError>(
            ContractError::CantCloseChannel,
        ),
        spec_close(ChannelCloseMsg::CloseConfirm { channel }) == Ok::<(), ContractError>(()),
{
}

/// A packet that holds the wire form of `Reset` sets the counter to the
/// count it carries, whatever the counter was: delivered twice, it leaves
/// the counter where the first delivery put it.
pub proof fn lemma_reset_idempotent(count: int, value: i32)
    ensures
        spec_count_after(count, spec_encode(PacketMsg::Reset { count: value })) == value,
        spec_count_after(
            spec_count_after(count, spec_encode(PacketMsg::Reset { count: value })),
            spec_encode(PacketMsg::Reset { count: value }),
        ) == value,
        spec_ack_after(count, spec_encode(PacketMsg::Reset { count: value })) == success_ack(),
{
    lemma_decode_encode(PacketMsg::Reset { count: value });
}

/// A packet that holds the wire form of `Increment` adds one to a counter
/// that can still grow, and is answered with a success.
pub proof fn lemma_increment_counts(count: int)
    requires
        count < i32::MAX,
    ensures
        spec_count_after(count, spec_encode(PacketMsg::Increment)) == count + 1,
        spec_ack_after(count, spec_encode(PacketMsg::Increment)) == success_ack(),
{
    lemma_decode_encode(PacketMsg::Increment);
}

/// A payload that is the wire form of no message leaves the counter as it
/// was and is answered with a failure.
pub proof fn lemma_unknown_payload(count: int, data: Seq<u8>)
    requires
        spec_decode(data) is None,
    ensures
        spec_count_after(count, data) == count,
        spec_ack_after(count, data) == failure_ack(ContractError::InvalidPacket),
{
}

} // verus!
