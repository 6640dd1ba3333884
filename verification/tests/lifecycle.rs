use ibc_counter::channel::{Channel, ChannelCloseMsg, ChannelOrder};
use ibc_counter::error::ContractError;
use ibc_counter::ibc::{
    ibc_channel_close, ibc_channel_connect, ibc_channel_open, ibc_packet_ack, ibc_packet_timeout,
    IBC_VERSION,
};
use ibc_counter::ibc_helpers::validate_order_and_version;
use ibc_counter::response::{Attribute, BasicResponse, ChannelOpenAck};
use ibc_counter::state::{ChannelEndpoint, State};

fn endpoint(port: &str, channel: &str) -> ChannelEndpoint {
    ChannelEndpoint { port_id: port.to_string(), channel_id: channel.to_string() }
}

fn channel(order: ChannelOrder) -> Channel {
    Channel { endpoint: endpoint("wasm.counter", "channel-7"), order }
}

fn attribute(key: &str, value: &str) -> Attribute {
    Attribute { key: key.to_string(), value: value.to_string() }
}

#[test]
fn version_constant_is_counter_1() {
    assert_eq!(IBC_VERSION, "counter-1");
}

#[test]
fn open_refuses_ordered_channel() {
    let ordered = channel(ChannelOrder::Ordered);
    assert_eq!(ibc_channel_open(&ordered, None), Err(ContractError::UnsupportedOrder));
    assert_eq!(
        ibc_channel_open(&ordered, Some("counter-1")),
        Err(ContractError::UnsupportedOrder)
    );
}

#[test]
fn order_is_judged_before_version() {
    let ordered = channel(ChannelOrder::Ordered);
    assert_eq!(
        ibc_channel_open(&ordered, Some("counter-2")),
        Err(ContractError::UnsupportedOrder)
    );
    let mut state = State::new(3, "owner".to_string());
    assert_eq!(
        ibc_channel_connect(&mut state, &ordered, Some("counter-2")),
        Err(ContractError::UnsupportedOrder)
    );
}

#[test]
fn open_refuses_other_versions() {
    let unordered = channel(ChannelOrder::Unordered);
    for version in ["counter-2", "", "counter-", "counter-10", "Counter-1", " counter-1"] {
        assert_eq!(
            ibc_channel_open(&unordered, Some(version)),
            Err(ContractError::UnsupportedVersion)
        );
    }
}

#[test]
fn open_accepts_matching_version_without_override() {
    let unordered = channel(ChannelOrder::Unordered);
    assert_eq!(ibc_channel_open(&unordered, Some("counter-1")), Ok(None));
}

#[test]
fn open_without_counterparty_proposes_version() {
    let unordered = channel(ChannelOrder::Unordered);
    assert_eq!(
        ibc_channel_open(&unordered, None),
        Ok(Some(ChannelOpenAck { version: "counter-1".to_string() }))
    );
}

#[test]
fn validator_agrees_with_open() {
    for order in [ChannelOrder::Unordered, ChannelOrder::Ordered] {
        for version in [None, Some("counter-1"), Some("other")] {
            let ch = channel(order);
            assert_eq!(validate_order_and_version(&ch, version), ibc_channel_open(&ch, version));
        }
    }
}

#[test]
fn connect_binds_the_endpoint_and_reports_it() {
    let mut state = State::new(11, "owner".to_string());
    assert!(!state.is_bound());
    let response = ibc_channel_connect(&mut state, &channel(ChannelOrder::Unordered), None);
    assert_eq!(
        response,
        Ok(BasicResponse {
            attributes: vec![
                attribute("method", "ibc_channel_connect"),
                attribute("channel", "channel-7"),
                attribute("port", "wasm.counter"),
            ],
        })
    );
    assert!(state.is_bound());
    assert_eq!(state.endpoint, Some(endpoint("wasm.counter", "channel-7")));
    assert_eq!(state.count, 11);
    assert_eq!(state.owner, "owner");
}

#[test]
fn connect_refuses_ordered_channel_and_leaves_state() {
    let mut state = State::new(0, "owner".to_string());
    assert_eq!(
        ibc_channel_connect(&mut state, &channel(ChannelOrder::Ordered), None),
        Err(ContractError::UnsupportedOrder)
    );
    assert_eq!(state, State::new(0, "owner".to_string()));
}

#[test]
fn connect_refuses_other_version_and_leaves_state() {
    let mut state = State::new(0, "owner".to_string());
    assert_eq!(
        ibc_channel_connect(&mut state, &channel(ChannelOrder::Unordered), Some("counter-0")),
        Err(ContractError::UnsupportedVersion)
    );
    assert_eq!(state, State::new(0, "owner".to_string()));
}

#[test]
fn second_connect_is_refused_and_keeps_first_endpoint() {
    let mut state = State::new(0, "owner".to_string());
    let first = channel(ChannelOrder::Unordered);
    assert!(ibc_channel_connect(&mut state, &first, Some("counter-1")).is_ok());
    let bound = state.clone();

    let second = Channel { endpoint: endpoint("wasm.other", "channel-8"), order: ChannelOrder::Unordered };
    assert_eq!(
        ibc_channel_connect(&mut state, &second, None),
        Err(ContractError::AlreadyConnected)
    );
    assert_eq!(state, bound);
    assert_eq!(state.endpoint, Some(endpoint("wasm.counter", "channel-7")));

    assert_eq!(
        ibc_channel_connect(&mut state, &first, Some("counter-1")),
        Err(ContractError::AlreadyConnected)
    );
    assert_eq!(state, bound);
}

#[test]
fn close_init_is_always_refused() {
    for order in [ChannelOrder::Unordered, ChannelOrder::Ordered] {
        let msg = ChannelCloseMsg::CloseInit { channel: channel(order) };
        assert_eq!(ibc_channel_close(&msg), Err(ContractError::CantCloseChannel));
    }
}

#[test]
fn close_confirm_is_always_accepted_with_empty_response() {
    for order in [ChannelOrder::Unordered, ChannelOrder::Ordered] {
        let msg = ChannelCloseMsg::CloseConfirm { channel: channel(order) };
        assert_eq!(ibc_channel_close(&msg), Ok(BasicResponse { attributes: vec![] }));
    }
}

#[test]
fn ack_report_is_only_recorded() {
    assert_eq!(
        ibc_packet_ack(b"{\"Increment\":{}}", b"{\"error\":\"no\"}"),
        Ok(BasicResponse { attributes: vec![attribute("action", "ibc_packet_ack")] })
    );
    assert_eq!(
        ibc_packet_ack(b"", b""),
        Ok(BasicResponse { attributes: vec![attribute("action", "ibc_packet_ack")] })
    );
}

#[test]
fn timeout_report_is_only_recorded() {
    assert_eq!(
        ibc_packet_timeout(b"{\"Reset\":{\"count\":1}}"),
        Ok(BasicResponse { attributes: vec![attribute("action", "ibc_packet_timeout")] })
    );
}

#[test]
fn error_messages() {
    assert_eq!(ContractError::UnsupportedOrder.message(), "only unordered channels are supported");
    assert_eq!(ContractError::UnsupportedVersion.message(), "unsupported channel version");
    assert_eq!(ContractError::AlreadyConnected.message(), "contract is already connected");
    assert_eq!(ContractError::CantCloseChannel.message(), "the channel can not be closed");
    assert_eq!(ContractError::InvalidPacket.message(), "packet payload is not a known message");
    assert_eq!(ContractError::CounterOverflow.message(), "counter overflow");
}

#[test]
fn response_builders_keep_order() {
    let response = BasicResponse::new().add_attribute("a", "1").add_attribute("b", "2");
    assert_eq!(response.attributes, vec![attribute("a", "1"), attribute("b", "2")]);
    assert_eq!(Attribute::new("k", "v"), attribute("k", "v"));
}

#[test]
fn endpoint_duplicate_is_equal() {
    let e = endpoint("p", "c");
    assert_eq!(e.duplicate(), e);
}
