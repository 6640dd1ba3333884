use ibc_counter::error::ContractError;
use ibc_counter::ibc::{ibc_packet_receive, increment, reset};
use ibc_counter::ibc_helpers::StdAck;
use ibc_counter::msg::PacketMsg;
use ibc_counter::response::{Attribute, ReceiveResponse};
use ibc_counter::state::{ChannelEndpoint, State};

fn bound_state(count: i32) -> State {
    State {
        count,
        owner: "owner".to_string(),
        endpoint: Some(ChannelEndpoint {
            port_id: "wasm.counter".to_string(),
            channel_id: "channel-7".to_string(),
        }),
    }
}

fn receive_attributes() -> Vec<Attribute> {
    vec![Attribute { key: "method".to_string(), value: "ibc_packet_receive".to_string() }]
}

fn success() -> ReceiveResponse {
    ReceiveResponse {
        acknowledgement: b"{\"result\":\"MA==\"}".to_vec(),
        attributes: receive_attributes(),
    }
}

#[test]
fn increment_then_reset_scenario() {
    let mut state = bound_state(0);

    let response = ibc_packet_receive(&mut state, &PacketMsg::Increment.encode());
    assert_eq!(state.count, 1);
    assert_eq!(StdAck::decode(&response.acknowledgement), Some(StdAck::Result(b"0".to_vec())));
    assert_eq!(response, success());

    let response = ibc_packet_receive(&mut state, &PacketMsg::Reset { count: 42 }.encode());
    assert_eq!(state.count, 42);
    assert_eq!(StdAck::decode(&response.acknowledgement), Some(StdAck::Result(b"0".to_vec())));
    assert_eq!(response, success());

    assert_eq!(state, bound_state(42));
}

#[test]
fn receive_reads_raw_wire_bytes() {
    let mut state = bound_state(-3);
    assert_eq!(ibc_packet_receive(&mut state, b"{\"Increment\":{}}"), success());
    assert_eq!(state.count, -2);
    assert_eq!(ibc_packet_receive(&mut state, b"{\"Reset\":{\"count\":-40}}"), success());
    assert_eq!(state.count, -40);
}

#[test]
fn unknown_payload_is_acknowledged_as_error() {
    let payloads: [&[u8]; 6] = [
        b"",
        b"{}",
        b"{\"Decrement\":{}}",
        b"{\"Reset\":{\"count\":1.5}}",
        b"not json",
        b"{\"Increment\":{}} ",
    ];
    for payload in payloads {
        let mut state = bound_state(9);
        let response = ibc_packet_receive(&mut state, payload);
        assert_eq!(state, bound_state(9));
        let ack = StdAck::decode(&response.acknowledgement).unwrap();
        assert!(ack.is_error());
        assert_eq!(ack, StdAck::Error("packet payload is not a known message".to_string()));
        assert_eq!(
            response.acknowledgement,
            b"{\"error\":\"packet payload is not a known message\"}".to_vec()
        );
        assert_eq!(response.attributes, receive_attributes());
    }
}

#[test]
fn reset_delivered_twice_is_idempotent() {
    let mut state = bound_state(0);
    let packet = PacketMsg::Reset { count: 5 }.encode();
    let first = ibc_packet_receive(&mut state, &packet);
    assert_eq!(state.count, 5);
    let second = ibc_packet_receive(&mut state, &packet);
    assert_eq!(state.count, 5);
    assert_eq!(first, second);
    assert_eq!(first, success());
}

#[test]
fn increment_at_largest_value_is_acknowledged_as_error() {
    let mut state = bound_state(i32::MAX);
    let response = ibc_packet_receive(&mut state, &PacketMsg::Increment.encode());
    assert_eq!(state, bound_state(i32::MAX));
    assert_eq!(
        StdAck::decode(&response.acknowledgement),
        Some(StdAck::Error("counter overflow".to_string()))
    );
    assert_eq!(response.attributes, receive_attributes());
}

#[test]
fn increment_just_below_largest_value() {
    let mut state = bound_state(i32::MAX - 1);
    assert_eq!(ibc_packet_receive(&mut state, &PacketMsg::Increment.encode()), success());
    assert_eq!(state.count, i32::MAX);
}

#[test]
fn increment_function() {
    let mut state = bound_state(41);
    assert_eq!(increment(&mut state), Ok(success()));
    assert_eq!(state, bound_state(42));

    let mut state = bound_state(i32::MIN);
    assert_eq!(increment(&mut state), Ok(success()));
    assert_eq!(state.count, i32::MIN + 1);

    let mut state = bound_state(i32::MAX);
    assert_eq!(increment(&mut state), Err(ContractError::CounterOverflow));
    assert_eq!(state, bound_state(i32::MAX));
}

#[test]
fn reset_function() {
    let mut state = bound_state(41);
    assert_eq!(reset(&mut state, -7), Ok(success()));
    assert_eq!(state, bound_state(-7));
    assert_eq!(reset(&mut state, 0), Ok(success()));
    assert_eq!(state, bound_state(0));
}

#[test]
fn receive_works_on_unbound_state_too() {
    let mut state = State::new(0, "owner".to_string());
    assert_eq!(ibc_packet_receive(&mut state, b"{\"Increment\":{}}"), success());
    assert_eq!(state, State::new(1, "owner".to_string()));
}

#[test]
fn receive_response_builders() {
    let response = ReceiveResponse::new().add_attribute("k", "v").set_ack(b"xyz".to_vec());
    assert_eq!(
        response,
        ReceiveResponse {
            acknowledgement: b"xyz".to_vec(),
            attributes: vec![Attribute { key: "k".to_string(), value: "v".to_string() }],
        }
    );
    assert_eq!(ReceiveResponse::new(), ReceiveResponse { acknowledgement: vec![], attributes: vec![] });
}
