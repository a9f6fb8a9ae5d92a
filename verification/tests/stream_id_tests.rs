use stream_controller::stream_id::StreamId;
use stream_controller::types::{
    EndpointRole, RelativeInitiator, StreamDirection, MAX_ORDINAL, VARINT_MAX,
};

#[test]
fn id_layout_matches_wire_encoding() {
    // The two low-order bits tag the class; peers compute the same ids.
    let cases = [
        (EndpointRole::Client, StreamDirection::Bidirectional, 0u64, 0u64),
        (EndpointRole::Server, StreamDirection::Bidirectional, 0, 1),
        (EndpointRole::Client, StreamDirection::Unidirectional, 0, 2),
        (EndpointRole::Server, StreamDirection::Unidirectional, 0, 3),
        (EndpointRole::Client, StreamDirection::Bidirectional, 5, 20),
        (EndpointRole::Server, StreamDirection::Bidirectional, 5, 21),
        (EndpointRole::Client, StreamDirection::Unidirectional, 5, 22),
        (EndpointRole::Server, StreamDirection::Unidirectional, 7, 31),
    ];
    for (initiator, direction, ordinal, expected) in cases {
        let id = StreamId::nth(initiator, direction, ordinal).unwrap();
        assert_eq!(id.value(), expected);
        assert_eq!(id.ordinal(), ordinal);
        assert_eq!(id.initiator_role(), initiator);
        assert_eq!(id.direction(), direction);
    }
}

#[test]
fn peer_of_each_role_is_the_other() {
    assert_eq!(EndpointRole::Client.peer(), EndpointRole::Server);
    assert_eq!(EndpointRole::Server.peer(), EndpointRole::Client);
}

#[test]
fn classification_is_relative_to_local_role() {
    let id = StreamId::nth(EndpointRole::Server, StreamDirection::Bidirectional, 3).unwrap();
    let as_server = id.classify(EndpointRole::Server);
    assert_eq!(as_server.initiator, RelativeInitiator::Local);
    assert_eq!(as_server.direction, StreamDirection::Bidirectional);
    let as_client = id.classify(EndpointRole::Client);
    assert_eq!(as_client.initiator, RelativeInitiator::Remote);
    assert_eq!(as_client.direction, StreamDirection::Bidirectional);
}

#[test]
fn classification_partitions_low_ids() {
    // Consecutive ids cycle through the four classes with no overlap or gap.
    for raw in 0u64..64 {
        let id = StreamId::from_value(raw).unwrap();
        let rebuilt = StreamId::nth(id.initiator_role(), id.direction(), id.ordinal()).unwrap();
        assert_eq!(rebuilt.value(), raw);
    }
}

#[test]
fn nth_rejects_ordinals_beyond_encoding() {
    let id = StreamId::nth(EndpointRole::Server, StreamDirection::Unidirectional, MAX_ORDINAL)
        .unwrap();
    assert_eq!(id.value(), VARINT_MAX);
    assert!(StreamId::nth(EndpointRole::Client, StreamDirection::Bidirectional, MAX_ORDINAL + 1)
        .is_err());
}

#[test]
fn next_in_class_steps_by_four_and_stops_at_max() {
    let first = StreamId::first_of_class(EndpointRole::Client, StreamDirection::Unidirectional);
    assert_eq!(first.value(), 2);
    let second = first.next_in_class().unwrap();
    assert_eq!(second.value(), 6);
    assert_eq!(second.ordinal(), 1);
    let last = StreamId::nth(EndpointRole::Server, StreamDirection::Unidirectional, MAX_ORDINAL)
        .unwrap();
    assert!(last.next_in_class().is_err());
}

#[test]
fn from_value_rejects_values_beyond_varint() {
    assert!(StreamId::from_value(VARINT_MAX).is_ok());
    assert!(StreamId::from_value(VARINT_MAX + 1).is_err());
}
