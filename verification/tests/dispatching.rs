use serde_json::Value;
use tiangz::dispatch::{
    find_paraser, get_handler, get_paraser, handler_map, paraser_map, process_frame_message,
    process_message_msgpack, request_from, request_sent, sort_value, Dispatched, MessageParaser,
};
use tiangz::errors::MyError;
use tiangz::handler::AnyHandler;
use tiangz::message::{
    AnyMessage, C2M_GetPlayerInfoRequest, C2M_MoveToMessage, C2M_PingRequest, C2M_PingResponse,
    M2C_GetPlayerInfoResponse, NetworkMessage,
};
use tiangz::registry::KeyedMap;

fn object(fields: &[(&str, Value)]) -> Value {
    let mut map = serde_json::Map::new();
    for (key, value) in fields {
        map.insert(key.to_string(), value.clone());
    }
    Value::Object(map)
}

fn ping_value() -> Value {
    object(&[("rpc_id", Value::from(1)), ("_t", Value::from("C2M_PingRequest"))])
}

fn ping(rpc_id: i32) -> AnyMessage {
    AnyMessage::Ping(C2M_PingRequest { rpc_id, _t: "C2M_PingRequest".to_string() })
}

#[test]
fn ping_frame_is_recognised() {
    let message = rmp_serde::to_vec(&ping_value()).unwrap();
    let job = process_frame_message(&paraser_map(), &message, 5).unwrap();
    assert_eq!(job.client_id, 5);
    assert_eq!(job.paraser, MessageParaser::Ping);
    assert_eq!(job.value, ping_value());
}

#[test]
fn every_message_type_is_recognised() {
    for (name, paraser) in [
        ("C2M_MoveToMessage", MessageParaser::MoveTo),
        ("C2M_GetPlayerInfoRequest", MessageParaser::GetPlayerInfo),
        ("C2M_PingRequest", MessageParaser::Ping),
    ] {
        let message = rmp_serde::to_vec(&object(&[("_t", Value::from(name))])).unwrap();
        let job = process_frame_message(&paraser_map(), &message, 0).unwrap();
        assert_eq!(job.paraser, paraser);
    }
}

#[test]
fn frame_that_is_no_messagepack_is_refused() {
    for message in [&[][..], &[0xc1], &[0x82, 0xa2, b'_', b't'], &[0xa5, b'a']] {
        assert!(matches!(
            process_frame_message(&paraser_map(), message, 0),
            Err(MyError::NotMessagePack())
        ));
    }
}

#[test]
fn frame_without_type_is_refused() {
    for value in [
        Value::Null,
        Value::from(3),
        Value::from("_t"),
        Value::Array(vec![Value::from("_t")]),
        object(&[]),
        object(&[("t", Value::from("C2M_PingRequest"))]),
        object(&[("_t", Value::from(7))]),
        object(&[("_t", ping_value())]),
    ] {
        let message = rmp_serde::to_vec(&value).unwrap();
        assert!(matches!(
            process_frame_message(&paraser_map(), &message, 0),
            Err(MyError::MessageNoTField())
        ));
    }
}

#[test]
fn frame_of_unknown_type_is_refused_by_name() {
    let message = rmp_serde::to_vec(&object(&[("_t", Value::from("C2M_Unknown"))])).unwrap();
    match process_frame_message(&paraser_map(), &message, 0) {
        Err(MyError::MessageHandlerNotFound(name)) => assert_eq!(name, "C2M_Unknown"),
        other => panic!("{:?}", other),
    }
}

#[test]
fn answers_are_no_frames_of_clients() {
    let message = rmp_serde::to_vec(&object(&[("_t", Value::from("C2M_PingResponse"))])).unwrap();
    assert!(matches!(
        process_frame_message(&paraser_map(), &message, 0),
        Err(MyError::MessageHandlerNotFound(_))
    ));
}

#[test]
fn decoded_data_is_sorted_by_its_type() {
    let parasers = paraser_map();
    assert!(matches!(sort_value(&parasers, None, 1), Err(MyError::NotMessagePack())));
    assert!(matches!(
        sort_value(&parasers, Some(Value::Bool(true)), 1),
        Err(MyError::MessageNoTField())
    ));
    let job = sort_value(&parasers, Some(ping_value()), 1).unwrap();
    assert_eq!(job.paraser, MessageParaser::Ping);
    assert_eq!(job.value, ping_value());
    assert!(matches!(find_paraser(&parasers, None), Err(MyError::MessageNoTField())));
    assert!(matches!(
        find_paraser(&parasers, Some("C2M_MoveToMessage".to_string())),
        Ok(MessageParaser::MoveTo)
    ));
}

#[test]
fn conversion_decides_about_the_request() {
    match request_from(3, Some(ping(8))) {
        Ok(NetworkMessage::Request { client_id, data: AnyMessage::Ping(request) }) => {
            assert_eq!(client_id, 3);
            assert_eq!(request.rpc_id, 8);
        }
        other => panic!("{:?}", other),
    }
    assert!(matches!(
        request_from::<AnyMessage>(3, None),
        Err(MyError::MessageObjectConvertFailed())
    ));
}

#[test]
fn closed_queue_is_reported() {
    assert!(request_sent(true).is_ok());
    assert!(matches!(request_sent(false), Err(MyError::SendRequestFailed())));
}

#[test]
fn only_a_closed_queue_closes_the_connection() {
    assert!(MyError::SendRequestFailed().closes_connection());
    assert!(!MyError::NotMessagePack().closes_connection());
    assert!(!MyError::MessageNoTField().closes_connection());
    assert!(!MyError::MessageHandlerNotFound("x".to_string()).closes_connection());
    assert!(!MyError::MessageObjectConvertFailed().closes_connection());
}

#[test]
fn handlers_and_parasers_are_found_by_name() {
    let handlers = handler_map();
    let parasers = paraser_map();
    assert!(matches!(
        get_handler(&handlers, "C2M_PingRequest"),
        Some(AnyHandler::Ping(_))
    ));
    assert!(matches!(
        get_handler(&handlers, "C2M_GetPlayerInfoRequest"),
        Some(AnyHandler::GetPlayerInfo(_))
    ));
    assert!(matches!(
        get_handler(&handlers, "C2M_MoveToMessage"),
        Some(AnyHandler::MoveTo(_))
    ));
    assert!(get_handler(&handlers, "C2M_PingResponse").is_none());
    assert!(get_handler(&handlers, "").is_none());
    assert_eq!(get_paraser(&parasers, "C2M_PingRequest"), Some(&MessageParaser::Ping));
    assert_eq!(get_paraser(&parasers, "c2m_pingrequest"), None);
}

#[test]
fn later_registration_counts() {
    let table = KeyedMap::from_entries(vec![
        ("a".to_string(), 1),
        ("b".to_string(), 2),
        ("a".to_string(), 3),
    ]);
    assert_eq!(table.get("a"), Some(&3));
    assert_eq!(table.get("b"), Some(&2));
    assert_eq!(table.get("c"), None);
    let mut table = table;
    table.insert("b".to_string(), 4);
    table.insert("c".to_string(), 5);
    assert_eq!(table.get("a"), Some(&3));
    assert_eq!(table.get("b"), Some(&4));
    assert_eq!(table.get("c"), Some(&5));
    assert_eq!(KeyedMap::<u8>::new().get("a"), None);
}

#[test]
fn ping_is_answered() {
    match process_message_msgpack(&handler_map(), &ping(42), 7, true) {
        Dispatched::Handled {
            reply: Some(NetworkMessage::Response { client_id, data: AnyMessage::Pong(answer) }),
        } => {
            assert_eq!(client_id, 7);
            assert_eq!(answer.rpc_id, 42);
            assert_eq!(answer._t, "C2M_PingResponse");
            assert_eq!(answer.error, 0);
            assert_eq!(answer.message, "");
            assert_eq!(answer.count, 1);
        }
        other => panic!("{:?}", other),
    }
}

#[test]
fn player_info_is_answered() {
    let request = AnyMessage::GetPlayerInfo(C2M_GetPlayerInfoRequest {
        rpc_id: -3,
        _t: "C2M_GetPlayerInfoRequest".to_string(),
        player_id: 11,
    });
    match process_message_msgpack(&handler_map(), &request, 2, true) {
        Dispatched::Handled {
            reply:
                Some(NetworkMessage::Response { client_id, data: AnyMessage::PlayerInfo(answer) }),
        } => {
            assert_eq!(client_id, 2);
            assert_eq!(answer.rpc_id, -3);
            assert_eq!(answer._t, "M2C_GetPlayerInfoResponse");
            assert_eq!(answer.error, 0);
            assert_eq!(answer.message, "");
        }
        other => panic!("{:?}", other),
    }
}

#[test]
fn nothing_is_answered_without_need() {
    let handlers = handler_map();
    let moved = AnyMessage::MoveTo(C2M_MoveToMessage {
        _t: "C2M_MoveToMessage".to_string(),
        player_id: 1,
    });
    assert!(matches!(
        process_message_msgpack(&handlers, &moved, 2, true),
        Dispatched::Handled { reply: None }
    ));
    assert!(matches!(
        process_message_msgpack(&handlers, &ping(1), 0, false),
        Dispatched::Handled { reply: None }
    ));
}

#[test]
fn answers_have_no_handler() {
    let handlers = handler_map();
    let pong = AnyMessage::Pong(C2M_PingResponse::answering(1));
    let info = AnyMessage::PlayerInfo(M2C_GetPlayerInfoResponse::answering(1));
    assert!(matches!(
        process_message_msgpack(&handlers, &pong, 0, true),
        Dispatched::NoHandler
    ));
    assert!(matches!(
        process_message_msgpack(&handlers, &info, 0, true),
        Dispatched::NoHandler
    ));
}
