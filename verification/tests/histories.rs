use serde_json::Value;
use tiangz::clients::ClientTable;
use tiangz::dispatch::{
    handler_map, paraser_map, process_frame_message, process_message_msgpack, request_from,
    request_sent, Dispatched, MessageParaser,
};
use tiangz::errors::RetResult;
use tiangz::frame::{encode_frame, FrameRead};
use tiangz::message::{AnyMessage, C2M_PingRequest, NetworkMessage};
use tiangz::server::{
    accept_step, connection_parser, main_step, reader_step, worker_step, AcceptAction,
    AcceptEvent, Control, KCPServer, MainAction, MainEvent, ReadEvent, TCPServer, WorkerAction,
    WorkerEvent,
};

fn ping_payload(rpc_id: i32) -> Vec<u8> {
    let mut map = serde_json::Map::new();
    map.insert("rpc_id".to_string(), Value::from(rpc_id));
    map.insert("_t".to_string(), Value::from("C2M_PingRequest"));
    rmp_serde::to_vec(&Value::Object(map)).unwrap()
}

/// Takes a payload to its request, as far as it gets there.
fn request_of(payload: &[u8], client_id: usize) -> RetResult<NetworkMessage<AnyMessage>> {
    let job = process_frame_message(&paraser_map(), payload, client_id)?;
    assert_eq!(job.paraser, MessageParaser::Ping);
    let rpc_id = job.value["rpc_id"].as_i64().map(|id| id as i32);
    let ping = rpc_id.map(|rpc_id| {
        AnyMessage::Ping(C2M_PingRequest { rpc_id, _t: "C2M_PingRequest".to_string() })
    });
    request_from(job.client_id, ping)
}

/// Has a request handled, and gives what is written for it.
fn written_for(
    clients: &ClientTable,
    request: NetworkMessage<AnyMessage>,
) -> WorkerAction<AnyMessage> {
    let (client_id, data, worker) = match main_step(4, MainEvent::Received(Some(request))) {
        MainAction::Handle { client_id, data, worker } => (client_id, data, worker),
        other => panic!("{:?}", other),
    };
    assert_eq!(worker, Some(client_id % 4));
    match process_message_msgpack(&handler_map(), &data, client_id, true) {
        Dispatched::Handled { reply } => worker_step(clients, WorkerEvent::Received(reply)),
        other => panic!("{:?}", other),
    }
}

/// Sends frames to the end, and gives the ids of the clients and requests that were answered.
fn answers(clients: &mut ClientTable, client_id: usize, stream: &[u8]) -> Vec<(usize, i32)> {
    let mut answered = Vec::new();
    let mut parser = connection_parser();
    let mut read = parser.read_frame(Some(stream));
    while let FrameRead::Frame(payload) = read {
        let result = match request_of(&payload, client_id) {
            Ok(request) => {
                match written_for(clients, request) {
                    WorkerAction::Write { client_id, data: AnyMessage::Pong(pong) } => {
                        assert_eq!(pong.count, 1);
                        answered.push((client_id, pong.rpc_id));
                    }
                    other => panic!("{:?}", other),
                }
                request_sent(true)
            }
            Err(e) => Err(e),
        };
        assert_eq!(reader_step(clients, client_id, ReadEvent::Frame(result)), Control::Continue);
        read = parser.read_frame(None);
    }
    assert!(matches!(read, FrameRead::More));
    assert!(matches!(parser.read_frame(Some(&[])), FrameRead::End));
    answered
}

#[test]
fn every_ping_of_every_connection_comes_back() {
    let mut clients = ClientTable::new();
    for id in 0..16 {
        assert_eq!(clients.connect(format!("10.0.0.1:{}", id)), id);
    }
    for id in 0..16 {
        let mut stream = Vec::new();
        for _ in 0..20 {
            stream.extend(encode_frame(&ping_payload(1)).unwrap());
        }
        assert_eq!(answers(&mut clients, id, &stream), vec![(id, 1); 20]);
    }
    for id in 0..16 {
        assert!(clients.address_of(id).is_some());
    }
}

#[test]
fn pings_are_answered_in_order() {
    let mut clients = ClientTable::new();
    clients.connect("10.0.0.1:1".to_string());
    let mut stream = Vec::new();
    for rpc_id in [3, 1, 2] {
        stream.extend(encode_frame(&ping_payload(rpc_id)).unwrap());
    }
    assert_eq!(answers(&mut clients, 0, &stream), vec![(0, 3), (0, 1), (0, 2)]);
}

#[test]
fn bad_frames_leave_no_trace() {
    let mut clients = ClientTable::new();
    clients.connect("10.0.0.1:1".to_string());
    let unknown = rmp_serde::to_vec(&Value::from("C2M_PingRequest")).unwrap();
    let mut stream = Vec::new();
    stream.extend(encode_frame(&[0xc1]).unwrap());
    stream.extend(encode_frame(&ping_payload(1)).unwrap());
    stream.extend(encode_frame(&unknown).unwrap());
    stream.extend(encode_frame(&[]).unwrap());
    stream.extend(encode_frame(&ping_payload(2)).unwrap());
    assert_eq!(answers(&mut clients, 0, &stream), vec![(0, 1), (0, 2)]);
    assert!(clients.address_of(0).is_some());
}

#[test]
fn late_reply_reaches_nobody() {
    let mut clients = ClientTable::new();
    let gone = clients.connect("10.0.0.1:1".to_string());
    clients.disconnect(gone);
    for _ in 0..10 {
        let again = clients.connect("10.0.0.1:1".to_string());
        assert_ne!(again, gone);
        let reply = NetworkMessage::Response { client_id: gone, data: 'x' };
        assert!(matches!(
            worker_step(&clients, WorkerEvent::Received(Some(reply))),
            WorkerAction::Discard { client_id: 0, data: 'x' }
        ));
    }
}

#[test]
fn gone_client_does_not_stop_its_queue() {
    let mut clients = ClientTable::new();
    for _ in 0..5 {
        clients.connect("10.0.0.1:1".to_string());
    }
    clients.disconnect(0);
    let reply = NetworkMessage::Response { client_id: 0, data: 'x' };
    assert!(matches!(
        worker_step(&clients, WorkerEvent::Received(Some(reply))),
        WorkerAction::Discard { .. }
    ));
    let reply = NetworkMessage::Response { client_id: 4, data: 'y' };
    assert!(matches!(
        worker_step(&clients, WorkerEvent::Received(Some(reply))),
        WorkerAction::Write { client_id: 4, data: 'y' }
    ));
}

#[test]
fn both_servers_count_alike() {
    let mut tcp = TCPServer::new("0.0.0.0:8080");
    let mut kcp = KCPServer::new("0.0.0.0:3100");
    for id in 0..5 {
        for clients in [&mut tcp.clients, &mut kcp.clients] {
            let addr = "10.0.0.1:1".to_string();
            assert_eq!(
                accept_step(clients, AcceptEvent::Accepted { addr }),
                AcceptAction::Serve { client_id: id }
            );
            if id == 2 {
                assert_eq!(reader_step(clients, 1, ReadEvent::Closed), Control::Stop);
            }
        }
    }
    for id in 0..6 {
        assert_eq!(tcp.clients.address_of(id), kcp.clients.address_of(id));
        assert_eq!(tcp.clients.address_of(id).is_some(), id != 1 && id < 5);
    }
}
