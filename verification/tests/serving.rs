use tiangz::clients::ClientTable;
use tiangz::dispatch::{handler_map, process_message_msgpack, Dispatched};
use tiangz::errors::MyError;
use tiangz::message::{AnyMessage, C2M_PingRequest, NetworkMessage};
use tiangz::server::{
    accept_step, main_step, plan_queues, reader_step, worker_step, write_step, AcceptAction,
    AcceptEvent, Control, KCPServer, MainAction, MainEvent, QueuePlan, ReadEvent, TCPServer,
    WorkerAction, WorkerEvent,
};

#[test]
fn new_servers_are_empty() {
    let tcp = TCPServer::new("0.0.0.0:8080");
    assert_eq!(tcp.addr, "0.0.0.0:8080");
    assert_eq!(tcp.clients.address_of(0), None);
    let mut kcp = KCPServer::new("0.0.0.0:3100");
    assert_eq!(kcp.addr, "0.0.0.0:3100");
    assert_eq!(kcp.clients.connect("10.0.0.1:1".to_string()), 0);
}

#[test]
fn clients_come_and_go() {
    let mut clients = ClientTable::new();
    assert_eq!(clients.connect("10.0.0.1:1".to_string()), 0);
    assert_eq!(clients.connect("10.0.0.2:2".to_string()), 1);
    assert_eq!(clients.address_of(0), Some("10.0.0.1:1".to_string()));
    assert_eq!(clients.address_of(1), Some("10.0.0.2:2".to_string()));
    assert_eq!(clients.address_of(2), None);
    assert_eq!(clients.disconnect(0), Some("10.0.0.1:1".to_string()));
    assert_eq!(clients.disconnect(0), None);
    assert_eq!(clients.address_of(0), None);
    assert_eq!(clients.address_of(1), Some("10.0.0.2:2".to_string()));
}

#[test]
fn ids_are_not_reused() {
    let mut clients = ClientTable::new();
    for id in 0..100 {
        assert_eq!(clients.address_of(id), None);
        assert_eq!(clients.connect(format!("10.0.0.1:{}", id)), id);
        if id % 2 == 0 {
            clients.disconnect(id);
        }
    }
    for id in 0..100 {
        assert_eq!(clients.address_of(id).is_some(), id % 2 == 1);
    }
}

#[test]
fn queues_are_planned() {
    assert_eq!(
        plan_queues(8, 100_000),
        Some(QueuePlan { workers: 8, worker_queue: 100_000, request_queue: 800_000 })
    );
    assert_eq!(
        plan_queues(1, usize::MAX / 8),
        Some(QueuePlan {
            workers: 1,
            worker_queue: usize::MAX / 8,
            request_queue: usize::MAX / 8
        })
    );
    assert_eq!(plan_queues(0, 100), None);
    assert_eq!(plan_queues(8, 0), None);
    assert_eq!(plan_queues(1, usize::MAX / 8 + 1), None);
    assert_eq!(plan_queues(2, usize::MAX), None);
}

#[test]
fn accepting_serves_or_stops() {
    let mut clients = ClientTable::new();
    for id in 0..3 {
        let addr = "10.0.0.1:1".to_string();
        assert_eq!(
            accept_step(&mut clients, AcceptEvent::Accepted { addr }),
            AcceptAction::Serve { client_id: id }
        );
    }
    assert_eq!(accept_step(&mut clients, AcceptEvent::Failed), AcceptAction::Stop);
    assert_eq!(accept_step(&mut clients, AcceptEvent::Shutdown), AcceptAction::Stop);
    assert_eq!(clients.address_of(2), Some("10.0.0.1:1".to_string()));
    assert_eq!(clients.address_of(3), None);
}

#[test]
fn refused_frames_do_not_end_reading() {
    let mut clients = ClientTable::new();
    clients.connect("10.0.0.1:1".to_string());
    for result in [
        Ok(()),
        Err(MyError::NotMessagePack()),
        Err(MyError::MessageNoTField()),
        Err(MyError::MessageHandlerNotFound("x".to_string())),
        Err(MyError::MessageObjectConvertFailed()),
    ] {
        assert_eq!(
            reader_step(&mut clients, 0, ReadEvent::Frame(result)),
            Control::Continue
        );
        assert!(clients.address_of(0).is_some());
    }
}

#[test]
fn end_of_reading_removes_the_client() {
    for event in [
        ReadEvent::Frame(Err(MyError::SendRequestFailed())),
        ReadEvent::Closed,
        ReadEvent::Failed,
    ] {
        let mut clients = ClientTable::new();
        clients.connect("10.0.0.1:1".to_string());
        clients.connect("10.0.0.2:2".to_string());
        assert_eq!(reader_step(&mut clients, 0, event), Control::Stop);
        assert!(clients.address_of(0).is_none());
        assert!(clients.address_of(1).is_some());
    }
}

#[test]
fn requests_are_spread_over_the_workers() {
    for client_id in 0..20 {
        let event = MainEvent::Received(Some(NetworkMessage::Request { client_id, data: 'r' }));
        match main_step(8, event) {
            MainAction::Handle { client_id: of, data, worker } => {
                assert_eq!(of, client_id);
                assert_eq!(data, 'r');
                assert_eq!(worker, Some(client_id % 8));
            }
            other => panic!("{:?}", other),
        }
    }
}

#[test]
fn main_loop_goes_on_or_stops() {
    let event = MainEvent::Received(Some(NetworkMessage::Message { data: 'm' }));
    assert!(matches!(
        main_step(8, event),
        MainAction::Handle { client_id: 0, data: 'm', worker: None }
    ));
    let event = MainEvent::Received(Some(NetworkMessage::Response { client_id: 1, data: 'x' }));
    assert!(matches!(main_step(8, event), MainAction::Stop { announcements: 1 }));
    let event: MainEvent<char> = MainEvent::Received(None);
    assert!(matches!(main_step(8, event), MainAction::Stop { announcements: 1 }));
    let event: MainEvent<char> = MainEvent::Interrupted;
    assert!(matches!(main_step(8, event), MainAction::Stop { announcements: 2 }));
}

#[test]
fn replies_go_to_connected_clients() {
    let mut clients = ClientTable::new();
    clients.connect("10.0.0.1:1".to_string());
    let event = WorkerEvent::Received(Some(NetworkMessage::Response { client_id: 0, data: 'x' }));
    assert!(matches!(
        worker_step(&clients, event),
        WorkerAction::Write { client_id: 0, data: 'x' }
    ));
    let event = WorkerEvent::Received(Some(NetworkMessage::Response { client_id: 1, data: 'x' }));
    assert!(matches!(
        worker_step(&clients, event),
        WorkerAction::Discard { client_id: 1, data: 'x' }
    ));
}

#[test]
fn worker_stops_on_anything_else() {
    let clients = ClientTable::new();
    for event in [
        WorkerEvent::Received(Some(NetworkMessage::Request { client_id: 0, data: 'x' })),
        WorkerEvent::Received(Some(NetworkMessage::Message { data: 'x' })),
        WorkerEvent::Received(None),
        WorkerEvent::Shutdown,
    ] {
        assert!(matches!(worker_step(&clients, event), WorkerAction::Stop));
    }
}

#[test]
fn failed_write_removes_the_client() {
    let mut clients = ClientTable::new();
    clients.connect("10.0.0.1:1".to_string());
    assert_eq!(write_step(&mut clients, 0, true), Control::Continue);
    assert!(clients.address_of(0).is_some());
    assert_eq!(write_step(&mut clients, 0, false), Control::Stop);
    assert!(clients.address_of(0).is_none());
}

#[test]
fn ping_comes_back() {
    let mut clients = ClientTable::new();
    let client_id = clients.connect("10.0.0.1:1".to_string());
    let ping = C2M_PingRequest { rpc_id: 1, _t: "C2M_PingRequest".to_string() };
    let request = NetworkMessage::Request { client_id, data: AnyMessage::Ping(ping) };
    let event = MainEvent::Received(Some(request));
    let (data, worker) = match main_step(4, event) {
        MainAction::Handle { data, worker, .. } => (data, worker),
        other => panic!("{:?}", other),
    };
    assert_eq!(worker, Some(0));
    let reply = match process_message_msgpack(&handler_map(), &data, client_id, worker.is_some()) {
        Dispatched::Handled { reply } => reply,
        other => panic!("{:?}", other),
    };
    match worker_step(&clients, WorkerEvent::Received(reply)) {
        WorkerAction::Write { client_id: to, data: AnyMessage::Pong(pong) } => {
            assert_eq!(to, client_id);
            assert_eq!(pong.rpc_id, 1);
            assert_eq!(pong.count, 1);
        }
        other => panic!("{:?}", other),
    }
}
