use std::collections::VecDeque;

use serde_json::Value;
use tiangz::clients::ClientTable;
use tiangz::dispatch::{paraser_map, process_frame_message, request_from, request_sent};
use tiangz::errors::MyError;
use tiangz::message::NetworkMessage;
use tiangz::server::{
    accept_step, main_step, reader_step, worker_step, write_step, AcceptAction, AcceptEvent,
    Control, KCPServer, MainAction, MainEvent, ReadEvent, TCPServer, WorkerAction, WorkerEvent,
};

/// A server whose loops take their turns when told to. Its handler answers in upper case.
struct Turns {
    clients: ClientTable,
    accepting: bool,
    reading: Vec<usize>,
    serving: bool,
    requests: VecDeque<(usize, char)>,
    workers: Vec<(bool, VecDeque<(usize, char)>)>,
    handled: Vec<(usize, char)>,
    written: Vec<(usize, char)>,
}

impl Turns {
    fn new(clients: ClientTable, workers: usize) -> Turns {
        Turns {
            clients,
            accepting: true,
            reading: Vec::new(),
            serving: true,
            requests: VecDeque::new(),
            workers: vec![(true, VecDeque::new()); workers],
            handled: Vec::new(),
            written: Vec::new(),
        }
    }

    fn accept(&mut self, event: AcceptEvent) {
        assert!(self.accepting);
        match accept_step(&mut self.clients, event) {
            AcceptAction::Serve { client_id } => self.reading.push(client_id),
            AcceptAction::Stop => self.accepting = false,
        }
    }

    fn connect(&mut self, addr: &str) {
        self.accept(AcceptEvent::Accepted { addr: addr.to_string() });
    }

    fn read(&mut self, client_id: usize, event: ReadEvent) {
        assert!(self.reading.contains(&client_id));
        if reader_step(&mut self.clients, client_id, event) == Control::Stop {
            self.reading.retain(|id| *id != client_id);
        }
    }

    fn ask(&mut self, client_id: usize, data: char) {
        match request_from(client_id, Some(data)) {
            Ok(NetworkMessage::Request { client_id, data }) => {
                self.requests.push_back((client_id, data));
            }
            other => panic!("{:?}", other),
        }
        self.read(client_id, ReadEvent::Frame(request_sent(true)));
    }

    fn main(&mut self, event: MainEvent<char>) {
        assert!(self.serving);
        match main_step(self.workers.len(), event) {
            MainAction::Handle { client_id, data, worker } => {
                self.handled.push((client_id, data));
                let (working, queue) = &mut self.workers[worker.unwrap()];
                if *working {
                    queue.push_back((client_id, data.to_ascii_uppercase()));
                }
            }
            MainAction::Stop { .. } => self.serving = false,
        }
    }

    fn handle(&mut self) {
        let (client_id, data) = self.requests.pop_front().unwrap();
        self.main(MainEvent::Received(Some(NetworkMessage::Request { client_id, data })));
    }

    fn work(&mut self, worker: usize, succeeds: bool) {
        assert!(self.workers[worker].0);
        let (client_id, data) = self.workers[worker].1.pop_front().unwrap();
        let reply = NetworkMessage::Response { client_id, data };
        match worker_step(&self.clients, WorkerEvent::Received(Some(reply))) {
            WorkerAction::Write { client_id, data } => {
                if succeeds {
                    self.written.push((client_id, data));
                }
                let control = write_step(&mut self.clients, client_id, succeeds);
                self.workers[worker].0 = control == Control::Continue;
            }
            WorkerAction::Discard { .. } => {}
            WorkerAction::Stop => self.workers[worker].0 = false,
        }
    }
}

fn of_client(messages: &[(usize, char)], client_id: usize) -> String {
    messages.iter().filter(|m| m.0 == client_id).map(|m| m.1).collect()
}

#[test]
fn requests_are_handled_in_order() {
    let mut turns = Turns::new(ClientTable::new(), 2);
    turns.connect("10.0.0.1:1");
    turns.connect("10.0.0.1:2");
    turns.ask(0, 'a');
    turns.ask(1, 'x');
    turns.ask(0, 'b');
    turns.handle();
    turns.ask(1, 'y');
    turns.handle();
    turns.handle();
    assert_eq!(turns.handled, vec![(0, 'a'), (1, 'x'), (0, 'b')]);
    assert_eq!(turns.requests, vec![(1, 'y')]);
    turns.work(0, true);
    turns.work(1, true);
    turns.work(0, true);
    assert_eq!(of_client(&turns.written, 0), "AB");
    assert_eq!(of_client(&turns.written, 1), "X");
}

#[test]
fn failed_write_ends_the_worker_for_all_its_clients() {
    let mut turns = Turns::new(ClientTable::new(), 1);
    turns.connect("10.0.0.1:1");
    turns.connect("10.0.0.1:2");
    for (id, data) in [(0, 'a'), (1, 'x'), (0, 'b')] {
        turns.ask(id, data);
        turns.handle();
    }
    turns.work(0, true);
    turns.work(0, false);
    assert!(!turns.workers[0].0);
    assert_eq!(turns.workers[0].1, vec![(0, 'B')]);
    turns.ask(0, 'c');
    turns.handle();
    assert_eq!(turns.workers[0].1, vec![(0, 'B')]);
    assert_eq!(of_client(&turns.handled, 0), "abc");
    assert_eq!(of_client(&turns.written, 0), "A");
    assert!(turns.clients.address_of(0).is_some());
    assert!(turns.clients.address_of(1).is_none());
}

#[test]
fn nothing_is_handled_after_an_interrupt() {
    let mut turns = Turns::new(ClientTable::new(), 2);
    turns.connect("10.0.0.1:1");
    turns.ask(0, 'a');
    turns.ask(0, 'b');
    turns.handle();
    turns.main(MainEvent::Interrupted);
    assert!(!turns.serving);
    turns.accept(AcceptEvent::Shutdown);
    assert!(!turns.accepting);
    turns.work(0, true);
    assert!(matches!(
        worker_step::<char>(&turns.clients, WorkerEvent::Shutdown),
        WorkerAction::Stop
    ));
    turns.read(0, ReadEvent::Frame(request_sent(false)));
    assert!(turns.reading.is_empty());
    assert_eq!(turns.handled, vec![(0, 'a')]);
    assert_eq!(turns.requests, vec![(0, 'b')]);
    assert_eq!(turns.written, vec![(0, 'A')]);
    assert!(turns.clients.address_of(0).is_none());
}

#[test]
fn servers_behave_alike_in_any_order() {
    let mut tcp = Turns::new(TCPServer::new("0.0.0.0:8080").clients, 4);
    for addr in ["10.0.0.1:1", "10.0.0.1:2", "10.0.0.1:3"] {
        tcp.connect(addr);
    }
    for (id, data) in [(0, 'a'), (0, 'b'), (2, 'r'), (1, 'x'), (2, 's')] {
        tcp.ask(id, data);
    }
    tcp.read(1, ReadEvent::Closed);
    for _ in 0..5 {
        tcp.handle();
    }

    let mut kcp = Turns::new(KCPServer::new("0.0.0.0:3100").clients, 3);
    kcp.connect("10.0.0.1:1");
    kcp.ask(0, 'a');
    kcp.handle();
    kcp.connect("10.0.0.1:2");
    kcp.ask(1, 'x');
    kcp.read(1, ReadEvent::Closed);
    kcp.connect("10.0.0.1:3");
    kcp.ask(2, 'r');
    kcp.ask(2, 's');
    kcp.ask(0, 'b');
    for _ in 0..4 {
        kcp.handle();
    }

    assert_ne!(tcp.handled, kcp.handled);
    for (id, requests) in [(0, "ab"), (1, "x"), (2, "rs"), (3, "")] {
        assert_eq!(of_client(&tcp.handled, id), requests);
        assert_eq!(of_client(&kcp.handled, id), requests);
        assert_eq!(tcp.clients.address_of(id), kcp.clients.address_of(id));
        assert_eq!(tcp.clients.address_of(id).is_some(), id == 0 || id == 2);
    }
}

#[test]
fn table_holds_who_came_and_stayed() {
    let mut turns = Turns::new(ClientTable::new(), 2);
    for id in 0..5 {
        turns.connect(&format!("10.0.0.1:{}", id));
    }
    turns.read(1, ReadEvent::Failed);
    turns.read(2, ReadEvent::Frame(Err(MyError::NotMessagePack())));
    turns.ask(4, 'a');
    turns.handle();
    turns.work(0, false);
    for id in 0..6 {
        let addr = turns.clients.address_of(id);
        if id == 0 || id == 2 || id == 3 {
            assert_eq!(addr, Some(format!("10.0.0.1:{}", id)));
        } else {
            assert_eq!(addr, None);
        }
    }
    assert_eq!(turns.reading, vec![0, 2, 3, 4]);
}

#[test]
fn gone_client_is_passed_over() {
    let mut turns = Turns::new(ClientTable::new(), 1);
    turns.connect("10.0.0.1:1");
    turns.connect("10.0.0.1:2");
    turns.ask(0, 'a');
    turns.ask(1, 'x');
    turns.handle();
    turns.handle();
    turns.read(0, ReadEvent::Closed);
    turns.connect("10.0.0.1:1");
    turns.work(0, true);
    turns.work(0, true);
    assert!(turns.workers[0].0);
    assert_eq!(turns.written, vec![(1, 'X')]);
}

#[test]
fn frames_are_judged_alone() {
    let mut map = serde_json::Map::new();
    map.insert("rpc_id".to_string(), Value::from(7));
    map.insert("_t".to_string(), Value::from("C2M_PingRequest"));
    let ping = rmp_serde::to_vec(&Value::Object(map.clone())).unwrap();
    map.insert("_t".to_string(), Value::from("C2M_Unknown"));
    let unknown = rmp_serde::to_vec(&Value::Object(map)).unwrap();
    for client_id in [0, 1, 0, 128] {
        let job = process_frame_message(&paraser_map(), &ping, client_id).unwrap();
        assert_eq!(job.client_id, client_id);
        assert_eq!(job.value["rpc_id"], Value::from(7));
        match process_frame_message(&paraser_map(), &unknown, client_id) {
            Err(MyError::MessageHandlerNotFound(name)) => assert_eq!(name, "C2M_Unknown"),
            other => panic!("{:?}", other),
        }
        assert!(matches!(
            process_frame_message(&paraser_map(), &[0xc1], client_id),
            Err(MyError::NotMessagePack())
        ));
    }
}
