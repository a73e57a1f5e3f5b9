//! The decisions of a running server.
//!
//! A server runs four kinds of loops. One accepts connections. One per connection reads frames and
//! puts requests on the request queue. The main loop takes requests off that queue and has them
//! handled. A number of workers take replies off their own queues and write them to the clients.
//! Each function here is one turn of such a loop: it is told what the loop waited for, updates the
//! table of clients and says what the loop does next.

use serde_json::Value;
use vstd::prelude::*;

use crate::clients::{
    after_events, connections, law_departed_ids_stay_free, ClientTable, Clients, TableEvent,
};
use crate::dispatch::{
    dispatches, ends, law_requests_are_answered, requests, sorts, standard_handlers,
    standard_parasers, Dispatched, FrameJob, MessageParaser,
};
use crate::envelope::{msgpack_value, text_fields};
use crate::errors::RetResult;
use crate::frame::{
    framed, front, law_front_of_framed, law_only_long_frames_are_refused, reads, FrameRead,
    ProtocolParser,
};
use crate::message::{AnyMessage, C2M_PingRequest, NetworkMessage};

verus! {

/// The longest payload that a connection accepts.
pub const MAX_FRAME_SIZE: usize = 10240;

/// The parser that a new connection is read with.
pub fn connection_parser() -> (r: ProtocolParser)
    ensures
        r.pending() == Seq::<u8>::empty(),
        r.max_frame_size() == MAX_FRAME_SIZE,
        r.max_frame_size() == 10 * 1024,
{
    ProtocolParser::new().with_max_frame_size(MAX_FRAME_SIZE)
}

/// A server for TCP connections.
pub struct TCPServer {
    pub clients: ClientTable,
    pub addr: String,
}

impl TCPServer {
    /// A server for `addr` without clients.
    pub fn new(addr: &str) -> (r: Self)
        ensures
            r.clients@ == Clients::initial(),
            r.clients@.next_id == 0,
            forall|id: usize| !(#[trigger] r.clients@.connected.contains_key(id)),
            r.addr@ == addr@,
    {
        TCPServer { clients: ClientTable::new(), addr: addr.to_owned() }
    }
}

/// A server for KCP connections.
pub struct KCPServer {
    pub clients: ClientTable,
    pub addr: String,
}

impl KCPServer {
    /// A server for `addr` without clients.
    pub fn new(addr: &str) -> (r: Self)
        ensures
            r.clients@ == Clients::initial(),
            r.clients@.next_id == 0,
            forall|id: usize| !(#[trigger] r.clients@.connected.contains_key(id)),
            r.addr@ == addr@,
    {
        KCPServer { clients: ClientTable::new(), addr: addr.to_owned() }
    }
}

/// The queues of a server.
#[derive(Clone, Copy, Debug, PartialEq, Eq, Structural)]
pub struct QueuePlan {
    /// How many workers there are, each with a queue of its own.
    pub workers: usize,
    /// How many replies fit in the queue of a worker.
    pub worker_queue: usize,
    /// How many requests fit in the request queue.
    pub request_queue: usize,
}

/// Whether a server can have `work_thread_num` workers with queues of `queue_len`: there is a
/// worker and room in its queue, and the request queue, which has room for as much as the worker
/// queues together, is not larger than a queue can be.
pub open spec fn can_be_planned(work_thread_num: usize, queue_len: usize) -> bool {
    &&& work_thread_num > 0
    &&& queue_len > 0
    &&& work_thread_num * queue_len <= usize::MAX / 8
}

/// Lays out the queues of a server, if it can have them.
pub fn plan_queues(work_thread_num: usize, queue_len: usize) -> (r: Option<QueuePlan>)
    ensures
        match r {
            Some(plan) => {
                &&& can_be_planned(work_thread_num, queue_len)
                &&& plan.workers == work_thread_num
                &&& plan.worker_queue == queue_len
                &&& plan.request_queue == work_thread_num * queue_len
            },
            None => !can_be_planned(work_thread_num, queue_len),
        },
        r is Some <==> work_thread_num > 0 && queue_len > 0 && work_thread_num * queue_len
            <= usize::MAX / 8,
{
    if work_thread_num == 0 || queue_len == 0 {
        return None;
    }
    match queue_len.checked_mul(work_thread_num) {
        Some(total) => {
            assert(total == work_thread_num * queue_len) by (nonlinear_arith)
                requires
                    total == queue_len * work_thread_num,
            ;
            if total > usize::MAX / 8 {
                None
            } else {
                Some(
                    QueuePlan {
                        workers: work_thread_num,
                        worker_queue: queue_len,
                        request_queue: total,
                    },
                )
            }
        },
        None => {
            assert(work_thread_num * queue_len > usize::MAX) by (nonlinear_arith)
                requires
                    queue_len * work_thread_num > usize::MAX,
            ;
            None
        },
    }
}

/// Nothing but an empty or an overlong queue stands in the way of a server: it can have any number
/// of workers with queues of any length, as long as there is one of each and all of them together
/// are not larger than a queue can be. So fewer workers, or shorter queues, can always be had too.
pub proof fn law_only_empty_or_overlong_queues_are_refused(
    work_thread_num: usize,
    queue_len: usize,
    fewer: usize,
    shorter: usize,
)
    ensures
        work_thread_num > 0 && queue_len > 0 && work_thread_num * queue_len <= usize::MAX / 8
            ==> can_be_planned(work_thread_num, queue_len),
        can_be_planned(work_thread_num, queue_len) ==> work_thread_num > 0 && queue_len > 0
            && work_thread_num * queue_len <= usize::MAX / 8,
        can_be_planned(work_thread_num, queue_len) <==> can_be_planned(queue_len, work_thread_num),
        can_be_planned(work_thread_num, queue_len) && 0 < fewer <= work_thread_num && 0 < shorter
            <= queue_len ==> can_be_planned(fewer, shorter),
{
    assert(work_thread_num * queue_len == queue_len * work_thread_num) by (nonlinear_arith);
    if fewer <= work_thread_num && shorter <= queue_len {
        assert(fewer * shorter <= work_thread_num * queue_len) by (nonlinear_arith)
            requires
                fewer <= work_thread_num,
                shorter <= queue_len,
        ;
    }
}

/// Whether a loop goes on.
#[derive(Clone, Copy, Debug, PartialEq, Eq, Structural)]
pub enum Control {
    Continue,
    Stop,
}

/// What the accepting loop waited for.
#[derive(Debug)]
pub enum AcceptEvent {
    /// A client at this address connected.
    Accepted { addr: String },
    /// Accepting failed.
    Failed,
    /// The server shuts down.
    Shutdown,
}

/// What the accepting loop does next.
#[derive(Clone, Copy, Debug, PartialEq, Eq, Structural)]
pub enum AcceptAction {
    /// Start reading from the client, which has this id, and go on.
    Serve { client_id: usize },
    /// End the loop.
    Stop,
}

/// What the accepting loop does after `event`.
pub open spec fn accept_action(clients: Clients, event: AcceptEvent) -> AcceptAction {
    match event {
        AcceptEvent::Accepted { .. } => AcceptAction::Serve { client_id: clients.next_id },
        _ => AcceptAction::Stop,
    }
}

/// The table after one turn of the accepting loop.
pub open spec fn after_accept(clients: Clients, event: AcceptEvent) -> Clients {
    match event {
        AcceptEvent::Accepted { addr } => clients.after_connect(addr@),
        _ => clients,
    }
}

/// One turn of the accepting loop.
pub fn accept_step(clients: &mut ClientTable, event: AcceptEvent) -> (r: AcceptAction)
    ensures
        r == accept_action(old(clients)@, event),
        final(clients)@ == after_accept(old(clients)@, event),
        match event {
            AcceptEvent::Accepted { addr } => {
                &&& r == (AcceptAction::Serve { client_id: old(clients)@.next_id })
                &&& final(clients)@.connected == old(clients)@.connected.insert(
                    old(clients)@.next_id,
                    addr@,
                )
                &&& final(clients)@.next_id == if old(clients)@.next_id == usize::MAX {
                    0
                } else {
                    old(clients)@.next_id + 1
                }
            },
            AcceptEvent::Failed | AcceptEvent::Shutdown => {
                &&& r == AcceptAction::Stop
                &&& final(clients)@ == old(clients)@
            },
        },
{
    match event {
        AcceptEvent::Accepted { addr } => AcceptAction::Serve { client_id: clients.connect(addr) },
        _ => AcceptAction::Stop,
    }
}

/// What the loop that reads from a client waited for.
#[derive(Debug)]
pub enum ReadEvent {
    /// A frame arrived, and was processed with this result.
    Frame(RetResult<()>),
    /// The client closed the connection.
    Closed,
    /// The connection failed, or what arrived is no frame.
    Failed,
}

/// Whether reading goes on after `event`: it does after every frame, even a refused one, unless the
/// request queue is closed.
pub open spec fn reads_on(event: ReadEvent) -> bool {
    match event {
        ReadEvent::Frame(Ok(_)) => true,
        ReadEvent::Frame(Err(e)) => !(e is SendRequestFailed),
        ReadEvent::Closed => false,
        ReadEvent::Failed => false,
    }
}

/// The table after one turn of the loop that reads from `client_id`.
pub open spec fn after_read(clients: Clients, client_id: usize, event: ReadEvent) -> Clients {
    if reads_on(event) {
        clients
    } else {
        clients.after_disconnect(client_id)
    }
}

/// One turn of the loop that reads from a client. The client is let go when the loop ends.
pub fn reader_step(clients: &mut ClientTable, client_id: usize, event: ReadEvent) -> (r: Control)
    ensures
        r == if reads_on(event) {
            Control::Continue
        } else {
            Control::Stop
        },
        final(clients)@ == after_read(old(clients)@, client_id, event),
        match event {
            ReadEvent::Frame(result) => r == Control::Stop <==> (result matches Err(e)
                && e is SendRequestFailed),
            ReadEvent::Closed | ReadEvent::Failed => r == Control::Stop,
        },
        r == Control::Continue ==> final(clients)@ == old(clients)@,
        r == Control::Stop ==> final(clients)@.connected == old(clients)@.connected.remove(
            client_id,
        ) && final(clients)@.next_id == old(clients)@.next_id,
{
    let goes_on: bool = match event {
        ReadEvent::Frame(Ok(_)) => true,
        ReadEvent::Frame(Err(e)) => !e.closes_connection(),
        ReadEvent::Closed => false,
        ReadEvent::Failed => false,
    };
    if goes_on {
        Control::Continue
    } else {
        let _ = clients.disconnect(client_id);
        Control::Stop
    }
}

/// What the main loop waited for.
#[derive(Debug)]
pub enum MainEvent<M> {
    /// Something came off the request queue, or the queue is closed.
    Received(Option<NetworkMessage<M>>),
    /// The process was told to end.
    Interrupted,
}

/// What the main loop does next.
#[derive(Debug)]
pub enum MainAction<M> {
    /// Have the message handled, let this worker have the reply, and go on. Without a worker there
    /// is nobody to reply to.
    Handle { client_id: usize, data: M, worker: Option<usize> },
    /// End the loop and announce the shutdown this many times.
    Stop { announcements: usize },
}

/// The worker that writes to a client.
pub open spec fn worker_of(client_id: usize, workers: usize) -> usize {
    (client_id % workers) as usize
}

/// What the main loop does after `event`.
pub open spec fn main_action<M>(workers: usize, event: MainEvent<M>) -> MainAction<M> {
    match event {
        MainEvent::Received(Some(NetworkMessage::Request { client_id, data })) => {
            MainAction::Handle { client_id, data, worker: Some(worker_of(client_id, workers)) }
        },
        MainEvent::Received(Some(NetworkMessage::Message { data })) => {
            MainAction::Handle { client_id: 0, data, worker: None }
        },
        MainEvent::Received(_) => MainAction::Stop { announcements: 1 },
        MainEvent::Interrupted => MainAction::Stop { announcements: 2 },
    }
}

/// One turn of the main loop.
pub fn main_step<M>(workers: usize, event: MainEvent<M>) -> (r: MainAction<M>)
    requires
        workers > 0,
    ensures
        r == main_action(workers, event),
        match event {
            MainEvent::Received(Some(NetworkMessage::Request { client_id, data })) => {
                &&& r matches MainAction::Handle { client_id: from, data: asked, worker: Some(w) }
                &&& from == client_id
                &&& asked == data
                &&& w == client_id as int % workers as int
            },
            MainEvent::Received(Some(NetworkMessage::Message { data })) => {
                &&& r matches MainAction::Handle { client_id: from, data: asked, worker: None }
                &&& from == 0
                &&& asked == data
            },
            MainEvent::Received(Some(NetworkMessage::Response { .. }))
            | MainEvent::Received(None) => r matches MainAction::Stop { announcements: n } && n
                == 1,
            MainEvent::Interrupted => r matches MainAction::Stop { announcements: n } && n == 2,
        },
{
    match event {
        MainEvent::Received(Some(NetworkMessage::Request { client_id, data })) => {
            MainAction::Handle { client_id, data, worker: Some(client_id % workers) }
        },
        MainEvent::Received(Some(NetworkMessage::Message { data })) => {
            MainAction::Handle { client_id: 0, data, worker: None }
        },
        MainEvent::Received(_) => MainAction::Stop { announcements: 1 },
        MainEvent::Interrupted => MainAction::Stop { announcements: 2 },
    }
}

/// What a worker waited for.
#[derive(Debug)]
pub enum WorkerEvent<M> {
    /// Something came off its queue, or the queue is closed.
    Received(Option<NetworkMessage<M>>),
    /// The server shuts down.
    Shutdown,
}

/// What a worker does next.
#[derive(Debug)]
pub enum WorkerAction<M> {
    /// Write the message to the client, and go by [`write_step`].
    Write { client_id: usize, data: M },
    /// Drop the message, because the client is gone, and go on.
    Discard { client_id: usize, data: M },
    /// End the loop.
    Stop,
}

/// What a worker does after `event`.
pub open spec fn worker_action<M>(clients: Clients, event: WorkerEvent<M>) -> WorkerAction<M> {
    match event {
        WorkerEvent::Received(Some(NetworkMessage::Response { client_id, data })) => {
            if clients.connected.contains_key(client_id) {
                WorkerAction::Write { client_id, data }
            } else {
                WorkerAction::Discard { client_id, data }
            }
        },
        _ => WorkerAction::Stop,
    }
}

/// One turn of a worker.
pub fn worker_step<M>(clients: &ClientTable, event: WorkerEvent<M>) -> (r: WorkerAction<M>)
    ensures
        r == worker_action(clients@, event),
        match event {
            WorkerEvent::Received(Some(NetworkMessage::Response { client_id, data })) => {
                &&& clients@.connected.contains_key(client_id) ==> r == (WorkerAction::Write {
                    client_id,
                    data,
                })
                &&& !clients@.connected.contains_key(client_id) ==> r == (WorkerAction::Discard {
                    client_id,
                    data,
                })
            },
            _ => r is Stop,
        },
{
    match event {
        WorkerEvent::Received(Some(NetworkMessage::Response { client_id, data })) => {
            match clients.address_of(client_id) {
                Some(_) => WorkerAction::Write { client_id, data },
                None => WorkerAction::Discard { client_id, data },
            }
        },
        _ => WorkerAction::Stop,
    }
}

/// The table after a worker wrote to `client_id`, or failed to.
pub open spec fn after_write(clients: Clients, client_id: usize, written: bool) -> Clients {
    if written {
        clients
    } else {
        clients.after_disconnect(client_id)
    }
}

/// What a worker does after writing to a client: if that failed, the client is let go and the
/// worker ends.
pub fn write_step(clients: &mut ClientTable, client_id: usize, written: bool) -> (r: Control)
    ensures
        r == if written {
            Control::Continue
        } else {
            Control::Stop
        },
        final(clients)@ == after_write(old(clients)@, client_id, written),
        written ==> final(clients)@ == old(clients)@,
        !written ==> final(clients)@.connected == old(clients)@.connected.remove(client_id)
            && final(clients)@.next_id == old(clients)@.next_id,
{
    if written {
        Control::Continue
    } else {
        let _ = clients.disconnect(client_id);
        Control::Stop
    }
}

/// Every connection is served: whoever is in the table, and however many, an accepted client gets
/// the next id, stands in the table under it with its address, and accepting goes on. Only a failed
/// accept or a shutdown ends it, and those leave the table as it is.
pub proof fn law_every_connection_is_served(clients: Clients, event: AcceptEvent)
    ensures
        accept_action(clients, event) is Serve <==> event is Accepted,
        event matches AcceptEvent::Accepted { addr } ==> {
            &&& accept_action(clients, event) == (AcceptAction::Serve {
                client_id: clients.next_id,
            })
            &&& after_accept(clients, event).connected == clients.connected.insert(
                clients.next_id,
                addr@,
            )
            &&& clients.next_id < usize::MAX ==> after_accept(clients, event).next_id
                == clients.next_id + 1
            &&& clients.next_id == usize::MAX ==> after_accept(clients, event).next_id == 0
        },
        !(event is Accepted) ==> after_accept(clients, event) == clients,
{
}

/// Reading ends when the connection does or the request queue is closed, and for no other reason:
/// not for anything in a frame.
pub proof fn law_reading_ends_with_the_connection(
    clients: Clients,
    client_id: usize,
    event: ReadEvent,
)
    ensures
        !reads_on(event) <==> match event {
            ReadEvent::Frame(result) => result matches Err(e) && e is SendRequestFailed,
            ReadEvent::Closed => true,
            ReadEvent::Failed => true,
        },
        after_read(clients, client_id, event).connected == if reads_on(event) {
            clients.connected
        } else {
            clients.connected.remove(client_id)
        },
        after_read(clients, client_id, event).next_id == clients.next_id,
{
}

/// The main loop has every request and message handled, unchanged and for the client that it came
/// from, and ends only on an interrupt, on a closed queue or on what is no request. Both kinds of
/// end are announced, an interrupt once more than the others.
pub proof fn law_main_loop_handles_every_request<M>(workers: usize, client_id: usize, data: M)
    requires
        workers > 0,
    ensures
        main_action(
            workers,
            MainEvent::Received(Some(NetworkMessage::Request { client_id, data })),
        ) matches MainAction::Handle { client_id: from, data: asked, worker: Some(worker) } && {
            &&& from == client_id
            &&& asked == data
            &&& worker < workers
            &&& exists|turns: int| #[trigger] (turns * workers) + worker == client_id
        },
        main_action(
            workers,
            MainEvent::Received(Some(NetworkMessage::Message { data })),
        ) matches MainAction::Handle { client_id: from, data: asked, worker: None } && from == 0
            && asked == data,
        main_action(
            workers,
            MainEvent::Received(Some(NetworkMessage::Response { client_id, data })),
        ) matches MainAction::Stop { announcements: n } && n == 1,
        main_action(workers, MainEvent::<M>::Received(None)) matches MainAction::Stop {
            announcements: n,
        } && n == 1,
        main_action(workers, MainEvent::<M>::Interrupted) matches MainAction::Stop {
            announcements: n,
        } && n == 2,
{
    vstd::arithmetic::div_mod::lemma_fundamental_div_mod(client_id as int, workers as int);
    let turns = client_id as int / workers as int;
    assert(turns * workers + worker_of(client_id, workers) == client_id) by (nonlinear_arith)
        requires
            client_id == workers * turns + (client_id as int % workers as int),
            worker_of(client_id, workers) == client_id as int % workers as int,
    ;
}

/// A worker goes on as long as replies come off its queue and its writes succeed: it writes to who
/// is connected and drops what is for others. A failed write costs the client its place, and
/// nobody else theirs.
pub proof fn law_workers_go_on<M>(clients: Clients, client_id: usize, data: M)
    ensures
        worker_action(
            clients,
            WorkerEvent::Received(Some(NetworkMessage::Response { client_id, data })),
        ) == if clients.connected.contains_key(client_id) {
            WorkerAction::Write { client_id, data }
        } else {
            WorkerAction::Discard { client_id, data }
        },
        worker_action(
            clients,
            WorkerEvent::Received(Some(NetworkMessage::Request { client_id, data })),
        ) is Stop,
        worker_action(
            clients,
            WorkerEvent::Received(Some(NetworkMessage::Message { data })),
        ) is Stop,
        worker_action(clients, WorkerEvent::<M>::Received(None)) is Stop,
        worker_action(clients, WorkerEvent::<M>::Shutdown) is Stop,
        after_write(clients, client_id, true) == clients,
        after_write(clients, client_id, false).connected == clients.connected.remove(client_id),
        after_write(clients, client_id, false).next_id == clients.next_id,
{
}

/// A connection takes payloads of up to ten kilobytes: a frame is refused for its length exactly if
/// its header announces more.
pub proof fn law_connections_take_ten_kilobytes(bytes: Seq<u8>)
    ensures
        front(bytes, MAX_FRAME_SIZE as nat) is Oversized <==> bytes.len() >= 2 && bytes[0] * 256
            + bytes[1] > 10 * 1024,
{
    law_only_long_frames_are_refused(bytes, MAX_FRAME_SIZE as nat);
}

/// The table after the loop that reads from `client_id` went through some events, up to the first
/// that ends it.
pub open spec fn after_reads(
    clients: Clients,
    client_id: usize,
    events: Seq<ReadEvent>,
) -> Clients
    decreases events.len(),
{
    if events.len() == 0 {
        clients
    } else if reads_on(events[0]) {
        after_reads(after_read(clients, client_id, events[0]), client_id, events.skip(1))
    } else {
        after_read(clients, client_id, events[0])
    }
}

/// A client is in the table exactly as long as its loop runs: frames, refused ones included, change
/// nothing, and the end of the loop removes the client and nobody else.
pub proof fn law_client_lives_as_long_as_its_loop(
    clients: Clients,
    client_id: usize,
    events: Seq<ReadEvent>,
)
    ensures
        after_reads(clients, client_id, events) == if forall|i: int|
            0 <= i < events.len() ==> reads_on(#[trigger] events[i]) {
            clients
        } else {
            clients.after_disconnect(client_id)
        },
    decreases events.len(),
{
    if events.len() > 0 && reads_on(events[0]) {
        let rest = events.skip(1);
        law_client_lives_as_long_as_its_loop(clients, client_id, rest);
        if forall|i: int| 0 <= i < rest.len() ==> reads_on(#[trigger] rest[i]) {
            assert forall|i: int| 0 <= i < events.len() implies reads_on(#[trigger] events[i]) by {
                if i > 0 {
                    assert(rest[i - 1] == events[i]);
                }
            }
        } else {
            let i = choose|i: int| 0 <= i < rest.len() && !reads_on(#[trigger] rest[i]);
            assert(!reads_on(events[i + 1]));
        }
    }
}

/// Nothing that is wrong with a frame itself costs the connection: whether it is no MessagePack,
/// names no type or an unknown one, or does not fit its type, reading goes on and nobody is let
/// go.
pub proof fn law_bad_frames_are_survived<P, M>(
    clients: Clients,
    parasers: Map<Seq<char>, P>,
    decoded: Option<Value>,
    converted: Option<M>,
    client_id: usize,
    sorted: RetResult<FrameJob<P>>,
    requested: RetResult<NetworkMessage<M>>,
)
    requires
        sorts(parasers, decoded, client_id, sorted),
        requests(client_id, converted, requested),
    ensures
        sorted matches Err(e) ==> {
            &&& reads_on(ReadEvent::Frame(Err(e)))
            &&& after_read(clients, client_id, ReadEvent::Frame(Err(e))) == clients
        },
        requested matches Err(e) ==> {
            &&& reads_on(ReadEvent::Frame(Err(e)))
            &&& after_read(clients, client_id, ReadEvent::Frame(Err(e))) == clients
        },
{
}

/// An interrupt ends every loop: the main loop announces the shutdown and stops, on the
/// announcement accepting and the workers stop, and once the request queue is gone with the main
/// loop, the next request from a client ends the reading from it and lets it go.
pub proof fn law_interrupt_ends_every_loop<M>(
    workers: usize,
    clients: Clients,
    client_id: usize,
    result: RetResult<()>,
)
    requires
        ends(false, result),
    ensures
        main_action(workers, MainEvent::<M>::Interrupted) == (MainAction::<M>::Stop {
            announcements: 2,
        }),
        accept_action(clients, AcceptEvent::Shutdown) == AcceptAction::Stop,
        after_accept(clients, AcceptEvent::Shutdown) == clients,
        worker_action(clients, WorkerEvent::<M>::Shutdown) == WorkerAction::<M>::Stop,
        !reads_on(ReadEvent::Frame(result)),
        after_read(clients, client_id, ReadEvent::Frame(result)) == clients.after_disconnect(
            client_id,
        ),
{
}

/// Replies are written to connected clients only, each to the client that it is meant for, and
/// unchanged.
pub proof fn law_replies_reach_their_client<M>(
    clients: Clients,
    event: WorkerEvent<M>,
    client_id: usize,
    data: M,
)
    ensures
        worker_action(clients, event) == (WorkerAction::Write { client_id, data }) <==> {
            &&& clients.connected.contains_key(client_id)
            &&& event == WorkerEvent::Received(
                Some(NetworkMessage::Response { client_id, data }),
            )
        },
{
}

/// A client that was let go, by the end of its loop or by a failed write, is written to no more:
/// what is still meant for it is dropped.
pub proof fn law_gone_clients_get_nothing<M>(
    clients: Clients,
    client_id: usize,
    event: ReadEvent,
    data: M,
)
    ensures
        !reads_on(event) ==> worker_action(
            after_read(clients, client_id, event),
            WorkerEvent::Received(Some(NetworkMessage::Response { client_id, data })),
        ) == (WorkerAction::Discard { client_id, data }),
        worker_action(
            after_write(clients, client_id, false),
            WorkerEvent::Received(Some(NetworkMessage::Response { client_id, data })),
        ) == (WorkerAction::Discard { client_id, data }),
{
}

/// A late reply reaches nobody: what is meant for a client that is gone is dropped, however many
/// clients came and went since, until the ids run out. A client that connects again is another
/// client and does not get it.
pub proof fn law_late_replies_reach_nobody<M>(
    before: Seq<TableEvent>,
    since: Seq<TableEvent>,
    client_id: usize,
    data: M,
)
    requires
        connections(before + since) <= usize::MAX,
        client_id < after_events(Clients::initial(), before).next_id,
        !after_events(Clients::initial(), before).connected.contains_key(client_id),
    ensures
        worker_action(
            after_events(Clients::initial(), before + since),
            WorkerEvent::Received(Some(NetworkMessage::Response { client_id, data })),
        ) == (WorkerAction::Discard { client_id, data }),
{
    law_departed_ids_stay_free(before, since, client_id);
}

/// Every turn of every loop keeps the next id free, so in whatever order the loops take their
/// turns, a client that is accepted never takes the place of another. This holds until the ids run
/// out.
pub proof fn law_every_turn_keeps_the_next_id_free(
    clients: Clients,
    accepted: AcceptEvent,
    client_id: usize,
    read: ReadEvent,
    written: bool,
)
    requires
        clients.ids_are_past(),
    ensures
        clients.next_id < usize::MAX ==> after_accept(clients, accepted).ids_are_past(),
        after_read(clients, client_id, read).ids_are_past(),
        after_write(clients, client_id, written).ids_are_past(),
        accept_action(clients, accepted) matches AcceptAction::Serve { client_id: id }
            ==> !clients.connected.contains_key(id),
{
}

/// A ping comes back: taken off the request queue it is handled, and what its handler replies is
/// written by a worker that exists, to the client that asked if that client is still there, with
/// the `rpc_id` of the ping and a count of one.
pub proof fn law_ping_comes_back(
    workers: usize,
    clients: Clients,
    client_id: usize,
    rpc_id: i32,
    ping: AnyMessage,
    outcome: Dispatched<AnyMessage>,
)
    requires
        workers > 0,
        clients.connected.contains_key(client_id),
        ping matches AnyMessage::Ping(request) && request.rpc_id == rpc_id,
        dispatches(standard_handlers(), ping, client_id, true, outcome),
    ensures
        main_action(
            workers,
            MainEvent::Received(Some(NetworkMessage::Request { client_id, data: ping })),
        ) == (MainAction::Handle {
            client_id,
            data: ping,
            worker: Some(worker_of(client_id, workers)),
        }),
        worker_of(client_id, workers) < workers,
        outcome matches Dispatched::Handled { reply } && reply is Some && {
            &&& worker_action(clients, WorkerEvent::Received(reply)) matches WorkerAction::Write {
                client_id: to,
                data: AnyMessage::Pong(answer),
            }
            &&& to == client_id
            &&& answer.rpc_id == rpc_id
            &&& answer._t@ == "C2M_PingResponse"@
            &&& answer.error == 0
            &&& answer.message@.len() == 0
            &&& answer.count == 1
        },
{
    law_requests_are_answered(ping, client_id, outcome);
}

/// Whether a payload is a ping: MessagePack whose type field names it so.
pub open spec fn is_ping(payload: Seq<u8>) -> bool {
    &&& msgpack_value(payload) matches Some(value)
    &&& text_fields(value).contains_key("_t"@)
    &&& text_fields(value)["_t"@] == "C2M_PingRequest"@
}

/// A framed ping comes back: its frame is cut off the stream whole, whatever follows it, the
/// payload is recognised and handed to what makes pings of it, the request goes on the queue under
/// the id of the client, reading goes on with nobody let go, and the reply is written to the
/// client that asked, with the `rpc_id` of the ping and a count of one.
pub proof fn law_framed_ping_comes_back(
    workers: usize,
    clients: Clients,
    client_id: usize,
    payload: Seq<u8>,
    tail: Seq<u8>,
    read: FrameRead,
    left: Seq<u8>,
    sorted: RetResult<FrameJob<MessageParaser>>,
    request: C2M_PingRequest,
    requested: RetResult<NetworkMessage<AnyMessage>>,
    result: RetResult<()>,
    outcome: Dispatched<AnyMessage>,
)
    requires
        workers > 0,
        clients.connected.contains_key(client_id),
        payload.len() <= MAX_FRAME_SIZE,
        is_ping(payload),
        reads(framed(payload) + tail, MAX_FRAME_SIZE as nat, read, left),
        sorts(standard_parasers(), msgpack_value(payload), client_id, sorted),
        requests(client_id, Some(AnyMessage::Ping(request)), requested),
        ends(true, result),
        dispatches(standard_handlers(), AnyMessage::Ping(request), client_id, true, outcome),
    ensures
        read matches FrameRead::Frame(found) && found@ == payload,
        left == tail,
        sorted matches Ok(job) && {
            &&& job.client_id == client_id
            &&& job.paraser == MessageParaser::Ping
            &&& Some(job.value) == msgpack_value(payload)
        },
        requested matches Ok(queued) && {
            &&& queued == NetworkMessage::Request { client_id, data: AnyMessage::Ping(request) }
            &&& main_action(workers, MainEvent::Received(Some(queued))) == (MainAction::Handle {
                client_id,
                data: AnyMessage::Ping(request),
                worker: Some(worker_of(client_id, workers)),
            })
        },
        worker_of(client_id, workers) < workers,
        reads_on(ReadEvent::Frame(result)),
        after_read(clients, client_id, ReadEvent::Frame(result)) == clients,
        outcome matches Dispatched::Handled { reply } && reply is Some && {
            &&& worker_action(clients, WorkerEvent::Received(reply)) matches WorkerAction::Write {
                client_id: to,
                data: AnyMessage::Pong(answer),
            }
            &&& to == client_id
            &&& answer.rpc_id == request.rpc_id
            &&& answer._t@ == "C2M_PingResponse"@
            &&& answer.error == 0
            &&& answer.message@.len() == 0
            &&& answer.count == 1
        },
{
    law_front_of_framed(payload, tail, MAX_FRAME_SIZE as nat);
    law_ping_comes_back(
        workers,
        clients,
        client_id,
        request.rpc_id,
        AnyMessage::Ping(request),
        outcome,
    );
}

/// Replies to two clients go through the same queue exactly if their ids leave the same remainder,
/// so those of one client always do, and there is a queue for every request.
pub proof fn law_queues_follow_remainders<M>(
    workers: usize,
    first: usize,
    first_data: M,
    second: usize,
    second_data: M,
)
    requires
        workers > 0,
    ensures
        main_action(
            workers,
            MainEvent::Received(
                Some(NetworkMessage::Request { client_id: first, data: first_data }),
            ),
        ) matches MainAction::Handle { worker: Some(one), .. } && main_action(
            workers,
            MainEvent::Received(
                Some(NetworkMessage::Request { client_id: second, data: second_data }),
            ),
        ) matches MainAction::Handle { worker: Some(other), .. } && (one == other <==> first
            % workers == second % workers),
{
}

/// The replies that go through a worker.
pub open spec fn goes_through<M>(workers: usize, worker: usize) -> spec_fn((usize, M)) -> bool {
    |reply: (usize, M)| worker_of(reply.0, workers) == worker
}

/// What a worker is handed of some replies, in the order in which they were made.
pub open spec fn queue_of<M>(replies: Seq<(usize, M)>, workers: usize, worker: usize) -> Seq<
    (usize, M),
> {
    replies.filter(goes_through(workers, worker))
}

/// The messages that belong to a client.
pub open spec fn belongs_to<M>(client_id: usize) -> spec_fn((usize, M)) -> bool {
    |message: (usize, M)| message.0 == client_id
}

/// The messages of one client among some messages, in the same order.
pub open spec fn of_client<M>(messages: Seq<(usize, M)>, client_id: usize) -> Seq<(usize, M)> {
    messages.filter(belongs_to(client_id))
}

/// All replies to a client go through one worker, which exists, and in the order in which they were
/// made.
pub proof fn law_replies_stay_in_order<M>(
    replies: Seq<(usize, M)>,
    workers: usize,
    client_id: usize,
)
    requires
        workers > 0,
    ensures
        worker_of(client_id, workers) < workers,
        of_client(queue_of(replies, workers, worker_of(client_id, workers)), client_id)
            == of_client(replies, client_id),
    decreases replies.len(),
{
    reveal(Seq::filter);
    if replies.len() > 0 {
        let front = replies.drop_last();
        let last = replies.last();
        let worker = worker_of(client_id, workers);
        law_replies_stay_in_order(front, workers, client_id);
        if worker_of(last.0, workers) == worker {
            let queue = queue_of(replies, workers, worker);
            assert(queue == queue_of(front, workers, worker).push(last));
            assert(queue.drop_last() =~= queue_of(front, workers, worker));
        }
    }
}

} // verus!
