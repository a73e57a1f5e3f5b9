//! What a server does over time.
//!
//! The loops of a server take their turns in any order, and what one of them passes to another
//! waits in a queue. A running server is the state of its loops and queues, with a record of what
//! went through them. Its steps are the turns of the loops, and the laws here hold in whatever
//! order the steps come. Queues have no limit here: a full one makes a loop wait, and so only puts
//! off its turn.

use vstd::prelude::*;

use crate::clients::Clients;
use crate::dispatch::{
    dispatches, law_requests_are_answered, sorts, standard_handlers, standard_parasers, Dispatched,
    FrameJob, MessageParaser,
};
use crate::envelope::msgpack_value;
use crate::errors::{MyError, RetResult};
use crate::frame::{law_stream_round_trip, stream, unframe, MAX_PAYLOAD};
use crate::message::{AnyMessage, C2M_PingRequest, NetworkMessage};
use crate::server::{
    accept_action, after_accept, after_read, after_write, belongs_to, goes_through, is_ping,
    law_replies_stay_in_order, main_action, of_client, queue_of, reads_on, worker_action,
    worker_of, AcceptAction, AcceptEvent, KCPServer, MainAction, MainEvent, ReadEvent, TCPServer,
    WorkerAction, WorkerEvent, MAX_FRAME_SIZE,
};

verus! {

/// One turn of one of the loops, and what it waited for.
#[allow(inconsistent_fields)]
pub enum Step<M> {
    /// The accepting loop.
    Accept { event: AcceptEvent },
    /// The loop that reads from a client. Where a frame was accepted, `request` went on the request
    /// queue.
    Read { client_id: usize, event: ReadEvent, request: Option<M> },
    /// The main loop. Where a request was handled, `reply` is what its handler sent back.
    Main { event: MainEvent<M>, reply: Option<M> },
    /// A worker. Where it writes, `written` says whether that succeeded.
    Work { worker: usize, event: WorkerEvent<M>, written: bool },
}

/// A worker and its queue.
#[verifier::ext_equal]
pub struct Worker<M> {
    /// Whether its loop runs.
    pub working: bool,
    /// The replies that wait for it, the next one first.
    pub queue: Seq<(usize, M)>,
    /// The replies that it took off its queue, in order.
    pub taken: Seq<(usize, M)>,
}

/// A server whose loops run. A message stands with the id of the client that it came from or is
/// meant for.
#[verifier::ext_equal]
pub struct Running<M> {
    /// The table of clients.
    pub clients: Clients,
    /// The addresses of the clients that were accepted, in order.
    pub arrived: Seq<Seq<char>>,
    /// Whether the accepting loop runs.
    pub accepting: bool,
    /// The clients whose reading loops run.
    pub reading: Set<usize>,
    /// Whether the main loop runs.
    pub serving: bool,
    /// Whether the shutdown was announced.
    pub announced: bool,
    /// How many workers there are.
    pub count: usize,
    /// The workers.
    pub workers: Seq<Worker<M>>,
    /// The request queue, the next request first.
    pub requests: Seq<(usize, M)>,
    /// The requests that were put on the request queue, in order.
    pub sent: Seq<(usize, M)>,
    /// The requests that were given to handlers, in order.
    pub handled: Seq<(usize, M)>,
    /// The replies that handlers sent back, in order.
    pub replies: Seq<(usize, M)>,
    /// The replies that were written to clients, in order.
    pub written: Seq<(usize, M)>,
}

impl<M> Running<M> {
    /// A server with these clients and this many workers, before its first step.
    pub open spec fn begin(clients: Clients, count: usize) -> Running<M> {
        Running {
            clients,
            arrived: Seq::empty(),
            accepting: true,
            reading: Set::empty(),
            serving: true,
            announced: false,
            count,
            workers: Seq::new(
                count as nat,
                |i: int| Worker { working: true, queue: Seq::empty(), taken: Seq::empty() },
            ),
            requests: Seq::empty(),
            sent: Seq::empty(),
            handled: Seq::empty(),
            replies: Seq::empty(),
            written: Seq::empty(),
        }
    }

    /// Whether `step` can be the next one: its loop runs, and what it takes off a queue is the next
    /// there. The shutdown reaches the others after the main loop announced it. A queue counts as
    /// closed once it is empty and nobody is left to put anything on it, and refuses a request only
    /// if nobody is left to take it off. Only a write can fail.
    pub open spec fn allows(self, step: Step<M>) -> bool {
        match step {
            Step::Accept { event } => {
                &&& self.accepting
                &&& event is Shutdown ==> self.announced
            },
            Step::Read { client_id, event, request } => {
                &&& self.reading.contains(client_id)
                &&& match event {
                    ReadEvent::Frame(Ok(_)) => request is Some,
                    ReadEvent::Frame(Err(e)) => {
                        &&& request is None
                        &&& e is SendRequestFailed ==> !self.serving
                    },
                    _ => request is None,
                }
            },
            Step::Main { event, reply } => {
                &&& self.serving
                &&& match event {
                    MainEvent::Received(Some(NetworkMessage::Request { client_id, data })) => {
                        &&& self.requests.len() > 0
                        &&& self.requests[0] == (client_id, data)
                    },
                    MainEvent::Received(Some(_)) => false,
                    MainEvent::Received(None) => {
                        &&& reply is None
                        &&& self.requests.len() == 0
                        &&& !self.accepting
                        &&& self.reading == Set::<usize>::empty()
                    },
                    MainEvent::Interrupted => reply is None,
                }
            },
            Step::Work { worker, event, written } => {
                &&& worker < self.count
                &&& self.workers[worker as int].working
                &&& worker_action(self.clients, event) is Write || written
                &&& match event {
                    WorkerEvent::Received(Some(NetworkMessage::Response { client_id, data })) => {
                        &&& self.workers[worker as int].queue.len() > 0
                        &&& self.workers[worker as int].queue[0] == (client_id, data)
                    },
                    WorkerEvent::Received(Some(_)) => false,
                    WorkerEvent::Received(None) => {
                        &&& self.workers[worker as int].queue.len() == 0
                        &&& !self.serving
                    },
                    WorkerEvent::Shutdown => self.announced,
                }
            },
        }
    }

    /// The server after a handler sent `reply` to `client_id` through `worker`. Where that worker
    /// has ended, the reply is lost.
    pub open spec fn after_reply(self, worker: usize, client_id: usize, reply: M) -> Running<M> {
        let before = self.workers[worker as int];
        Running {
            replies: self.replies.push((client_id, reply)),
            workers: if before.working {
                self.workers.update(
                    worker as int,
                    Worker { queue: before.queue.push((client_id, reply)), ..before },
                )
            } else {
                self.workers
            },
            ..self
        }
    }

    /// The server after `worker` took the next reply off its queue and goes on, or ends.
    pub open spec fn after_taking(self, worker: usize, working: bool) -> Running<M> {
        let before = self.workers[worker as int];
        Running {
            workers: self.workers.update(
                worker as int,
                Worker {
                    working,
                    queue: before.queue.drop_first(),
                    taken: before.taken.push(before.queue[0]),
                },
            ),
            ..self
        }
    }

    /// The server after one more step.
    pub open spec fn after_step(self, step: Step<M>) -> Running<M> {
        match step {
            Step::Accept { event } => match accept_action(self.clients, event) {
                AcceptAction::Serve { client_id } => Running {
                    clients: after_accept(self.clients, event),
                    arrived: match event {
                        AcceptEvent::Accepted { addr } => self.arrived.push(addr@),
                        _ => self.arrived,
                    },
                    reading: self.reading.insert(client_id),
                    ..self
                },
                AcceptAction::Stop => Running { accepting: false, ..self },
            },
            Step::Read { client_id, event, request } => Running {
                clients: after_read(self.clients, client_id, event),
                reading: if reads_on(event) {
                    self.reading
                } else {
                    self.reading.remove(client_id)
                },
                requests: match request {
                    Some(data) => self.requests.push((client_id, data)),
                    None => self.requests,
                },
                sent: match request {
                    Some(data) => self.sent.push((client_id, data)),
                    None => self.sent,
                },
                ..self
            },
            Step::Main { event, reply } => match main_action(self.count, event) {
                MainAction::Handle { client_id, data, worker } => {
                    let taken = Running {
                        requests: self.requests.drop_first(),
                        handled: self.handled.push((client_id, data)),
                        ..self
                    };
                    match (worker, reply) {
                        (Some(worker), Some(reply)) => taken.after_reply(worker, client_id, reply),
                        _ => taken,
                    }
                },
                MainAction::Stop { .. } => Running { serving: false, announced: true, ..self },
            },
            Step::Work { worker, event, written } => match worker_action(self.clients, event) {
                WorkerAction::Write { client_id, data } => Running {
                    clients: after_write(self.clients, client_id, written),
                    written: if written {
                        self.written.push((client_id, data))
                    } else {
                        self.written
                    },
                    ..self.after_taking(worker, written)
                },
                WorkerAction::Discard { .. } => self.after_taking(worker, true),
                WorkerAction::Stop => Running {
                    workers: self.workers.update(
                        worker as int,
                        Worker { working: false, ..self.workers[worker as int] },
                    ),
                    ..self
                },
            },
        }
    }

    /// The server after some more steps, in order.
    pub open spec fn after_steps(self, steps: Seq<Step<M>>) -> Running<M>
        decreases steps.len(),
    {
        if steps.len() == 0 {
            self
        } else {
            self.after_steps(steps.drop_last()).after_step(steps.last())
        }
    }

    /// Whether `steps` can come next, in order.
    pub open spec fn allows_all(self, steps: Seq<Step<M>>) -> bool
        decreases steps.len(),
    {
        steps.len() > 0 ==> {
            &&& self.allows_all(steps.drop_last())
            &&& self.after_steps(steps.drop_last()).allows(steps.last())
        }
    }
}

/// One more message is one more for its client and none for the others.
proof fn lemma_push<M>(messages: Seq<(usize, M)>, message: (usize, M), client_id: usize)
    ensures
        of_client(messages.push(message), client_id) == if message.0 == client_id {
            of_client(messages, client_id).push(message)
        } else {
            of_client(messages, client_id)
        },
{
    reveal(Seq::filter);
    assert(messages.push(message).drop_last() =~= messages);
}

/// One more reply is one more for its worker and none for the others.
proof fn lemma_push_reply<M>(
    replies: Seq<(usize, M)>,
    reply: (usize, M),
    count: usize,
    worker: usize,
)
    ensures
        queue_of(replies.push(reply), count, worker) == if worker_of(reply.0, count) == worker {
            queue_of(replies, count, worker).push(reply)
        } else {
            queue_of(replies, count, worker)
        },
{
    reveal(Seq::filter);
    assert(replies.push(reply).drop_last() =~= replies);
}

/// Steps can be taken in two parts.
proof fn lemma_steps_in_parts<M>(start: Running<M>, before: Seq<Step<M>>, since: Seq<Step<M>>)
    ensures
        start.after_steps(before + since) == start.after_steps(before).after_steps(since),
        start.allows_all(before + since) <==> start.allows_all(before) && start.after_steps(
            before,
        ).allows_all(since),
    decreases since.len(),
{
    if since.len() == 0 {
        assert(before + since =~= before);
    } else {
        assert((before + since).drop_last() =~= before + since.drop_last());
        lemma_steps_in_parts(start, before, since.drop_last());
    }
}

/// What was put on the request queue was handled or still waits there, in order: for the server as
/// a whole and so for every client, each accepted request is handled once, in the order sent, and
/// nothing else is handled.
pub proof fn law_requests_are_handled_in_order<M>(
    clients: Clients,
    count: usize,
    steps: Seq<Step<M>>,
    client_id: usize,
)
    requires
        Running::begin(clients, count).allows_all(steps),
    ensures
        ({
            let s = Running::begin(clients, count).after_steps(steps);
            &&& s.sent == s.handled + s.requests
            &&& of_client(s.sent, client_id) == of_client(s.handled, client_id) + of_client(
                s.requests,
                client_id,
            )
        }),
    decreases steps.len(),
{
    let start = Running::begin(clients, count);
    let s = start.after_steps(steps);
    if steps.len() > 0 {
        law_requests_are_handled_in_order(clients, count, steps.drop_last(), client_id);
    }
    assert(s.sent =~= s.handled + s.requests);
    Seq::filter_distributes_over_add(s.handled, s.requests, belongs_to(client_id));
}

/// There are as many workers after any steps as there were before.
proof fn lemma_workers_stay<M>(clients: Clients, count: usize, steps: Seq<Step<M>>)
    requires
        Running::begin(clients, count).allows_all(steps),
        count > 0,
    ensures
        Running::begin(clients, count).after_steps(steps).count == count,
        Running::begin(clients, count).after_steps(steps).workers.len() == count,
    decreases steps.len(),
{
    if steps.len() > 0 {
        lemma_workers_stay(clients, count, steps.drop_last());
        if let Step::Main {
            event: MainEvent::Received(Some(NetworkMessage::Request { client_id, .. })),
            ..
        } = steps.last() {
            law_replies_stay_in_order(Seq::<(usize, M)>::empty(), count, client_id);
        }
    }
}

/// The replies that a handler sent through a worker were taken by it or still wait for it, in
/// order. A worker that has ended gets no more of them, and leaves what waited.
pub proof fn law_replies_wait_in_order<M>(
    clients: Clients,
    count: usize,
    steps: Seq<Step<M>>,
    worker: usize,
)
    requires
        Running::begin(clients, count).allows_all(steps),
        worker < count,
    ensures
        ({
            let s = Running::begin(clients, count).after_steps(steps);
            let w = s.workers[worker as int];
            &&& (w.taken + w.queue).is_prefix_of(queue_of(s.replies, count, worker))
            &&& w.working ==> w.taken + w.queue == queue_of(s.replies, count, worker)
        }),
    decreases steps.len(),
{
    let start = Running::<M>::begin(clients, count);
    let s = start.after_steps(steps);
    let w = s.workers[worker as int];
    lemma_workers_stay(clients, count, steps);
    if steps.len() == 0 {
        reveal(Seq::filter);
        assert(w.taken + w.queue =~= Seq::empty());
    } else {
        let front = steps.drop_last();
        let t = start.after_steps(front);
        let v = t.workers[worker as int];
        lemma_workers_stay(clients, count, front);
        law_replies_wait_in_order(clients, count, front, worker);
        match steps.last() {
            Step::Main {
                event: MainEvent::Received(Some(NetworkMessage::Request { client_id, .. })),
                reply: Some(reply),
            } => {
                law_replies_stay_in_order(t.replies, count, client_id);
                lemma_push_reply(t.replies, (client_id, reply), count, worker);
                if worker_of(client_id, count) == worker && v.working {
                    assert(w.taken + w.queue =~= (v.taken + v.queue).push((client_id, reply)));
                }
            },
            Step::Work {
                worker: other,
                event: WorkerEvent::Received(Some(NetworkMessage::Response { .. })),
                ..
            } => {
                if other == worker {
                    assert(w.taken + w.queue =~= v.taken + v.queue);
                }
            },
            _ => {},
        }
    }
}

/// Until the ids run out, the next id is the number of clients accepted so far; a connected client
/// has the address it came from and is being read from; and whoever is read from, asked for
/// something or was replied to has been accepted.
proof fn lemma_ids_are_known<M>(count: usize, steps: Seq<Step<M>>)
    requires
        count > 0,
        Running::begin(Clients::initial(), count).allows_all(steps),
        Running::begin(Clients::initial(), count).after_steps(steps).arrived.len() <= usize::MAX,
    ensures
        ({
            let s = Running::begin(Clients::initial(), count).after_steps(steps);
            &&& s.clients.next_id == s.arrived.len()
            &&& forall|c: usize| #[trigger]
                s.clients.connected.contains_key(c) ==> {
                    &&& c < s.clients.next_id
                    &&& s.reading.contains(c)
                    &&& s.clients.connected[c] == s.arrived[c as int]
                }
            &&& forall|c: usize| #[trigger] s.reading.contains(c) ==> c < s.clients.next_id
            &&& forall|i: int|
                0 <= i < s.sent.len() ==> (#[trigger] s.sent[i]).0 < s.clients.next_id
            &&& forall|i: int|
                0 <= i < s.replies.len() ==> (#[trigger] s.replies[i]).0 < s.clients.next_id
        }),
    decreases steps.len(),
{
    if steps.len() > 0 {
        let start = Running::<M>::begin(Clients::initial(), count);
        let front = steps.drop_last();
        let t = start.after_steps(front);
        lemma_ids_are_known(count, front);
        lemma_workers_stay(Clients::initial(), count, front);
        law_requests_are_handled_in_order(Clients::initial(), count, front, 0);
        if t.requests.len() > 0 {
            assert(t.requests[0] == t.sent[t.handled.len() as int]);
        }
    }
}

/// What waits first for a worker is a reply to one of its clients.
proof fn lemma_next_reply<M>(clients: Clients, count: usize, steps: Seq<Step<M>>, worker: usize)
    requires
        worker < count,
        Running::begin(clients, count).allows_all(steps),
        Running::begin(clients, count).after_steps(steps).workers[worker as int].queue.len() > 0,
    ensures
        ({
            let s = Running::begin(clients, count).after_steps(steps);
            let next = s.workers[worker as int].queue[0];
            &&& worker_of(next.0, count) == worker
            &&& s.replies.contains(next)
        }),
{
    let s = Running::<M>::begin(clients, count).after_steps(steps);
    let w = s.workers[worker as int];
    let all = queue_of(s.replies, count, worker);
    let through = goes_through::<M>(count, worker);
    law_replies_wait_in_order(clients, count, steps, worker);
    let i = w.taken.len() as int;
    assert(w.queue[0] == (w.taken + w.queue)[i]);
    assert((w.taken + w.queue)[i] == all[i]);
    s.replies.lemma_filter_pred(through, i);
    assert(all.contains(all[i]));
    s.replies.lemma_filter_contains_rev(through, all[i]);
}

/// What was written to a client is what its worker took for it, up to some point, and all of it as
/// long as the client is connected.
proof fn lemma_written_follows_taken<M>(count: usize, steps: Seq<Step<M>>, client_id: usize)
    requires
        count > 0,
        Running::begin(Clients::initial(), count).allows_all(steps),
        Running::begin(Clients::initial(), count).after_steps(steps).arrived.len() <= usize::MAX,
    ensures
        ({
            let s = Running::begin(Clients::initial(), count).after_steps(steps);
            let written = of_client(s.written, client_id);
            let taken = of_client(
                s.workers[worker_of(client_id, count) as int].taken,
                client_id,
            );
            &&& written.is_prefix_of(taken)
            &&& s.clients.connected.contains_key(client_id) ==> written == taken
            &&& client_id >= s.clients.next_id ==> taken.len() == 0
        }),
    decreases steps.len(),
{
    let start = Running::<M>::begin(Clients::initial(), count);
    law_replies_stay_in_order(Seq::<(usize, M)>::empty(), count, client_id);
    if steps.len() == 0 {
        reveal(Seq::filter);
    } else {
        let front = steps.drop_last();
        let t = start.after_steps(front);
        lemma_written_follows_taken(count, front, client_id);
        lemma_workers_stay(Clients::initial(), count, front);
        lemma_ids_are_known(count, front);
        match steps.last() {
            Step::Main {
                event: MainEvent::Received(Some(NetworkMessage::Request { client_id: from, .. })),
                ..
            } => {
                law_replies_stay_in_order(Seq::<(usize, M)>::empty(), count, from);
            },
            Step::Work {
                worker,
                event: WorkerEvent::Received(
                    Some(NetworkMessage::Response { client_id: to, data }),
                ),
                ..
            } => {
                lemma_next_reply(Clients::initial(), count, front, worker);
                lemma_push(t.written, (to, data), client_id);
                lemma_push(t.workers[worker as int].taken, (to, data), client_id);
            },
            _ => {},
        }
    }
}

/// The bytes of some messages, one after the other.
pub open spec fn bytes_of<M>(messages: Seq<(usize, M)>, encode: spec_fn(M) -> Seq<u8>) -> Seq<u8>
    decreases messages.len(),
{
    if messages.len() == 0 {
        Seq::empty()
    } else {
        bytes_of(messages.drop_last(), encode) + encode(messages.last().1)
    }
}

/// The first bytes of messages are those of the first messages.
proof fn lemma_bytes_of_prefix<M>(
    first: Seq<(usize, M)>,
    all: Seq<(usize, M)>,
    encode: spec_fn(M) -> Seq<u8>,
)
    requires
        first.is_prefix_of(all),
    ensures
        bytes_of(first, encode).is_prefix_of(bytes_of(all, encode)),
    decreases all.len(),
{
    if first.len() == all.len() {
        assert(first =~= all);
    } else {
        assert(first.is_prefix_of(all.drop_last()));
        lemma_bytes_of_prefix(first, all.drop_last(), encode);
    }
}

/// A client gets its replies in the order in which they were made, each once and whole, from the
/// first one on and none left out: what was written to it is the beginning of what was replied to
/// it, and so are the bytes on its connection. As long as it is connected and its worker runs, what
/// is missing still waits. This holds until the ids run out.
pub proof fn law_client_gets_its_replies_in_order<M>(
    count: usize,
    steps: Seq<Step<M>>,
    client_id: usize,
    encode: spec_fn(M) -> Seq<u8>,
)
    requires
        count > 0,
        Running::begin(Clients::initial(), count).allows_all(steps),
        Running::begin(Clients::initial(), count).after_steps(steps).arrived.len() <= usize::MAX,
    ensures
        ({
            let s = Running::begin(Clients::initial(), count).after_steps(steps);
            let w = s.workers[worker_of(client_id, count) as int];
            &&& of_client(s.written, client_id).is_prefix_of(of_client(s.replies, client_id))
            &&& bytes_of(of_client(s.written, client_id), encode).is_prefix_of(
                bytes_of(of_client(s.replies, client_id), encode),
            )
            &&& s.clients.connected.contains_key(client_id) && w.working ==> of_client(
                s.replies,
                client_id,
            ) == of_client(s.written, client_id) + of_client(w.queue, client_id)
        }),
{
    let s = Running::<M>::begin(Clients::initial(), count).after_steps(steps);
    let worker = worker_of(client_id, count);
    let w = s.workers[worker as int];
    let mine = belongs_to::<M>(client_id);
    law_replies_stay_in_order(s.replies, count, client_id);
    law_replies_wait_in_order(Clients::initial(), count, steps, worker);
    lemma_written_follows_taken(count, steps, client_id);
    let through = queue_of(s.replies, count, worker);
    assert(w.taken.is_prefix_of(through)) by {
        assert forall|i: int| 0 <= i < w.taken.len() implies w.taken[i] == through[i] by {
            assert(w.taken[i] == (w.taken + w.queue)[i]);
        }
    }
    w.taken.lemma_filter_monotone(through, mine);
    Seq::filter_distributes_over_add(w.taken, w.queue, mine);
    let written = of_client(s.written, client_id);
    let taken = of_client(w.taken, client_id);
    let replied = of_client(s.replies, client_id);
    assert(taken.is_prefix_of(replied));
    assert forall|i: int| 0 <= i < written.len() implies written[i] == replied[i] by {
        assert(written[i] == taken[i]);
    }
    assert(written.is_prefix_of(replied));
    lemma_bytes_of_prefix(
        of_client(s.written, client_id),
        of_client(s.replies, client_id),
        encode,
    );
}

/// Picking some of the messages makes none of them more frequent.
proof fn lemma_filter_counts<M>(
    messages: Seq<(usize, M)>,
    picked: spec_fn((usize, M)) -> bool,
    message: (usize, M),
)
    ensures
        messages.filter(picked).to_multiset().count(message) <= messages.to_multiset().count(
            message,
        ),
    decreases messages.len(),
{
    broadcast use vstd::seq_lib::group_to_multiset_ensures;

    reveal(Seq::filter);
    if messages.len() > 0 {
        lemma_filter_counts(messages.drop_last(), picked, message);
        assert(messages =~= messages.drop_last().push(messages.last()));
    }
}

/// Nothing is written more often than the worker of its client took it.
proof fn lemma_written_was_taken<M>(
    clients: Clients,
    count: usize,
    steps: Seq<Step<M>>,
    message: (usize, M),
)
    requires
        count > 0,
        Running::begin(clients, count).allows_all(steps),
    ensures
        ({
            let s = Running::begin(clients, count).after_steps(steps);
            s.written.to_multiset().count(message) <= s.workers[worker_of(
                message.0,
                count,
            ) as int].taken.to_multiset().count(message)
        }),
    decreases steps.len(),
{
    broadcast use vstd::seq_lib::group_to_multiset_ensures;

    let start = Running::<M>::begin(clients, count);
    law_replies_stay_in_order(Seq::<(usize, M)>::empty(), count, message.0);
    if steps.len() > 0 {
        let front = steps.drop_last();
        lemma_written_was_taken(clients, count, front, message);
        lemma_workers_stay(clients, count, front);
        match steps.last() {
            Step::Main {
                event: MainEvent::Received(Some(NetworkMessage::Request { client_id: from, .. })),
                ..
            } => {
                law_replies_stay_in_order(Seq::<(usize, M)>::empty(), count, from);
            },
            Step::Work {
                worker,
                event: WorkerEvent::Received(Some(NetworkMessage::Response { .. })),
                ..
            } => {
                lemma_next_reply(clients, count, front, worker);
            },
            _ => {},
        }
    }
}

/// Nothing is written that was not replied to its client, and nothing more often than it was
/// replied, whatever happens to the connections and the loops.
pub proof fn law_nothing_is_written_twice<M>(
    clients: Clients,
    count: usize,
    steps: Seq<Step<M>>,
    message: (usize, M),
)
    requires
        count > 0,
        Running::begin(clients, count).allows_all(steps),
    ensures
        ({
            let s = Running::begin(clients, count).after_steps(steps);
            s.written.to_multiset().count(message) <= s.replies.to_multiset().count(message)
        }),
{
    let s = Running::<M>::begin(clients, count).after_steps(steps);
    let worker = worker_of(message.0, count);
    let w = s.workers[worker as int];
    let through = queue_of(s.replies, count, worker);
    law_replies_stay_in_order(s.replies, count, message.0);
    law_replies_wait_in_order(clients, count, steps, worker);
    lemma_written_was_taken(clients, count, steps, message);
    let passed = w.taken + w.queue;
    assert(through =~= passed + through.skip(passed.len() as int));
    vstd::seq_lib::lemma_multiset_commutative(w.taken, w.queue);
    vstd::seq_lib::lemma_multiset_commutative(passed, through.skip(passed.len() as int));
    lemma_filter_counts(s.replies, goes_through(count, worker), message);
}

/// A loop that has ended takes no more turns. When the main loop has, nothing more is handled and
/// nothing more is replied; when the accepting loop has, nobody more is accepted; and a worker that
/// has leaves its queue as it is.
pub proof fn law_ended_loops_take_no_more_turns<M>(
    s: Running<M>,
    steps: Seq<Step<M>>,
    worker: usize,
)
    requires
        s.count > 0,
        s.workers.len() == s.count,
        worker < s.count,
        s.allows_all(steps),
    ensures
        !s.serving ==> {
            &&& !s.after_steps(steps).serving
            &&& s.after_steps(steps).handled == s.handled
            &&& s.after_steps(steps).replies == s.replies
            &&& forall|i: int| 0 <= i < steps.len() ==> !((#[trigger] steps[i]) is Main)
        },
        !s.accepting ==> {
            &&& !s.after_steps(steps).accepting
            &&& s.after_steps(steps).arrived == s.arrived
            &&& forall|i: int| 0 <= i < steps.len() ==> !((#[trigger] steps[i]) is Accept)
        },
        !s.workers[worker as int].working ==> {
            &&& s.after_steps(steps).workers[worker as int] == s.workers[worker as int]
            &&& forall|i: int|
                0 <= i < steps.len() ==> ((#[trigger] steps[i]) matches Step::Work {
                    worker: other,
                    ..
                } ==> other != worker)
        },
        s.after_steps(steps).count == s.count,
        s.after_steps(steps).workers.len() == s.count,
    decreases steps.len(),
{
    if steps.len() > 0 {
        let front = steps.drop_last();
        law_ended_loops_take_no_more_turns(s, front, worker);
        let t = s.after_steps(front);
        if let Step::Main {
            event: MainEvent::Received(Some(NetworkMessage::Request { client_id, .. })),
            ..
        } = steps.last() {
            law_replies_stay_in_order(Seq::<(usize, M)>::empty(), s.count, client_id);
        }
        assert forall|i: int| 0 <= i < steps.len() implies #[trigger] steps[i] == if i
            == front.len() {
            steps.last()
        } else {
            front[i]
        } by {}
    }
}

/// After an interrupt no handler is called: the main loop ends at once, takes no more turns, and
/// what is on the request queue stays there. The others hear of the shutdown, and each that still
/// runs can end on it.
pub proof fn law_nothing_is_handled_after_the_interrupt<M>(
    s: Running<M>,
    steps: Seq<Step<M>>,
    worker: usize,
)
    requires
        s.count > 0,
        s.workers.len() == s.count,
        worker < s.count,
        s.allows(Step::Main { event: MainEvent::Interrupted, reply: None }),
        s.after_step(Step::Main { event: MainEvent::Interrupted, reply: None }).allows_all(steps),
    ensures
        ({
            let t = s.after_step(Step::Main { event: MainEvent::Interrupted, reply: None });
            &&& t == (Running { serving: false, announced: true, ..s })
            &&& t.after_steps(steps).handled == s.handled
            &&& t.after_steps(steps).replies == s.replies
            &&& forall|i: int| 0 <= i < steps.len() ==> !((#[trigger] steps[i]) is Main)
            &&& t.after_steps(steps).accepting ==> t.after_steps(steps).allows(
                Step::Accept { event: AcceptEvent::Shutdown },
            )
            &&& t.after_steps(steps).workers[worker as int].working ==> t.after_steps(steps).allows(
                Step::Work { worker, event: WorkerEvent::Shutdown, written: true },
            )
        }),
{
    let t = s.after_step(Step::Main { event: MainEvent::Interrupted, reply: None });
    law_ended_loops_take_no_more_turns(t, steps, worker);
    lemma_shutdown_stays(t, steps);
}

/// Once announced, the shutdown stays announced.
proof fn lemma_shutdown_stays<M>(s: Running<M>, steps: Seq<Step<M>>)
    requires
        s.announced,
    ensures
        s.after_steps(steps).announced,
    decreases steps.len(),
{
    if steps.len() > 0 {
        lemma_shutdown_stays(s, steps.drop_last());
    }
}

/// When reading from a client has ended, nothing more comes from it, whatever the loops do after
/// that and whoever connects, until the ids run out.
pub proof fn law_nothing_is_read_after_the_end<M>(
    count: usize,
    before: Seq<Step<M>>,
    since: Seq<Step<M>>,
    client_id: usize,
)
    requires
        count > 0,
        Running::begin(Clients::initial(), count).allows_all(before + since),
        Running::begin(Clients::initial(), count).after_steps(before + since).arrived.len()
            <= usize::MAX,
        client_id < Running::begin(Clients::initial(), count).after_steps(before).clients.next_id,
        !Running::begin(Clients::initial(), count).after_steps(before).reading.contains(client_id),
    ensures
        ({
            let s = Running::begin(Clients::initial(), count).after_steps(before);
            let t = Running::begin(Clients::initial(), count).after_steps(before + since);
            &&& of_client(t.sent, client_id) == of_client(s.sent, client_id)
            &&& !t.reading.contains(client_id)
            &&& client_id < t.clients.next_id
            &&& forall|i: int|
                0 <= i < since.len() ==> ((#[trigger] since[i]) matches Step::Read {
                    client_id: from,
                    ..
                } ==> from != client_id)
        }),
    decreases since.len(),
{
    let start = Running::<M>::begin(Clients::initial(), count);
    if since.len() == 0 {
        assert(before + since =~= before);
    } else {
        let front = before + since.drop_last();
        let t = start.after_steps(front);
        assert((before + since).drop_last() =~= front);
        assert((before + since).last() == since.last());
        law_nothing_is_read_after_the_end(count, before, since.drop_last(), client_id);
        lemma_ids_are_known(count, front);
        if let Step::Read { client_id: from, request: Some(data), .. } = since.last() {
            lemma_push(t.sent, (from, data), client_id);
        }
        assert forall|i: int| 0 <= i < since.len() implies #[trigger] since[i] == if i
            == since.len() - 1 {
            since.last()
        } else {
            since.drop_last()[i]
        } by {}
    }
}

/// A client that is gone is written to no more, whatever the loops do after that and whoever
/// connects, until the ids run out: its id is not given to another.
pub proof fn law_gone_client_is_written_to_no_more<M>(
    count: usize,
    before: Seq<Step<M>>,
    since: Seq<Step<M>>,
    client_id: usize,
)
    requires
        count > 0,
        Running::begin(Clients::initial(), count).allows_all(before + since),
        Running::begin(Clients::initial(), count).after_steps(before + since).arrived.len()
            <= usize::MAX,
        client_id < Running::begin(Clients::initial(), count).after_steps(before).clients.next_id,
        !Running::begin(Clients::initial(), count).after_steps(
            before,
        ).clients.connected.contains_key(client_id),
    ensures
        ({
            let s = Running::begin(Clients::initial(), count).after_steps(before);
            let t = Running::begin(Clients::initial(), count).after_steps(before + since);
            &&& of_client(t.written, client_id) == of_client(s.written, client_id)
            &&& !t.clients.connected.contains_key(client_id)
            &&& client_id < t.clients.next_id
        }),
    decreases since.len(),
{
    let start = Running::<M>::begin(Clients::initial(), count);
    if since.len() == 0 {
        assert(before + since =~= before);
    } else {
        let front = before + since.drop_last();
        let t = start.after_steps(front);
        assert((before + since).drop_last() =~= front);
        assert((before + since).last() == since.last());
        law_gone_client_is_written_to_no_more(count, before, since.drop_last(), client_id);
        lemma_ids_are_known(count, front);
        if let Step::Work {
            event: WorkerEvent::Received(Some(NetworkMessage::Response { client_id: to, data })),
            ..
        } = since.last() {
            lemma_push(t.written, (to, data), client_id);
        }
    }
}

/// A client that is gone does not stop the queue that its replies go through: a reply to it is
/// taken off and dropped, the worker goes on, and the next reply, to a connected client, is
/// written.
pub proof fn law_gone_client_does_not_stop_its_queue<M>(
    s: Running<M>,
    worker: usize,
    gone: usize,
    dropped: M,
    client_id: usize,
    data: M,
)
    requires
        worker < s.count,
        s.workers.len() == s.count,
        s.workers[worker as int].working,
        s.workers[worker as int].queue.len() > 1,
        s.workers[worker as int].queue[0] == (gone, dropped),
        s.workers[worker as int].queue[1] == (client_id, data),
        !s.clients.connected.contains_key(gone),
        s.clients.connected.contains_key(client_id),
    ensures
        ({
            let first = Step::Work {
                worker,
                event: WorkerEvent::Received(
                    Some(NetworkMessage::Response { client_id: gone, data: dropped }),
                ),
                written: true,
            };
            let second = Step::Work {
                worker,
                event: WorkerEvent::Received(Some(NetworkMessage::Response { client_id, data })),
                written: true,
            };
            let t = s.after_step(first).after_step(second);
            &&& s.allows(first)
            &&& s.after_step(first).allows(second)
            &&& s.after_step(first).written == s.written
            &&& t.written == s.written.push((client_id, data))
            &&& t.clients == s.clients
            &&& t.workers[worker as int].working
            &&& t.workers[worker as int].queue == s.workers[worker as int].queue.skip(2)
        }),
{
}

/// A bad frame leaves no trace: whatever comes before and after it, the server does the same as if
/// the frame had not been sent, and can. Only a closed request queue is another matter.
pub proof fn law_bad_frame_leaves_no_trace<M>(
    start: Running<M>,
    before: Seq<Step<M>>,
    since: Seq<Step<M>>,
    client_id: usize,
    error: MyError,
)
    requires
        !(error is SendRequestFailed),
        start.after_steps(before).reading.contains(client_id),
    ensures
        ({
            let bad = Step::Read {
                client_id,
                event: ReadEvent::Frame(Err(error)),
                request: None::<M>,
            };
            &&& start.after_steps(before.push(bad) + since) == start.after_steps(before + since)
            &&& start.allows_all(before.push(bad) + since) <==> start.allows_all(before + since)
        }),
{
    let bad = Step::Read { client_id, event: ReadEvent::Frame(Err(error)), request: None::<M> };
    lemma_steps_in_parts(start, before.push(bad), since);
    lemma_steps_in_parts(start, before, since);
    assert(before.push(bad).drop_last() =~= before);
}

/// What was read from a client, in order: whether reading went on after it, and the request in it
/// if one was accepted.
pub open spec fn frames<M>(steps: Seq<Step<M>>, client_id: usize) -> Seq<(bool, Option<M>)>
    decreases steps.len(),
{
    if steps.len() == 0 {
        Seq::empty()
    } else {
        let before = frames(steps.drop_last(), client_id);
        match steps.last() {
            Step::Read { client_id: from, event, request } => if from == client_id {
                before.push((reads_on(event), request))
            } else {
                before
            },
            _ => before,
        }
    }
}

/// The requests of a client, in order.
pub open spec fn asked<M>(frames: Seq<(bool, Option<M>)>, client_id: usize) -> Seq<(usize, M)>
    decreases frames.len(),
{
    if frames.len() == 0 {
        Seq::empty()
    } else {
        let before = asked(frames.drop_last(), client_id);
        match frames.last().1 {
            Some(data) => before.push((client_id, data)),
            None => before,
        }
    }
}

/// Whether reading from a client has ended.
pub open spec fn hung_up<M>(frames: Seq<(bool, Option<M>)>) -> bool {
    exists|i: int| 0 <= i < frames.len() && !(#[trigger] frames[i]).0
}

/// Whether `step` is a failed write to a client.
pub open spec fn fails_to_write<M>(step: Step<M>, client_id: usize) -> bool {
    step matches Step::Work {
        event: WorkerEvent::Received(Some(NetworkMessage::Response { client_id: to, .. })),
        written,
        ..
    } && to == client_id && !written
}

/// Whether a write to a client failed.
pub open spec fn was_unreachable<M>(steps: Seq<Step<M>>, client_id: usize) -> bool {
    exists|i: int| 0 <= i < steps.len() && #[trigger] fails_to_write(steps[i], client_id)
}

/// One more step is one more chance of a failed write.
proof fn lemma_unreachable_in_parts<M>(steps: Seq<Step<M>>, client_id: usize)
    requires
        steps.len() > 0,
    ensures
        was_unreachable(steps, client_id) <==> was_unreachable(steps.drop_last(), client_id)
            || fails_to_write(steps.last(), client_id),
{
    let front = steps.drop_last();
    if was_unreachable(front, client_id) {
        let i = choose|i: int| 0 <= i < front.len() && fails_to_write(front[i], client_id);
        assert(fails_to_write(steps[i], client_id));
    }
    if was_unreachable(steps, client_id) && !fails_to_write(steps.last(), client_id) {
        let i = choose|i: int| 0 <= i < steps.len() && fails_to_write(steps[i], client_id);
        assert(fails_to_write(front[i], client_id));
    }
    if fails_to_write(steps.last(), client_id) {
        assert(fails_to_write(steps[steps.len() - 1], client_id));
    }
}

/// One more frame is one more chance of an end.
proof fn lemma_hung_up_in_parts<M>(frames: Seq<(bool, Option<M>)>, frame: (bool, Option<M>))
    ensures
        hung_up(frames.push(frame)) <==> hung_up(frames) || !frame.0,
{
    let more = frames.push(frame);
    if hung_up(frames) {
        let i = choose|i: int| 0 <= i < frames.len() && !(#[trigger] frames[i]).0;
        assert(!more[i].0);
    }
    if hung_up(more) && frame.0 {
        let i = choose|i: int| 0 <= i < more.len() && !(#[trigger] more[i]).0;
        assert(!frames[i].0);
    }
    if !frame.0 {
        assert(!more[frames.len() as int].0);
    }
}

/// Until the ids run out, the clients in the table are those that were accepted, have not hung up
/// and could be written to, each with the address that it came from.
pub proof fn law_table_holds_who_came_and_stayed<M>(
    count: usize,
    steps: Seq<Step<M>>,
    client_id: usize,
)
    requires
        count > 0,
        Running::begin(Clients::initial(), count).allows_all(steps),
        Running::begin(Clients::initial(), count).after_steps(steps).arrived.len() <= usize::MAX,
    ensures
        ({
            let s = Running::begin(Clients::initial(), count).after_steps(steps);
            let stayed = !hung_up(frames(steps, client_id)) && !was_unreachable(steps, client_id);
            &&& s.clients.connected.contains_key(client_id) <==> client_id < s.arrived.len()
                && stayed
            &&& s.clients.connected.contains_key(client_id) ==> s.clients.connected[client_id]
                == s.arrived[client_id as int]
            &&& client_id < s.arrived.len() || stayed
            &&& s.clients.next_id == s.arrived.len()
        }),
    decreases steps.len(),
{
    lemma_ids_are_known(count, steps);
    if steps.len() > 0 {
        let start = Running::<M>::begin(Clients::initial(), count);
        let front = steps.drop_last();
        let t = start.after_steps(front);
        law_table_holds_who_came_and_stayed(count, front, client_id);
        lemma_ids_are_known(count, front);
        lemma_workers_stay(Clients::initial(), count, front);
        lemma_unreachable_in_parts(steps, client_id);
        match steps.last() {
            Step::Read { event, request, .. } => {
                lemma_hung_up_in_parts(frames(front, client_id), (reads_on(event), request));
            },
            Step::Work {
                worker,
                event: WorkerEvent::Received(
                    Some(NetworkMessage::Response { client_id: to, data }),
                ),
                ..
            } => {
                lemma_next_reply(Clients::initial(), count, front, worker);
                let i = choose|i: int| 0 <= i < t.replies.len() && t.replies[i] == (to, data);
                assert(t.replies[i].0 == to);
            },
            _ => {},
        }
    }
}

/// The requests of a client go on the request queue in the order in which their frames were read,
/// one for every accepted frame.
pub proof fn law_requests_are_sent_in_order<M>(
    clients: Clients,
    count: usize,
    steps: Seq<Step<M>>,
    client_id: usize,
)
    requires
        Running::begin(clients, count).allows_all(steps),
    ensures
        of_client(Running::begin(clients, count).after_steps(steps).sent, client_id) == asked(
            frames(steps, client_id),
            client_id,
        ),
    decreases steps.len(),
{
    if steps.len() == 0 {
        reveal(Seq::filter);
    } else {
        let front = steps.drop_last();
        let t = Running::<M>::begin(clients, count).after_steps(front);
        law_requests_are_sent_in_order(clients, count, front, client_id);
        if let Step::Read { client_id: from, event, request } = steps.last() {
            let before = frames(front, client_id);
            assert(before.push((reads_on(event), request)).drop_last() =~= before);
            if let Some(data) = request {
                lemma_push(t.sent, (from, data), client_id);
            }
        }
    }
}

/// Both kinds of server behave alike, in whatever order their loops take their turns and however
/// many workers they have. If the same clients come to new ones, each client sends the same frames
/// to both, and the same clients can be written to, then the same clients are left in the table,
/// and each has put the same requests on the request queue. Once those queues are empty, each has
/// had the same requests handled, in the same order. This holds until the ids run out.
pub proof fn law_servers_behave_alike<M>(
    tcp: TCPServer,
    tcp_count: usize,
    tcp_steps: Seq<Step<M>>,
    kcp: KCPServer,
    kcp_count: usize,
    kcp_steps: Seq<Step<M>>,
)
    requires
        tcp.clients@ == Clients::initial(),
        kcp.clients@ == Clients::initial(),
        tcp_count > 0,
        kcp_count > 0,
        Running::begin(tcp.clients@, tcp_count).allows_all(tcp_steps),
        Running::begin(kcp.clients@, kcp_count).allows_all(kcp_steps),
        Running::begin(tcp.clients@, tcp_count).after_steps(tcp_steps).arrived.len() <= usize::MAX,
        Running::begin(tcp.clients@, tcp_count).after_steps(tcp_steps).arrived == Running::begin(
            kcp.clients@,
            kcp_count,
        ).after_steps(kcp_steps).arrived,
        forall|client_id: usize| #[trigger]
            frames(tcp_steps, client_id) == frames(kcp_steps, client_id),
        forall|client_id: usize| #[trigger]
            was_unreachable(tcp_steps, client_id) == was_unreachable(kcp_steps, client_id),
    ensures
        ({
            let s = Running::begin(tcp.clients@, tcp_count).after_steps(tcp_steps);
            let t = Running::begin(kcp.clients@, kcp_count).after_steps(kcp_steps);
            &&& s.clients == t.clients
            &&& forall|client_id: usize| #[trigger]
                of_client(s.sent, client_id) == of_client(t.sent, client_id)
            &&& s.requests.len() == 0 && t.requests.len() == 0 ==> forall|client_id: usize|
             #[trigger]
                of_client(s.handled, client_id) == of_client(t.handled, client_id)
        }),
{
    let s = Running::<M>::begin(tcp.clients@, tcp_count).after_steps(tcp_steps);
    let t = Running::<M>::begin(kcp.clients@, kcp_count).after_steps(kcp_steps);
    assert forall|client_id: usize| #[trigger]
        s.clients.connected.contains_key(client_id) == t.clients.connected.contains_key(client_id)
            && (s.clients.connected.contains_key(client_id) ==> s.clients.connected[client_id]
            == t.clients.connected[client_id]) by {
        assert(frames(tcp_steps, client_id) == frames(kcp_steps, client_id));
        assert(was_unreachable(tcp_steps, client_id) == was_unreachable(kcp_steps, client_id));
        law_table_holds_who_came_and_stayed(tcp_count, tcp_steps, client_id);
        law_table_holds_who_came_and_stayed(kcp_count, kcp_steps, client_id);
    }
    law_table_holds_who_came_and_stayed(tcp_count, tcp_steps, 0);
    law_table_holds_who_came_and_stayed(kcp_count, kcp_steps, 0);
    assert(s.clients.connected =~= t.clients.connected);
    assert forall|client_id: usize| #[trigger]
        of_client(s.sent, client_id) == of_client(t.sent, client_id) by {
        assert(frames(tcp_steps, client_id) == frames(kcp_steps, client_id));
        law_requests_are_sent_in_order(tcp.clients@, tcp_count, tcp_steps, client_id);
        law_requests_are_sent_in_order(kcp.clients@, kcp_count, kcp_steps, client_id);
    }
    if s.requests.len() == 0 && t.requests.len() == 0 {
        law_requests_are_handled_in_order(tcp.clients@, tcp_count, tcp_steps, 0);
        law_requests_are_handled_in_order(kcp.clients@, kcp_count, kcp_steps, 0);
        assert(s.handled =~= s.sent);
        assert(t.handled =~= t.sent);
    }
}

/// What a handler sent back.
pub open spec fn sent_back(outcome: Dispatched<AnyMessage>) -> Option<AnyMessage> {
    match outcome {
        Dispatched::Handled { reply: Some(NetworkMessage::Response { data, .. }) } => Some(data),
        _ => None,
    }
}

/// Whether a request that is handled in `step`, if there is one, is given to the handler of its
/// type.
pub open spec fn is_dispatched(step: Step<AnyMessage>) -> bool {
    step matches Step::Main {
        event: MainEvent::Received(Some(NetworkMessage::Request { client_id, data })),
        reply,
    } ==> exists|outcome: Dispatched<AnyMessage>| #[trigger]
        dispatches(standard_handlers(), data, client_id, true, outcome) && reply == sent_back(
            outcome,
        )
}

/// Whether a message wants an answer.
pub open spec fn wants_answer(message: AnyMessage) -> bool {
    message is Ping || message is GetPlayerInfo
}

/// Whether `reply` is the answer to `request`.
pub open spec fn answers(request: AnyMessage, reply: AnyMessage) -> bool {
    match request {
        AnyMessage::Ping(ping) => {
            &&& reply matches AnyMessage::Pong(answer)
            &&& answer.rpc_id == ping.rpc_id
            &&& answer._t@ == "C2M_PingResponse"@
            &&& answer.error == 0
            &&& answer.message@.len() == 0
            &&& answer.count == 1
        },
        AnyMessage::GetPlayerInfo(query) => {
            &&& reply matches AnyMessage::PlayerInfo(answer)
            &&& answer.rpc_id == query.rpc_id
            &&& answer._t@ == "M2C_GetPlayerInfoResponse"@
            &&& answer.error == 0
            &&& answer.message@.len() == 0
        },
        _ => false,
    }
}

/// A client whose requests all want an answer has as many replies as requests handled, and the
/// replies answer the requests in order.
proof fn lemma_replies_answer(
    clients: Clients,
    count: usize,
    steps: Seq<Step<AnyMessage>>,
    client_id: usize,
)
    requires
        Running::begin(clients, count).allows_all(steps),
        forall|i: int| 0 <= i < steps.len() ==> is_dispatched(#[trigger] steps[i]),
        ({
            let handled = of_client(
                Running::begin(clients, count).after_steps(steps).handled,
                client_id,
            );
            forall|i: int| 0 <= i < handled.len() ==> wants_answer((#[trigger] handled[i]).1)
        }),
    ensures
        ({
            let s = Running::begin(clients, count).after_steps(steps);
            let handled = of_client(s.handled, client_id);
            let replies = of_client(s.replies, client_id);
            &&& replies.len() == handled.len()
            &&& forall|i: int|
                0 <= i < handled.len() ==> answers(handled[i].1, (#[trigger] replies[i]).1)
        }),
    decreases steps.len(),
{
    let start = Running::<AnyMessage>::begin(clients, count);
    let s = start.after_steps(steps);
    let handled = of_client(s.handled, client_id);
    if steps.len() == 0 {
        reveal(Seq::filter);
    } else {
        let front = steps.drop_last();
        let t = start.after_steps(front);
        let before = of_client(t.handled, client_id);
        let last = steps.last();
        assert(is_dispatched(steps[steps.len() - 1]));
        assert forall|i: int| 0 <= i < front.len() implies is_dispatched(#[trigger] front[i]) by {
            assert(front[i] == steps[i]);
        }
        match last {
            Step::Main {
                event: MainEvent::Received(Some(NetworkMessage::Request { client_id: from, data })),
                reply,
            } => {
                lemma_push(t.handled, (from, data), client_id);
                assert forall|i: int| 0 <= i < before.len() implies wants_answer(
                    (#[trigger] before[i]).1,
                ) by {
                    assert(handled[i] == before[i]);
                }
                lemma_replies_answer(clients, count, front, client_id);
                let outcome = choose|outcome: Dispatched<AnyMessage>| #[trigger]
                    dispatches(standard_handlers(), data, from, true, outcome) && reply
                        == sent_back(outcome);
                law_requests_are_answered(data, from, outcome);
                if from == client_id {
                    assert(handled.last() == (from, data));
                    assert(wants_answer(handled[handled.len() - 1].1));
                }
                if let Some(reply) = reply {
                    lemma_push(t.replies, (from, reply), client_id);
                }
            },
            _ => {
                lemma_replies_answer(clients, count, front, client_id);
            },
        }
    }
}

/// Requests come back. Whatever a client sends, if its requests all want an answer, what is written
/// to it are answers to them, each to its own, in the order in which they were sent; and once the
/// queues are empty every one of them was answered, if the client is still connected and its worker
/// runs. Others may do what they like meanwhile. This holds until the ids run out.
pub proof fn law_requests_come_back(
    count: usize,
    steps: Seq<Step<AnyMessage>>,
    client_id: usize,
)
    requires
        count > 0,
        Running::begin(Clients::initial(), count).allows_all(steps),
        Running::begin(Clients::initial(), count).after_steps(steps).arrived.len() <= usize::MAX,
        forall|i: int| 0 <= i < steps.len() ==> is_dispatched(#[trigger] steps[i]),
        ({
            let requests = asked(frames(steps, client_id), client_id);
            forall|i: int| 0 <= i < requests.len() ==> wants_answer((#[trigger] requests[i]).1)
        }),
    ensures
        ({
            let s = Running::begin(Clients::initial(), count).after_steps(steps);
            let w = s.workers[worker_of(client_id, count) as int];
            let requests = asked(frames(steps, client_id), client_id);
            let written = of_client(s.written, client_id);
            &&& written.len() <= requests.len()
            &&& forall|i: int|
                0 <= i < written.len() ==> answers(requests[i].1, (#[trigger] written[i]).1)
            &&& s.requests.len() == 0 && w.queue.len() == 0 && w.working
                && s.clients.connected.contains_key(client_id) ==> written.len() == requests.len()
        }),
{
    let s = Running::<AnyMessage>::begin(Clients::initial(), count).after_steps(steps);
    let w = s.workers[worker_of(client_id, count) as int];
    let requests = asked(frames(steps, client_id), client_id);
    let handled = of_client(s.handled, client_id);
    let replies = of_client(s.replies, client_id);
    let written = of_client(s.written, client_id);
    law_requests_are_sent_in_order(Clients::initial(), count, steps, client_id);
    law_requests_are_handled_in_order(Clients::initial(), count, steps, client_id);
    assert forall|i: int| 0 <= i < handled.len() implies (#[trigger] handled[i]) == requests[i]
        && wants_answer(handled[i].1) by {
        assert(requests[i] == handled[i]);
    }
    lemma_replies_answer(Clients::initial(), count, steps, client_id);
    law_client_gets_its_replies_in_order(
        count,
        steps,
        client_id,
        |message: AnyMessage| Seq::<u8>::empty(),
    );
    assert forall|i: int| 0 <= i < written.len() implies answers(
        requests[i].1,
        (#[trigger] written[i]).1,
    ) by {
        assert(written[i] == replies[i]);
        assert(handled[i] == requests[i]);
    }
    if s.requests.len() == 0 && w.queue.len() == 0 {
        reveal(Seq::filter);
        assert(of_client(s.requests, client_id).len() == 0);
        assert(of_client(w.queue, client_id).len() == 0);
    }
}

/// Every ping of a connection comes back. However many a client sends, be they equal or not, their
/// frames are read back one by one and each is recognised. If the messages made of them are what
/// the client asks, then what is written to it are answers to them, in order, each with the
/// `rpc_id` of its ping and a count of one; and once the queues are empty there is one for every
/// ping, if the client is still connected and its worker runs. This holds until the ids run out.
pub proof fn law_pings_come_back(
    payloads: Seq<Seq<u8>>,
    jobs: Seq<RetResult<FrameJob<MessageParaser>>>,
    pings: Seq<C2M_PingRequest>,
    count: usize,
    steps: Seq<Step<AnyMessage>>,
    client_id: usize,
)
    requires
        jobs.len() == payloads.len(),
        pings.len() == payloads.len(),
        forall|i: int|
            0 <= i < payloads.len() ==> (#[trigger] payloads[i]).len() <= MAX_FRAME_SIZE && is_ping(
                payloads[i],
            ),
        forall|i: int|
            0 <= i < payloads.len() ==> sorts(
                standard_parasers(),
                msgpack_value(payloads[i]),
                client_id,
                #[trigger] jobs[i],
            ),
        count > 0,
        Running::begin(Clients::initial(), count).allows_all(steps),
        Running::begin(Clients::initial(), count).after_steps(steps).arrived.len() <= usize::MAX,
        forall|i: int| 0 <= i < steps.len() ==> is_dispatched(#[trigger] steps[i]),
        asked(frames(steps, client_id), client_id) == Seq::new(
            pings.len(),
            |i: int| (client_id, AnyMessage::Ping(pings[i])),
        ),
    ensures
        unframe(stream(payloads), MAX_FRAME_SIZE as nat).payloads == payloads,
        unframe(stream(payloads), MAX_FRAME_SIZE as nat).rest == Seq::<u8>::empty(),
        forall|i: int|
            0 <= i < payloads.len() ==> ((#[trigger] jobs[i]) matches Ok(job) && job.client_id
                == client_id && job.paraser == MessageParaser::Ping && Some(job.value)
                == msgpack_value(payloads[i])),
        ({
            let s = Running::begin(Clients::initial(), count).after_steps(steps);
            let w = s.workers[worker_of(client_id, count) as int];
            let written = of_client(s.written, client_id);
            &&& written.len() <= pings.len()
            &&& forall|i: int|
                0 <= i < written.len() ==> {
                    &&& (#[trigger] written[i]).1 matches AnyMessage::Pong(answer)
                    &&& answer.rpc_id == pings[i].rpc_id
                    &&& answer._t@ == "C2M_PingResponse"@
                    &&& answer.error == 0
                    &&& answer.message@.len() == 0
                    &&& answer.count == 1
                }
            &&& s.requests.len() == 0 && w.queue.len() == 0 && w.working
                && s.clients.connected.contains_key(client_id) ==> written.len() == pings.len()
        }),
{
    assert forall|i: int| 0 <= i < payloads.len() implies (#[trigger] payloads[i]).len()
        <= MAX_FRAME_SIZE && payloads[i].len() <= MAX_PAYLOAD by {}
    law_stream_round_trip(payloads, MAX_FRAME_SIZE as nat);
    assert forall|i: int| 0 <= i < payloads.len() implies ((#[trigger] jobs[i]) matches Ok(job)
        && job.client_id == client_id && job.paraser == MessageParaser::Ping && Some(job.value)
        == msgpack_value(payloads[i])) by {
        assert(is_ping(payloads[i]));
    }
    law_requests_come_back(count, steps, client_id);
    let s = Running::<AnyMessage>::begin(Clients::initial(), count).after_steps(steps);
    let requests = asked(frames(steps, client_id), client_id);
    let written = of_client(s.written, client_id);
    assert forall|i: int| 0 <= i < written.len() implies {
        &&& (#[trigger] written[i]).1 matches AnyMessage::Pong(answer)
        &&& answer.rpc_id == pings[i].rpc_id
        &&& answer._t@ == "C2M_PingResponse"@
        &&& answer.error == 0
        &&& answer.message@.len() == 0
        &&& answer.count == 1
    } by {
        assert(answers(requests[i].1, written[i].1));
    }
}

/// The addresses that clients connected from, in order.
pub open spec fn callers<M>(steps: Seq<Step<M>>) -> Seq<Seq<char>>
    decreases steps.len(),
{
    if steps.len() == 0 {
        Seq::empty()
    } else {
        match steps.last() {
            Step::Accept { event: AcceptEvent::Accepted { addr } } => callers(
                steps.drop_last(),
            ).push(addr@),
            _ => callers(steps.drop_last()),
        }
    }
}

/// Whether accepting failed or was told to end in `step`.
pub open spec fn ends_accepting<M>(step: Step<M>) -> bool {
    step == Step::<M>::Accept { event: AcceptEvent::Failed } || step == Step::<M>::Accept {
        event: AcceptEvent::Shutdown,
    }
}

/// Every connection is served, over time too: whatever else the loops do, the clients that arrived
/// are those that connected, in order, and accepting goes on unless it failed or the server shuts
/// down. At any time the next one can connect; it is then in the table, with its address, and is
/// read from.
pub proof fn law_everybody_who_connects_arrives<M>(
    clients: Clients,
    count: usize,
    steps: Seq<Step<M>>,
    addr: String,
)
    requires
        Running::begin(clients, count).allows_all(steps),
    ensures
        ({
            let s = Running::begin(clients, count).after_steps(steps);
            let t = s.after_step(Step::Accept { event: AcceptEvent::Accepted { addr } });
            &&& s.arrived == callers(steps)
            &&& s.accepting <==> forall|i: int|
                0 <= i < steps.len() ==> !ends_accepting(#[trigger] steps[i])
            &&& s.accepting ==> s.allows(Step::Accept { event: AcceptEvent::Accepted { addr } })
            &&& t.accepting == s.accepting
            &&& t.clients.connected == s.clients.connected.insert(s.clients.next_id, addr@)
            &&& t.reading == s.reading.insert(s.clients.next_id)
        }),
    decreases steps.len(),
{
    if steps.len() > 0 {
        let front = steps.drop_last();
        law_everybody_who_connects_arrives(clients, count, front, addr);
        let s = Running::<M>::begin(clients, count).after_steps(steps);
        let before = Running::<M>::begin(clients, count).after_steps(front);
        if before.accepting {
            assert forall|i: int| 0 <= i < front.len() implies !ends_accepting(
                #[trigger] steps[i],
            ) by {
                assert(steps[i] == front[i]);
            }
            assert(steps[steps.len() - 1] == steps.last());
            assert(s.accepting <==> !ends_accepting(steps.last()));
        } else {
            let i = choose|i: int| 0 <= i < front.len() && ends_accepting(#[trigger] front[i]);
            assert(ends_accepting(steps[i]));
        }
    }
}

} // verus!
