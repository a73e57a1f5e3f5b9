//! The table of connected clients.

use dashmap::DashMap;
use vstd::prelude::*;

verus! {

/// A concurrent hash map.
#[verifier::external_type_specification]
#[verifier::external_body]
#[verifier::reject_recursive_types(K)]
#[verifier::reject_recursive_types(V)]
#[verifier::reject_recursive_types(S)]
pub struct ExDashMap<K, V, S>(dashmap::DashMap<K, V, S>);

/// What a map from client ids to addresses holds.
pub uninterp spec fn held(map: DashMap<usize, String>) -> Map<usize, Seq<char>>;

/// `DashMap::new` makes a map that holds nothing.
#[verifier::external_body]
fn empty_map() -> (r: DashMap<usize, String>)
    ensures
        held(r).dom() == Set::<usize>::empty(),
{
    DashMap::new()
}

/// `DashMap::insert` sets the value of one key and leaves the others. It returns the value that
/// the key had before, if it had one. The map is borrowed exclusively, so no other thread changes
/// it meanwhile and no reference into it is held.
#[verifier::external_body]
fn map_insert(map: &mut DashMap<usize, String>, key: usize, value: String) -> (r: Option<String>)
    ensures
        held(*final(map)) == held(*old(map)).insert(key, value@),
        match r {
            Some(before) => held(*old(map)).contains_key(key) && held(*old(map))[key] == before@,
            None => !held(*old(map)).contains_key(key),
        },
{
    map.insert(key, value)
}

/// `DashMap::remove` takes one key out of the map and leaves the others. It returns the entry that
/// was taken out, if there was one. The map is borrowed exclusively, as for an insertion.
#[verifier::external_body]
fn map_remove(map: &mut DashMap<usize, String>, key: usize) -> (r: Option<(usize, String)>)
    ensures
        held(*final(map)) == held(*old(map)).remove(key),
        match r {
            Some(entry) => held(*old(map)).contains_key(key) && entry.0 == key && held(
                *old(map),
            )[key] == entry.1@,
            None => !held(*old(map)).contains_key(key),
        },
{
    map.remove(&key)
}

/// `DashMap::get` finds the value of a key, here copied out so that no reference into the map
/// outlives the call.
#[verifier::external_body]
fn map_get(map: &DashMap<usize, String>, key: usize) -> (r: Option<String>)
    ensures
        match r {
            Some(value) => held(*map).contains_key(key) && held(*map)[key] == value@,
            None => !held(*map).contains_key(key),
        },
{
    map.get(&key).map(|entry| entry.value().clone())
}

/// The state of a client table: the address of each connected client, and the id that the next one
/// gets.
#[verifier::ext_equal]
pub struct Clients {
    pub connected: Map<usize, Seq<char>>,
    pub next_id: usize,
}

impl Clients {
    /// A table before the first connection.
    pub open spec fn initial() -> Clients {
        Clients { connected: Map::empty(), next_id: 0 }
    }

    /// The table after a connection from `addr`. Ids are counted up and start over at the end.
    pub open spec fn after_connect(self, addr: Seq<char>) -> Clients {
        Clients {
            connected: self.connected.insert(self.next_id, addr),
            next_id: if self.next_id == usize::MAX {
                0
            } else {
                (self.next_id + 1) as usize
            },
        }
    }

    /// The table after the client `id` is gone.
    pub open spec fn after_disconnect(self, id: usize) -> Clients {
        Clients { connected: self.connected.remove(id), next_id: self.next_id }
    }

    /// Every connected client got its id before the next one will: the next id is free.
    pub open spec fn ids_are_past(self) -> bool {
        forall|id: usize| #[trigger] self.connected.contains_key(id) ==> id < self.next_id
    }
}

/// The connected clients of a server, by id.
pub struct ClientTable {
    clients: DashMap<usize, String>,
    next_id: usize,
}

impl View for ClientTable {
    type V = Clients;

    closed spec fn view(&self) -> Clients {
        Clients { connected: held(self.clients), next_id: self.next_id }
    }
}

impl ClientTable {
    /// A table without clients.
    pub fn new() -> (r: Self)
        ensures
            r@ == Clients::initial(),
            r@.next_id == 0,
            forall|id: usize| !(#[trigger] r@.connected.contains_key(id)),
    {
        let table = ClientTable { clients: empty_map(), next_id: 0 };
        assert(held(table.clients) =~= Map::<usize, Seq<char>>::empty());
        table
    }

    /// Takes in a client, and returns its id.
    pub fn connect(&mut self, addr: String) -> (id: usize)
        ensures
            id == old(self)@.next_id,
            final(self)@ == old(self)@.after_connect(addr@),
            final(self)@.connected == old(self)@.connected.insert(id, addr@),
            id < usize::MAX ==> final(self)@.next_id == id + 1,
            id == usize::MAX ==> final(self)@.next_id == 0,
    {
        let id: usize = self.next_id;
        self.next_id = id.wrapping_add(1);
        let _ = map_insert(&mut self.clients, id, addr);
        id
    }

    /// Lets a client go, and returns its address if it was connected.
    pub fn disconnect(&mut self, id: usize) -> (r: Option<String>)
        ensures
            final(self)@ == old(self)@.after_disconnect(id),
            final(self)@.connected == old(self)@.connected.remove(id),
            final(self)@.next_id == old(self)@.next_id,
            match r {
                Some(addr) => old(self)@.connected.contains_key(id) && old(self)@.connected[id]
                    == addr@,
                None => !old(self)@.connected.contains_key(id),
            },
    {
        match map_remove(&mut self.clients, id) {
            Some(entry) => Some(entry.1),
            None => None,
        }
    }

    /// The address of a client, if it is connected.
    pub fn address_of(&self, id: usize) -> (r: Option<String>)
        ensures
            match r {
                Some(addr) => self@.connected.contains_key(id) && self@.connected[id] == addr@,
                None => !self@.connected.contains_key(id),
            },
    {
        map_get(&self.clients, id)
    }
}

/// Something that happens to a client table.
pub enum TableEvent {
    Connect { addr: Seq<char> },
    Disconnect { id: usize },
}

/// The table after one event.
pub open spec fn after_event(clients: Clients, event: TableEvent) -> Clients {
    match event {
        TableEvent::Connect { addr } => clients.after_connect(addr),
        TableEvent::Disconnect { id } => clients.after_disconnect(id),
    }
}

/// The table after some events, in order.
pub open spec fn after_events(clients: Clients, events: Seq<TableEvent>) -> Clients
    decreases events.len(),
{
    if events.len() == 0 {
        clients
    } else {
        after_event(after_events(clients, events.drop_last()), events.last())
    }
}

/// How many of some events are connections.
pub open spec fn connections(events: Seq<TableEvent>) -> nat
    decreases events.len(),
{
    if events.len() == 0 {
        0
    } else {
        connections(events.drop_last()) + if events.last() is Connect {
            1nat
        } else {
            0nat
        }
    }
}

/// Until the ids run out, the next id is the number of connections there have been and belongs to
/// nobody: whatever clients came and went, a new one never takes the place of one that is still
/// there.
pub proof fn law_ids_are_fresh(events: Seq<TableEvent>)
    requires
        connections(events) <= usize::MAX,
    ensures
        after_events(Clients::initial(), events).next_id == connections(events),
        after_events(Clients::initial(), events).ids_are_past(),
        !after_events(Clients::initial(), events).connected.contains_key(
            after_events(Clients::initial(), events).next_id,
        ),
    decreases events.len(),
{
    if events.len() > 0 {
        law_ids_are_fresh(events.drop_last());
    }
}

/// An id that was given away and whose client is gone stays free until the ids run out: however
/// many clients come and go after that, none of them gets it.
pub proof fn law_departed_ids_stay_free(
    before: Seq<TableEvent>,
    since: Seq<TableEvent>,
    id: usize,
)
    requires
        connections(before + since) <= usize::MAX,
        id < after_events(Clients::initial(), before).next_id,
        !after_events(Clients::initial(), before).connected.contains_key(id),
    ensures
        id < after_events(Clients::initial(), before + since).next_id,
        !after_events(Clients::initial(), before + since).connected.contains_key(id),
    decreases since.len(),
{
    if since.len() == 0 {
        assert(before + since =~= before);
    } else {
        let shorter = before + since.drop_last();
        assert((before + since).drop_last() =~= shorter);
        law_departed_ids_stay_free(before, since.drop_last(), id);
        law_ids_are_fresh(shorter);
    }
}

/// A client that comes and goes leaves the others as they were, as long as its id was free.
pub proof fn law_disconnect_undoes_connect(clients: Clients, addr: Seq<char>)
    requires
        !clients.connected.contains_key(clients.next_id),
    ensures
        clients.after_connect(addr).after_disconnect(clients.next_id).connected
            == clients.connected,
{
    assert(clients.after_connect(addr).after_disconnect(clients.next_id).connected
        =~= clients.connected);
}

/// Ids are counted up from zero, one for every connection, and start over at the end.
pub proof fn law_ids_are_counted(clients: Clients, addr: Seq<char>, id: usize)
    ensures
        Clients::initial().next_id == 0,
        !Clients::initial().connected.contains_key(id),
        clients.next_id < usize::MAX ==> clients.after_connect(addr).next_id == clients.next_id + 1,
        clients.next_id == usize::MAX ==> clients.after_connect(addr).next_id == 0,
        clients.after_disconnect(id).next_id == clients.next_id,
{
}

/// A connection shows in the table under its id, with its address, and nowhere else.
pub proof fn law_connect_adds_one_client(clients: Clients, addr: Seq<char>, id: usize)
    ensures
        clients.after_connect(addr).connected.contains_key(clients.next_id),
        clients.after_connect(addr).connected[clients.next_id] == addr,
        id != clients.next_id ==> (clients.after_connect(addr).connected.contains_key(id)
            <==> clients.connected.contains_key(id)),
        id != clients.next_id && clients.connected.contains_key(id) ==> clients.after_connect(
            addr,
        ).connected[id] == clients.connected[id],
{
}

/// Letting a client go twice is letting it go once, and no other client notices.
pub proof fn law_disconnect_is_local(clients: Clients, id: usize, other: usize)
    ensures
        clients.after_disconnect(id).after_disconnect(id) == clients.after_disconnect(id),
        !clients.after_disconnect(id).connected.contains_key(id),
        other != id ==> (clients.after_disconnect(id).connected.contains_key(other)
            <==> clients.connected.contains_key(other)),
        other != id && clients.connected.contains_key(other) ==> clients.after_disconnect(
            id,
        ).connected[other] == clients.connected[other],
{
    assert(clients.after_disconnect(id).after_disconnect(id).connected =~= clients.after_disconnect(
        id,
    ).connected);
}

} // verus!
