//! The registry of connections and the fanout over it.
use vstd::prelude::*;
use crate::client::{spreads, Client, Connection, Fanout, Reach, Spread};
use crate::context::{peer_views, Peer};
use crate::error::{JuntaError, JuntaResult};
use crate::message::{Frame, MessageContent};

verus! {

/// The connections of a registry, as mathematical values.
pub open spec fn connections(clients: Seq<Client>) -> Seq<Connection> {
    Seq::new(clients.len(), |i: int| clients[i]@)
}

/// What a handler may look up of the connections: the id and the address of
/// each, in their order.
pub open spec fn roster(all: Seq<Connection>) -> Seq<(u128, Seq<char>)> {
    Seq::new(all.len(), |i: int| (all[i].id, all[i].address))
}

/// Some connection of the sequence has this id.
pub open spec fn listed(all: Seq<Connection>, id: u128) -> bool {
    exists|i: int| 0 <= i < all.len() && (#[trigger] all[i]).id == id
}

/// The index is that of the first connection with this id.
pub open spec fn first_at(all: Seq<Connection>, id: u128, index: int) -> bool {
    &&& 0 <= index < all.len()
    &&& all[index].id == id
    &&& forall|j: int| 0 <= j < index ==> (#[trigger] all[j]).id != id
}

/// Where the first connection with this id stands.
pub open spec fn index_of(all: Seq<Connection>, id: u128) -> Option<int> {
    if exists|index: int| first_at(all, id, index) {
        Some(choose|index: int| first_at(all, id, index))
    } else {
        None
    }
}

/// The first connection with an id stands at one place only, and stands
/// somewhere exactly if the id is listed.
pub proof fn lemma_index_of(all: Seq<Connection>, id: u128)
    ensures
        forall|index: int| first_at(all, id, index) ==> index_of(all, id) == Some(index),
        index_of(all, id) is Some <==> listed(all, id),
        index_of(all, id) matches Some(index) ==> first_at(all, id, index),
{
    assert forall|index: int| first_at(all, id, index) implies index_of(all, id) == Some(index) by {
        let other = choose|other: int| first_at(all, id, other);
        if other < index {
            assert(all[other].id != id);
        }
        if index < other {
            assert(all[index].id != id);
        }
    }
    if listed(all, id) {
        lemma_first_exists(all, id, all.len() as int);
    }
}

/// Among the first `upto` connections, if one has the id then one is the
/// first to have it.
proof fn lemma_first_exists(all: Seq<Connection>, id: u128, upto: int)
    requires
        0 <= upto <= all.len(),
    ensures
        (exists|i: int| 0 <= i < upto && (#[trigger] all[i]).id == id) ==> exists|index: int|
            first_at(all, id, index) && index < upto,
    decreases upto,
{
    if upto > 0 {
        lemma_first_exists(all, id, upto - 1);
        if exists|i: int| 0 <= i < upto - 1 && (#[trigger] all[i]).id == id {
            let index = choose|index: int| first_at(all, id, index) && index < upto - 1;
            assert(first_at(all, id, index) && index < upto);
        } else if all[upto - 1].id == id {
            assert(first_at(all, id, upto - 1));
        }
    }
}

/// No two connections of the sequence have the same id.
pub open spec fn unique(all: Seq<Connection>) -> bool {
    forall|i: int, j: int| 0 <= i < j < all.len() ==> (#[trigger] all[i]).id != (#[trigger] all[j]).id
}

/// The connections after a frame was handed to each of them but to the one
/// with the id to skip, where there is one. A connection whose queue is full
/// stays as it is.
pub open spec fn delivered(all: Seq<Connection>, skip: Option<u128>, frame: Frame) -> Seq<Connection> {
    Seq::new(
        all.len(),
        |i: int|
            if skip == Some(all[i].id) {
                all[i]
            } else {
                all[i].enqueued(frame)
            },
    )
}

/// The connections after a frame was handed to the first connection with the
/// given id, if there is one. A connection whose queue is full stays as it
/// is.
pub open spec fn delivered_to(all: Seq<Connection>, id: u128, frame: Frame) -> Seq<Connection> {
    match index_of(all, id) {
        Some(index) => all.update(index, all[index].enqueued(frame)),
        None => all,
    }
}

impl Spread {
    /// The connections after this fanout was carried out, given who asked
    /// for it.
    pub open spec fn handed(self, all: Seq<Connection>, from: u128) -> Seq<Connection> {
        match self.reach {
            Reach::All => delivered(all, None, self.message.frame()),
            Reach::Others => delivered(all, Some(from), self.message.frame()),
            Reach::One(id) => delivered_to(all, id, self.message.frame()),
        }
    }
}

/// A frame for one connection changes no id, address or depth, and keeps
/// every connection well formed.
pub proof fn lemma_delivered_to_follows(all: Seq<Connection>, id: u128, frame: Frame)
    ensures
        delivered_to(all, id, frame).len() == all.len(),
        forall|i: int|
            0 <= i < all.len() ==> (#[trigger] delivered_to(all, id, frame)[i]).follows(all[i]),
        unique(all) ==> unique(delivered_to(all, id, frame)),
        forall|other: u128| listed(all, other) <==> listed(delivered_to(all, id, frame), other),
{
    lemma_index_of(all, id);
    let after = delivered_to(all, id, frame);
    assert forall|other: u128| listed(all, other) <==> listed(after, other) by {
        if listed(all, other) {
            let i = choose|i: int| 0 <= i < all.len() && (#[trigger] all[i]).id == other;
            assert(after[i].id == other);
        }
        if listed(after, other) {
            let i = choose|i: int| 0 <= i < after.len() && (#[trigger] after[i]).id == other;
            assert(all[i].id == other);
        }
    }
    assert forall|i: int, j: int| 0 <= i < j < after.len() && unique(all) implies (
    #[trigger] after[i]).id != (#[trigger] after[j]).id by {
        assert(all[i].id != all[j].id);
    }
}

/// The connections after every fanout that the connection `from` asked for
/// was carried out, in the order of the asking.
pub open spec fn spread(all: Seq<Connection>, from: u128, asked: Seq<Spread>) -> Seq<Connection>
    decreases asked.len(),
{
    if asked.len() == 0 {
        all
    } else {
        asked.last().handed(spread(all, from, asked.drop_last()), from)
    }
}

/// A fanout changes no id, address or depth, and keeps every connection well
/// formed.
pub proof fn lemma_delivered_follows(all: Seq<Connection>, skip: Option<u128>, frame: Frame)
    ensures
        delivered(all, skip, frame).len() == all.len(),
        forall|i: int|
            0 <= i < all.len() ==> (#[trigger] delivered(all, skip, frame)[i]).follows(all[i]),
        unique(all) ==> unique(delivered(all, skip, frame)),
        forall|id: u128| listed(all, id) <==> listed(delivered(all, skip, frame), id),
{
    let after = delivered(all, skip, frame);
    assert forall|id: u128| listed(all, id) <==> listed(after, id) by {
        if listed(all, id) {
            let i = choose|i: int| 0 <= i < all.len() && (#[trigger] all[i]).id == id;
            assert(after[i].id == id);
        }
        if listed(after, id) {
            let i = choose|i: int| 0 <= i < after.len() && (#[trigger] after[i]).id == id;
            assert(all[i].id == id);
        }
    }
    assert forall|i: int, j: int| 0 <= i < j < after.len() && unique(all) implies (
    #[trigger] after[i]).id != (#[trigger] after[j]).id by {
        assert(all[i].id != all[j].id);
    }
}

/// A message that is broadcast is never put on the queue of the connection
/// that broadcast it: whoever is skipped by a fanout is left exactly as it
/// was.
pub proof fn lemma_broadcast_spares_sender(all: Seq<Connection>, from: u128, frame: Frame, i: int)
    requires
        0 <= i < all.len(),
        all[i].id == from,
    ensures
        delivered(all, Some(from), frame)[i] == all[i],
{
}

/// Every fanout asked for keeps the ids, addresses and depths, and keeps
/// every connection well formed.
pub proof fn lemma_spread_follows(all: Seq<Connection>, from: u128, asked: Seq<Spread>)
    ensures
        spread(all, from, asked).len() == all.len(),
        forall|i: int| 0 <= i < all.len() ==> (#[trigger] spread(all, from, asked)[i]).follows(all[i]),
        unique(all) ==> unique(spread(all, from, asked)),
        forall|id: u128| listed(all, id) <==> listed(spread(all, from, asked), id),
    decreases asked.len(),
{
    if asked.len() > 0 {
        let before = spread(all, from, asked.drop_last());
        lemma_spread_follows(all, from, asked.drop_last());
        lemma_delivered_follows(before, None, asked.last().message.frame());
        lemma_delivered_follows(before, Some(from), asked.last().message.frame());
        match asked.last().reach {
            Reach::One(id) => {
                lemma_delivered_to_follows(before, id, asked.last().message.frame());
            },
            _ => {},
        }
        let after = spread(all, from, asked);
        assert forall|i: int| 0 <= i < all.len() implies (#[trigger] after[i]).follows(all[i]) by {
            assert(after[i].follows(before[i]));
            assert(before[i].follows(all[i]));
        }
    }
}

/// The table of the registered connections, and the fanout over it.
pub struct Broadcaster {
    clients: Vec<Client>,
}

impl View for Broadcaster {
    type V = Seq<Connection>;

    closed spec fn view(&self) -> Seq<Connection> {
        connections(self.clients@)
    }
}

impl Broadcaster {
    /// An empty registry.
    pub fn new() -> (registry: Broadcaster)
        ensures
            registry@ == Seq::<Connection>::empty(),
    {
        let registry = Broadcaster { clients: Vec::new() };
        assert(registry@ =~= Seq::<Connection>::empty());
        registry
    }

    /// How many connections are registered.
    pub fn len(&self) -> (n: usize)
        ensures
            n == self@.len(),
    {
        self.clients.len()
    }

    /// The id and the address of every registered connection.
    pub fn roster(&self) -> (peers: Vec<Peer>)
        ensures
            peer_views(peers@) == roster(self@),
    {
        let mut peers: Vec<Peer> = Vec::new();
        let mut index: usize = 0;
        while index < self.clients.len()
            invariant
                index <= self.clients.len(),
                peers.len() == index,
                forall|i: int| 0 <= i < index ==> (#[trigger] peers[i])@ == roster(self@)[i],
            decreases self.clients.len() - index,
        {
            let id = self.clients[index].id();
            let address = self.clients[index].address().clone();
            peers.push(Peer { id, address });
            index += 1;
        }
        assert(peer_views(peers@) =~= roster(self@));
        peers
    }

    /// Where the connection with this id stands.
    pub fn find(&self, id: u128) -> (found: Option<usize>)
        ensures
            match found {
                Some(index) => index_of(self@, id) == Some(index as int),
                None => index_of(self@, id) is None,
            },
            found matches Some(index) ==> first_at(self@, id, index as int),
            found is Some <==> listed(self@, id),
    {
        proof {
            lemma_index_of(self@, id);
        }
        let mut index: usize = 0;
        while index < self.clients.len()
            invariant
                index <= self.clients.len(),
                forall|j: int| 0 <= j < index ==> (#[trigger] self@[j]).id != id,
            decreases self.clients.len() - index,
        {
            if self.clients[index].id() == id {
                proof {
                    assert(first_at(self@, id, index as int));
                    lemma_index_of(self@, id);
                }
                return Some(index);
            }
            index += 1;
        }
        proof {
            lemma_index_of(self@, id);
        }
        None
    }

    /// Registers a connection. Refused, with the connection handed back,
    /// where one with the same id is registered.
    pub fn insert(&mut self, client: Client) -> (out: Result<(), Client>)
        ensures
            match out {
                Ok(_) => !listed(old(self)@, client@.id) && final(self)@ == old(self)@.push(client@),
                Err(back) => listed(old(self)@, client@.id) && back == client && final(self)@ == old(
                    self,
                )@,
            },
            unique(old(self)@) ==> unique(final(self)@),
    {
        if self.find(client.id()).is_some() {
            return Err(client);
        }
        self.clients.push(client);
        assert(final(self)@ =~= old(self)@.push(client@));
        Ok(())
    }

    /// Takes the connection with this id out of the registry.
    pub fn remove(&mut self, id: u128) -> (out: Option<Client>)
        ensures
            match out {
                Some(client) => client@.id == id && exists|index: int|
                    0 <= index < old(self)@.len() && old(self)@[index] == client@ && final(self)@
                        == old(self)@.remove(index),
                None => !listed(old(self)@, id) && final(self)@ == old(self)@,
            },
            unique(old(self)@) ==> unique(final(self)@) && !listed(final(self)@, id),
    {
        match self.find(id) {
            Some(index) => {
                let client = self.clients.remove(index);
                assert(final(self)@ =~= old(self)@.remove(index as int));
                proof {
                    lemma_remove_keeps_unique(old(self)@, index as int);
                }
                Some(client)
            },
            None => None,
        }
    }

    /// Takes the connection at an index out of the registry.
    pub(crate) fn take_at(&mut self, index: usize) -> (client: Client)
        requires
            index < old(self)@.len(),
        ensures
            client@ == old(self)@[index as int],
            final(self)@ == old(self)@.remove(index as int),
    {
        let client = self.clients.remove(index);
        assert(final(self)@ =~= old(self)@.remove(index as int));
        client
    }

    /// Puts a connection into the registry at an index.
    pub(crate) fn put_at(&mut self, index: usize, client: Client)
        requires
            index <= old(self)@.len(),
        ensures
            final(self)@ == old(self)@.insert(index as int, client@),
    {
        self.clients.insert(index, client);
        assert(final(self)@ =~= old(self)@.insert(index as int, client@));
    }

    /// Puts a frame on the queue of the connection at an index.
    pub(crate) fn enqueue_at(&mut self, index: usize, frame: crate::message::OwnedMessage) -> (out:
        JuntaResult<()>)
        requires
            index < old(self)@.len(),
        ensures
            final(self)@ == old(self)@.update(index as int, old(self)@[index as int].enqueued(frame@)),
            out is Ok <==> old(self)@[index as int].outbound.len() < old(self)@[index as int].depth,
            out matches Err(error) ==> error.is_transport(crate::client::queue_full()),
    {
        let out = self.clients[index].enqueue(frame);
        assert(final(self)@ =~= old(self)@.update(
            index as int,
            old(self)@[index as int].enqueued(frame@),
        ));
        out
    }

    /// Takes the frames that wait for the sink of the connection at an index.
    pub(crate) fn drain_at(&mut self, index: usize) -> (taken: Vec<crate::message::OwnedMessage>)
        requires
            index < old(self)@.len(),
        ensures
            crate::client::frames(taken@) == old(self)@[index as int].outbound,
            final(self)@ == old(self)@.update(
                index as int,
                Connection { outbound: Seq::empty(), ..old(self)@[index as int] },
            ),
    {
        let taken = self.clients[index].drain();
        assert(final(self)@ =~= old(self)@.update(
            index as int,
            Connection { outbound: Seq::empty(), ..old(self)@[index as int] },
        ));
        taken
    }

    /// Hands a frame to every registered connection but to the one with the
    /// id to skip. A connection whose queue is full is passed over.
    fn deliver(&mut self, skip: Option<u128>, msg: &MessageContent)
        ensures
            final(self)@ == delivered(old(self)@, skip, msg@.frame()),
    {
        let mut index: usize = 0;
        while index < self.clients.len()
            invariant
                index <= self.clients.len(),
                self@.len() == old(self)@.len(),
                forall|i: int|
                    0 <= i < index ==> #[trigger] self@[i] == delivered(
                        old(self)@,
                        skip,
                        msg@.frame(),
                    )[i],
                forall|i: int| index <= i < self@.len() ==> #[trigger] self@[i] == old(self)@[i],
            decreases self.clients.len() - index,
        {
            let ghost before = self@;
            let spared = match skip {
                Some(id) => self.clients[index].id() == id,
                None => false,
            };
            assert(before[index as int] == old(self)@[index as int]);
            if !spared {
                let _ = self.clients[index].send(msg.clone());
                assert(self@[index as int] == before[index as int].enqueued(msg@.frame()));
            } else {
                assert(self@[index as int] == before[index as int]);
            }
            let ghost after = self@;
            assert(after.len() == before.len());
            assert(forall|i: int| 0 <= i < after.len() && i != index ==> #[trigger] after[i] == before[i]);
            assert(after[index as int] == delivered(old(self)@, skip, msg@.frame())[index as int]);
            index += 1;
        }
        assert(self@ =~= delivered(old(self)@, skip, msg@.frame()));
    }

    /// Carries out every fanout that the connection `from` asked for, in the
    /// order of the asking.
    pub fn spread(&mut self, from: u128, asked: Vec<Fanout>)
        ensures
            final(self)@ == spread(old(self)@, from, spreads(asked@)),
    {
        let mut done: usize = 0;
        assert(spreads(asked@).take(0) =~= Seq::<Spread>::empty());
        while done < asked.len()
            invariant
                done <= asked.len(),
                self@ == spread(old(self)@, from, spreads(asked@).take(done as int)),
            decreases asked.len() - done,
        {
            match asked[done].reach {
                Reach::All => self.deliver(None, &asked[done].message),
                Reach::Others => self.deliver(Some(from), &asked[done].message),
                Reach::One(id) => {
                    let _ = self.send_to(id, asked[done].message.clone());
                },
            }
            proof {
                let upto = spreads(asked@).take(done as int + 1);
                assert(upto.drop_last() =~= spreads(asked@).take(done as int));
                assert(upto.last() == asked[done as int]@);
            }
            done += 1;
        }
        assert(spreads(asked@).take(asked.len() as int) =~= spreads(asked@));
    }

    /// Puts content on the queue of the connection with this id.
    pub fn send_to(&mut self, id: u128, msg: MessageContent) -> (out: JuntaResult<()>)
        ensures
            match index_of(old(self)@, id) {
                Some(index) => final(self)@ == old(self)@.update(
                    index,
                    old(self)@[index].enqueued(msg@.frame()),
                ) && (out is Ok <==> old(self)@[index].outbound.len() < old(self)@[index].depth),
                None => final(self)@ == old(self)@ && out is Err && out->Err_0.kind is NotFound,
            },
    {
        match self.find(id) {
            Some(index) => {
                let out = self.clients[index].send(msg);
                assert(final(self)@ =~= old(self)@.update(
                    index as int,
                    old(self)@[index as int].enqueued(msg@.frame()),
                ));
                out
            },
            None => Err(JuntaError::new(crate::error::JuntaErrorKind::NotFound)),
        }
    }
}

/// Fanout over the registered connections.
pub trait Broadcast {
    /// The registered connections.
    spec fn registered(&self) -> Seq<Connection>;

    /// Hands the message to every registered connection. Best effort: the
    /// call succeeds whoever takes the message.
    fn send_all(&mut self, msg: MessageContent) -> (out: JuntaResult<()>)
        ensures
            out is Ok,
            final(self).registered() == delivered(old(self).registered(), None, msg@.frame()),
    ;

    /// Hands the message to every registered connection but to the one with
    /// the id `from`, which is left as it is.
    fn broadcast(&mut self, from: u128, msg: MessageContent) -> (out: JuntaResult<()>)
        ensures
            out is Ok,
            final(self).registered() == delivered(old(self).registered(), Some(from), msg@.frame()),
    ;

    /// Looks a registered connection up by its id.
    fn client(&self, id: u128) -> (found: Option<&Client>)
        ensures
            match found {
                Some(client) => listed(self.registered(), id) && client@.id == id && exists|i: int|
                    0 <= i < self.registered().len() && self.registered()[i] == client@,
                None => !listed(self.registered(), id),
            },
    ;
}

impl Broadcast for Broadcaster {
    open spec fn registered(&self) -> Seq<Connection> {
        self@
    }

    fn send_all(&mut self, msg: MessageContent) -> (out: JuntaResult<()>) {
        self.deliver(None, &msg);
        Ok(())
    }

    fn broadcast(&mut self, from: u128, msg: MessageContent) -> (out: JuntaResult<()>) {
        self.deliver(Some(from), &msg);
        Ok(())
    }

    fn client(&self, id: u128) -> (found: Option<&Client>) {
        match self.find(id) {
            Some(index) => {
                let client = &self.clients[index];
                assert(self@[index as int] == client@);
                Some(client)
            },
            None => None,
        }
    }
}

/// Taking a connection out of a registry without duplicates leaves a registry
/// without duplicates that lists what was listed before, but for the id of
/// that connection.
pub proof fn lemma_remove_keeps_unique(all: Seq<Connection>, index: int)
    requires
        0 <= index < all.len(),
    ensures
        unique(all) ==> unique(all.remove(index)) && !listed(all.remove(index), all[index].id),
        unique(all) ==> forall|other: u128|
            listed(all.remove(index), other) <==> listed(all, other) && other != all[index].id,
{
    let rest = all.remove(index);
    if unique(all) {
        assert forall|i: int, j: int| 0 <= i < j < rest.len() implies (#[trigger] rest[i]).id != (
        #[trigger] rest[j]).id by {
            let a = if i < index { i } else { i + 1 };
            let b = if j < index { j } else { j + 1 };
            assert(all[a].id != all[b].id);
        }
        assert forall|i: int| 0 <= i < rest.len() implies (#[trigger] rest[i]).id != all[index].id by {
            let a = if i < index { i } else { i + 1 };
            if a < index {
                assert(all[a].id != all[index].id);
            } else {
                assert(all[index].id != all[a].id);
            }
        }
        assert forall|other: u128| listed(rest, other) <==> listed(all, other) && other
            != all[index].id by {
            if listed(rest, other) {
                let i = choose|i: int| 0 <= i < rest.len() && (#[trigger] rest[i]).id == other;
                let a = if i < index { i } else { i + 1 };
                assert(all[a].id == other);
            }
            if listed(all, other) && other != all[index].id {
                let a = choose|a: int| 0 <= a < all.len() && (#[trigger] all[a]).id == other;
                let i = if a < index { a } else { a - 1 };
                assert(rest[i].id == other);
            }
        }
    }
}

} // verus!
