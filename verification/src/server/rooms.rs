//! Per-room broadcast registry.
//!
//! Each room keeps the connections currently joined to it, in join
//! order, each with the outbound channel of type `T` that reaches that
//! peer. Inbound frames on one connection are fanned out to every other
//! connection of the same room. Rooms are never pruned : an empty room
//! keeps its counter so connection ids are never reused.

use vstd::prelude::*;

verus! {

/// Identifier for a single WebSocket connection inside a room.
#[derive(Clone, Copy, Debug, PartialEq, Eq, Hash, Structural)]
pub struct ConnectionId(pub u64);

/// The state of one room : the next id to hand out and the joined
/// connections with their outbound channels, in join order.
pub struct RoomModel<T> {
    pub next_id: u64,
    pub peers: Seq<(ConnectionId, T)>,
}

/// The state of a room that was never joined.
pub open spec fn empty_room<T>() -> RoomModel<T> {
    RoomModel { next_id: 0, peers: Seq::empty() }
}

/// `c` is one of the connections of `peers`.
pub open spec fn has_conn<T>(peers: Seq<(ConnectionId, T)>, c: ConnectionId) -> bool {
    exists|j: int| 0 <= j < peers.len() && peers[j].0 == c
}

/// The position of connection `c` in `peers`.
pub open spec fn conn_index<T>(peers: Seq<(ConnectionId, T)>, c: ConnectionId) -> int {
    choose|j: int| 0 <= j < peers.len() && peers[j].0 == c
}

/// `peers` once connection `c` has left.
pub open spec fn without_conn<T>(peers: Seq<(ConnectionId, T)>, c: ConnectionId) -> Seq<
    (ConnectionId, T),
> {
    if has_conn(peers, c) {
        peers.remove(conn_index(peers, c))
    } else {
        peers
    }
}

/// The channels of every connection of `peers` except `sender`, in join order.
pub open spec fn others<T>(peers: Seq<(ConnectionId, T)>, sender: ConnectionId) -> Seq<T>
    decreases peers.len(),
{
    if peers.len() == 0 {
        Seq::empty()
    } else {
        let rest = others(peers.drop_last(), sender);
        if peers.last().0 == sender {
            rest
        } else {
            rest.push(peers.last().1)
        }
    }
}

/// Connection ids of `peers` are pairwise distinct and all below `next_id`.
pub open spec fn peers_wf<T>(next_id: u64, peers: Seq<(ConnectionId, T)>) -> bool {
    &&& forall|j: int| 0 <= j < peers.len() ==> (#[trigger] peers[j]).0.0 < next_id
    &&& forall|j: int, k: int|
        0 <= j < k < peers.len() ==> (#[trigger] peers[j]).0 != (#[trigger] peers[k]).0
}

/// The state of room `key` in `m`, or the empty room when it was never joined.
pub open spec fn room_in<T>(m: Map<Seq<char>, RoomModel<T>>, key: Seq<char>) -> RoomModel<T> {
    if m.contains_key(key) {
        m[key]
    } else {
        empty_room()
    }
}

struct RoomEntry<T> {
    id: String,
    next_id: u64,
    connections: Vec<(ConnectionId, T)>,
}

/// Process-global room registry.
pub struct RoomRegistry<T> {
    rooms: Vec<RoomEntry<T>>,
}

impl<T> RoomRegistry<T> {
    spec fn entry_model(e: RoomEntry<T>) -> RoomModel<T> {
        RoomModel { next_id: e.next_id, peers: e.connections@ }
    }

    spec fn has_key(self, key: Seq<char>) -> bool {
        exists|i: int| 0 <= i < self.rooms@.len() && self.rooms@[i].id@ == key
    }

    spec fn key_index(self, key: Seq<char>) -> int {
        choose|i: int| 0 <= i < self.rooms@.len() && self.rooms@[i].id@ == key
    }

    /// The rooms, keyed by room id.
    pub closed spec fn view(self) -> Map<Seq<char>, RoomModel<T>> {
        Map::new(
            |key: Seq<char>| self.has_key(key),
            |key: Seq<char>| Self::entry_model(self.rooms@[self.key_index(key)]),
        )
    }

    /// Room ids are distinct and every room's connections are well formed.
    pub closed spec fn wf(self) -> bool {
        &&& forall|i: int, j: int|
            0 <= i < j < self.rooms@.len() ==> (#[trigger] self.rooms@[i]).id@
                != (#[trigger] self.rooms@[j]).id@
        &&& forall|i: int|
            0 <= i < self.rooms@.len() ==> peers_wf(
                (#[trigger] self.rooms@[i]).next_id,
                self.rooms@[i].connections@,
            )
    }

    proof fn lemma_view_at(self, i: int)
        requires
            self.wf(),
            0 <= i < self.rooms@.len(),
        ensures
            self.view().contains_key(self.rooms@[i].id@),
            self.view()[self.rooms@[i].id@] == Self::entry_model(self.rooms@[i]),
    {
        let key = self.rooms@[i].id@;
        assert(self.has_key(key));
        let k = self.key_index(key);
        if k != i {
            if k < i {
                assert(self.rooms@[k].id@ != self.rooms@[i].id@);
            } else {
                assert(self.rooms@[i].id@ != self.rooms@[k].id@);
            }
        }
    }

    /// Every room of a well-formed registry has well-formed connections.
    pub proof fn lemma_rooms_wf(self, key: Seq<char>)
        requires
            self.wf(),
        ensures
            peers_wf(room_in(self.view(), key).next_id, room_in(self.view(), key).peers),
    {
        if self.has_key(key) {
            let i = self.key_index(key);
            self.lemma_view_at(i);
        }
    }

    proof fn lemma_update_entry(old_self: Self, new_self: Self, i: int)
        requires
            old_self.wf(),
            0 <= i < old_self.rooms@.len(),
            new_self.rooms@.len() == old_self.rooms@.len(),
            forall|a: int| 0 <= a < new_self.rooms@.len() && a != i ==> new_self.rooms@[a] == old_self.rooms@[a],
            new_self.rooms@[i].id@ == old_self.rooms@[i].id@,
            peers_wf(new_self.rooms@[i].next_id, new_self.rooms@[i].connections@),
        ensures
            new_self.wf(),
            new_self.view() == old_self.view().insert(
                old_self.rooms@[i].id@,
                Self::entry_model(new_self.rooms@[i]),
            ),
    {
        let key = old_self.rooms@[i].id@;
        assert forall|a: int, b: int|
            0 <= a < b < new_self.rooms@.len() implies (#[trigger] new_self.rooms@[a]).id@
            != (#[trigger] new_self.rooms@[b]).id@ by {
            assert(new_self.rooms@[a].id@ == old_self.rooms@[a].id@);
            assert(new_self.rooms@[b].id@ == old_self.rooms@[b].id@);
        }
        assert forall|a: int| 0 <= a < new_self.rooms@.len() implies peers_wf(
            (#[trigger] new_self.rooms@[a]).next_id,
            new_self.rooms@[a].connections@,
        ) by {}
        let want = old_self.view().insert(key, Self::entry_model(new_self.rooms@[i]));
        assert forall|k: Seq<char>| #[trigger] new_self.view().contains_key(k)
            == want.contains_key(k) by {
            if new_self.has_key(k) {
                let w = new_self.key_index(k);
                assert(old_self.rooms@[w].id@ == k);
            }
            if old_self.has_key(k) {
                let w = old_self.key_index(k);
                assert(new_self.rooms@[w].id@ == k);
            }
        }
        assert forall|k: Seq<char>| #[trigger] new_self.view().contains_key(k) implies new_self.view()[k]
            == want[k] by {
            let w = new_self.key_index(k);
            new_self.lemma_view_at(w);
            if w != i {
                old_self.lemma_view_at(w);
            }
        }
        assert(new_self.view() =~= want);
    }

    /// An empty registry.
    pub fn new() -> (r: Self)
        ensures
            r.wf(),
            r.view() == Map::<Seq<char>, RoomModel<T>>::empty(),
    {
        let r = RoomRegistry { rooms: Vec::new() };
        assert(r.view() =~= Map::<Seq<char>, RoomModel<T>>::empty());
        r
    }

    fn find(&self, key: &String) -> (r: Option<usize>)
        requires
            self.wf(),
        ensures
            match r {
                Some(i) => i < self.rooms@.len() && self.rooms@[i as int].id@ == key@,
                None => !self.has_key(key@),
            },
    {
        let mut i: usize = 0;
        while i < self.rooms.len()
            invariant
                i <= self.rooms@.len(),
                forall|j: int| 0 <= j < i ==> self.rooms@[j].id@ != key@,
            decreases self.rooms@.len() - i,
        {
            if self.rooms[i].id == *key {
                return Some(i);
            }
            i = i + 1;
        }
        None
    }

    /// Whether a new connection can still be allocated in `room_id`
    /// (its counter has not reached `u64::MAX`).
    pub fn can_join(&self, room_id: &str) -> (r: bool)
        requires
            self.wf(),
        ensures
            r == (room_in(self.view(), room_id@).next_id < u64::MAX),
    {
        let key = room_id.to_owned();
        match self.find(&key) {
            Some(i) => {
                proof {
                    self.lemma_view_at(i as int);
                }
                self.rooms[i].next_id < u64::MAX
            },
            None => true,
        }
    }

    /// Register a new connection in `room_id`, reached through `sender`.
    /// Returns the freshly allocated id : the room's counter, which then
    /// moves on by one.
    pub fn join(&mut self, room_id: &str, sender: T) -> (id: ConnectionId)
        requires
            old(self).wf(),
            room_in(old(self).view(), room_id@).next_id < u64::MAX,
        ensures
            final(self).wf(),
            id == ConnectionId(room_in(old(self).view(), room_id@).next_id),
            !has_conn(room_in(old(self).view(), room_id@).peers, id),
            final(self).view() == old(self).view().insert(
                room_id@,
                RoomModel {
                    next_id: (id.0 + 1) as u64,
                    peers: room_in(old(self).view(), room_id@).peers.push((id, sender)),
                },
            ),
    {
        let key = room_id.to_owned();
        let ghost old_self = *self;
        proof {
            old_self.lemma_rooms_wf(room_id@);
        }
        match self.find(&key) {
            Some(i) => {
                proof {
                    old_self.lemma_view_at(i as int);
                }
                let mut entry = self.rooms.remove(i);
                let id = ConnectionId(entry.next_id);
                entry.next_id = entry.next_id + 1;
                entry.connections.push((id, sender));
                self.rooms.insert(i, entry);
                proof {
                    Self::lemma_update_entry(old_self, *self, i as int);
                    assert(self.rooms@[i as int].connections@ =~= room_in(old_self.view(), room_id@).peers.push((id, sender)));
                }
                id
            },
            None => {
                let mut connections: Vec<(ConnectionId, T)> = Vec::new();
                connections.push((ConnectionId(0), sender));
                self.rooms.push(RoomEntry { id: key, next_id: 1, connections });
                let id = ConnectionId(0);
                proof {
                    let n = old_self.rooms@.len() as int;
                    assert forall|a: int, b: int|
                        0 <= a < b < self.rooms@.len() implies (#[trigger] self.rooms@[a]).id@
                        != (#[trigger] self.rooms@[b]).id@ by {
                        if b == n {
                            assert(old_self.rooms@[a].id@ != room_id@);
                        } else {
                            assert(self.rooms@[a] == old_self.rooms@[a]);
                            assert(self.rooms@[b] == old_self.rooms@[b]);
                        }
                    }
                    assert forall|a: int| 0 <= a < self.rooms@.len() implies peers_wf(
                        (#[trigger] self.rooms@[a]).next_id,
                        self.rooms@[a].connections@,
                    ) by {
                        if a < n {
                            assert(self.rooms@[a] == old_self.rooms@[a]);
                        }
                    }
                    let want = old_self.view().insert(
                        room_id@,
                        RoomModel {
                            next_id: (id.0 + 1) as u64,
                            peers: room_in(old_self.view(), room_id@).peers.push((id, sender)),
                        },
                    );
                    assert forall|k: Seq<char>| #[trigger] self.view().contains_key(k)
                        == want.contains_key(k) by {
                        if self.has_key(k) {
                            let w = self.key_index(k);
                            if w < n {
                                assert(old_self.rooms@[w].id@ == k);
                            }
                        }
                        if old_self.has_key(k) {
                            let w = old_self.key_index(k);
                            assert(self.rooms@[w].id@ == k);
                        }
                        if k == room_id@ {
                            assert(self.rooms@[n].id@ == k);
                        }
                    }
                    assert forall|k: Seq<char>| #[trigger] self.view().contains_key(k) implies self.view()[k]
                        == want[k] by {
                        let w = self.key_index(k);
                        self.lemma_view_at(w);
                        if w == n {
                            assert(k == room_id@);
                            assert(self.rooms@[n].connections@ =~= seq![(id, sender)]);
                        } else {
                            old_self.lemma_view_at(w);
                            assert(self.rooms@[w] == old_self.rooms@[w]);
                        }
                    }
                    assert(self.view() =~= want);
                }
                id
            },
        }
    }
    /// Remove connection `conn` from `room_id`. The room itself and its
    /// counter are kept, even when it becomes empty.
    pub fn leave(&mut self, room_id: &str, conn: ConnectionId)
        requires
            old(self).wf(),
        ensures
            final(self).wf(),
            final(self).view() == (if old(self).view().contains_key(room_id@) {
                old(self).view().insert(
                    room_id@,
                    RoomModel {
                        next_id: old(self).view()[room_id@].next_id,
                        peers: without_conn(old(self).view()[room_id@].peers, conn),
                    },
                )
            } else {
                old(self).view()
            }),
    {
        let key = room_id.to_owned();
        let ghost old_self = *self;
        match self.find(&key) {
            Some(i) => {
                proof {
                    old_self.lemma_view_at(i as int);
                }
                let mut entry = self.rooms.remove(i);
                let ghost old_peers = entry.connections@;
                let mut j: usize = 0;
                let mut found = false;
                while j < entry.connections.len()
                    invariant_except_break
                        !found,
                    invariant
                        j <= entry.connections@.len(),
                        entry.connections@ == old_peers,
                        forall|a: int| 0 <= a < j ==> old_peers[a].0 != conn,
                    ensures
                        entry.connections@ == old_peers,
                        found ==> j < old_peers.len() && old_peers[j as int].0 == conn,
                        !found ==> forall|a: int| 0 <= a < old_peers.len() ==> old_peers[a].0 != conn,
                    decreases entry.connections@.len() - j,
                {
                    if entry.connections[j].0 == conn {
                        found = true;
                        break;
                    }
                    j = j + 1;
                }
                if found {
                    assert(old_peers[j as int].0 == conn);
                    let _gone = entry.connections.remove(j);
                    proof {
                        assert(has_conn(old_peers, conn));
                        let w = conn_index(old_peers, conn);
                        if w != j {
                            if w < j {
                                assert(old_peers[w].0 != old_peers[j as int].0);
                            } else {
                                assert(old_peers[j as int].0 != old_peers[w].0);
                            }
                        }
                        assert(entry.connections@ == without_conn(old_peers, conn));
                        assert forall|a: int, b: int|
                            0 <= a < b < entry.connections@.len() implies (#[trigger] entry.connections@[a]).0
                            != (#[trigger] entry.connections@[b]).0 by {
                            if a < j {
                                if b < j {
                                } else {
                                    assert(entry.connections@[b] == old_peers[b + 1]);
                                }
                            } else {
                                assert(entry.connections@[a] == old_peers[a + 1]);
                                assert(entry.connections@[b] == old_peers[b + 1]);
                            }
                        }
                        assert forall|a: int| 0 <= a < entry.connections@.len() implies (
                        #[trigger] entry.connections@[a]).0.0 < entry.next_id by {
                            if a >= j {
                                assert(entry.connections@[a] == old_peers[a + 1]);
                            }
                        }
                    }
                } else {
                    proof {
                        assert(!has_conn(old_peers, conn));
                    }
                }
                self.rooms.insert(i, entry);
                proof {
                    Self::lemma_update_entry(old_self, *self, i as int);
                }
            },
            None => {
                proof {
                    assert(!old_self.view().contains_key(room_id@));
                }
            },
        }
    }

    /// The outbound channels of every connection of `room_id` except
    /// `sender`, in join order : the peers a frame from `sender` is
    /// fanned out to. Empty when the room was never joined.
    pub fn recipients(&self, room_id: &str, sender: ConnectionId) -> (out: Vec<&T>)
        requires
            self.wf(),
        ensures
            out@.len() == others(room_in(self.view(), room_id@).peers, sender).len(),
            forall|j: int|
                0 <= j < out@.len() ==> *out@[j] == others(room_in(self.view(), room_id@).peers, sender)[j],
    {
        let key = room_id.to_owned();
        let mut out: Vec<&T> = Vec::new();
        match self.find(&key) {
            Some(i) => {
                proof {
                    self.lemma_view_at(i as int);
                }
                let peers = &self.rooms[i].connections;
                let mut j: usize = 0;
                while j < peers.len()
                    invariant
                        j <= peers@.len(),
                        out@.len() == others(peers@.take(j as int), sender).len(),
                        forall|a: int|
                            0 <= a < out@.len() ==> *out@[a] == others(peers@.take(j as int), sender)[a],
                    decreases peers@.len() - j,
                {
                    assert(peers@.take(j + 1).drop_last() =~= peers@.take(j as int));
                    if peers[j].0 != sender {
                        out.push(&peers[j].1);
                    }
                    j = j + 1;
                }
                assert(peers@.take(peers@.len() as int) =~= peers@);
            },
            None => {},
        }
        out
    }

    /// Number of connections currently joined to `room_id` (0 if the
    /// room was never joined).
    pub fn peer_count(&self, room_id: &str) -> (n: usize)
        requires
            self.wf(),
        ensures
            n == room_in(self.view(), room_id@).peers.len(),
    {
        let key = room_id.to_owned();
        match self.find(&key) {
            Some(i) => {
                proof {
                    self.lemma_view_at(i as int);
                }
                self.rooms[i].connections.len()
            },
            None => 0,
        }
    }
}

/// Leaving removes exactly the leaving connection : when `c` is joined,
/// one entry fewer remains, `c` is no longer joined, every other entry
/// stays, and their join order is kept ; when `c` is not joined nothing
/// changes.
pub proof fn lemma_leave_removes_only<T>(next_id: u64, peers: Seq<(ConnectionId, T)>, c: ConnectionId)
    requires
        peers_wf(next_id, peers),
    ensures
        has_conn(peers, c) ==> {
            &&& without_conn(peers, c).len() == peers.len() - 1
            &&& !has_conn(without_conn(peers, c), c)
            &&& forall|j: int|
                0 <= j < peers.len() && peers[j].0 != c ==> without_conn(peers, c).contains(
                    #[trigger] peers[j],
                )
            &&& exists|w: int|
                0 <= w < peers.len() && (#[trigger] peers[w]).0 == c && without_conn(peers, c)
                    == peers.take(w) + peers.skip(w + 1)
        },
        !has_conn(peers, c) ==> without_conn(peers, c) == peers,
{
    if has_conn(peers, c) {
        let w = conn_index(peers, c);
        let rest = without_conn(peers, c);
        assert(rest == peers.remove(w));
        assert(rest.len() == peers.len() - 1);
        assert forall|j: int| 0 <= j < peers.len() && peers[j].0 != c implies rest.contains(
            #[trigger] peers[j],
        ) by {
            if j < w {
                assert(rest[j] == peers[j]);
            } else {
                assert(j != w);
                assert(rest[j - 1] == peers[j]);
            }
        }
        if has_conn(rest, c) {
            let v = choose|v: int| 0 <= v < rest.len() && rest[v].0 == c;
            if v < w {
                assert(rest[v] == peers[v]);
                assert(peers[v].0 != peers[w].0);
            } else {
                assert(rest[v] == peers[v + 1]);
                assert(peers[w].0 != peers[v + 1].0);
            }
        }
        assert(rest =~= peers.take(w) + peers.skip(w + 1));
        assert(peers[w].0 == c);
    }
}

/// A connection that joins a room and then leaves it leaves the room's
/// connection list exactly as it was before the join.
pub proof fn lemma_join_then_leave<T>(next_id: u64, peers: Seq<(ConnectionId, T)>, sender: T)
    requires
        peers_wf(next_id, peers),
    ensures
        without_conn(peers.push((ConnectionId(next_id), sender)), ConnectionId(next_id)) == peers,
{
    let joined = peers.push((ConnectionId(next_id), sender));
    let c = ConnectionId(next_id);
    assert(joined[peers.len() as int].0 == c);
    assert(has_conn(joined, c));
    let w = conn_index(joined, c);
    if w < peers.len() {
        assert(joined[w] == peers[w]);
    }
    assert(joined.remove(peers.len() as int) =~= peers);
}

/// A frame sent on one connection reaches every other connection of
/// the room, and only those : one channel fewer than the room's
/// connections when the sender is joined, all of them otherwise.
pub proof fn lemma_broadcast_reaches_others<T>(
    next_id: u64,
    peers: Seq<(ConnectionId, T)>,
    sender: ConnectionId,
)
    requires
        peers_wf(next_id, peers),
    ensures
        others(peers, sender).len() == peers.len() - (if has_conn(peers, sender) {
            1int
        } else {
            0int
        }),
        forall|j: int|
            0 <= j < peers.len() && peers[j].0 != sender ==> others(peers, sender).contains(
                #[trigger] peers[j].1,
            ),
    decreases peers.len(),
{
    if peers.len() > 0 {
        let init = peers.drop_last();
        assert(peers_wf(next_id, init)) by {
            assert forall|j: int| 0 <= j < init.len() implies (#[trigger] init[j]).0.0 < next_id by {
                assert(init[j] == peers[j]);
            }
            assert forall|j: int, k: int| 0 <= j < k < init.len() implies (#[trigger] init[j]).0
                != (#[trigger] init[k]).0 by {
                assert(init[j] == peers[j] && init[k] == peers[k]);
            }
        }
        lemma_broadcast_reaches_others(next_id, init, sender);
        let last = peers.len() - 1;
        assert forall|j: int|
            0 <= j < peers.len() && peers[j].0 != sender implies others(peers, sender).contains(
            #[trigger] peers[j].1,
        ) by {
            let rest = others(init, sender);
            if j < last {
                assert(init[j] == peers[j]);
                assert(rest.contains(init[j].1));
                let w = choose|w: int| 0 <= w < rest.len() && rest[w] == init[j].1;
                if peers.last().0 != sender {
                    assert(rest.push(peers.last().1)[w] == peers[j].1);
                }
            } else {
                assert(others(peers, sender) == rest.push(peers.last().1));
                assert(others(peers, sender)[rest.len() as int] == peers[j].1);
            }
        }
        if has_conn(peers, sender) {
            let w = choose|j: int| 0 <= j < peers.len() && peers[j].0 == sender;
            if peers.last().0 == sender {
                if has_conn(init, sender) {
                    let v = choose|j: int| 0 <= j < init.len() && init[j].0 == sender;
                    assert(peers[v].0 != peers[last].0);
                }
            } else {
                assert(w < last);
                assert(init[w].0 == sender);
            }
        } else {
            if has_conn(init, sender) {
                let v = choose|j: int| 0 <= j < init.len() && init[j].0 == sender;
                assert(peers[v].0 == sender);
            }
        }
    }
}

} // verus!
