pub mod data_transfer;
pub mod handler;
pub mod payload;
pub mod webrtc;

use vstd::prelude::*;

use crate::websocket::data_transfer::{Candidate, Offer, Room, RoomView};

verus! {

/// Identity of a live connection.
pub type ConnId = u64;

/// The room directory as seen by the specifications: the creator of each room
/// and the room, in the order in which the rooms were created.
pub type DirView = Seq<(ConnId, RoomView)>;

/// No connection has created two rooms of the directory.
pub open spec fn owners_unique(d: DirView) -> bool {
    forall|i: int, j: int|
        0 <= i < d.len() && 0 <= j < d.len() && i != j ==> #[trigger] d[i].0 != #[trigger] d[j].0
}

pub open spec fn owns_at(d: DirView, k: ConnId, i: int) -> bool {
    0 <= i < d.len() && d[i].0 == k
}

pub open spec fn has_owner(d: DirView, k: ConnId) -> bool {
    exists|i: int| owns_at(d, k, i)
}

/// Where the room that `k` created stands in the directory.
pub open spec fn owner_index(d: DirView, k: ConnId) -> int {
    choose|i: int| owns_at(d, k, i)
}

/// The directory once the room that `k` created, if any, is gone.
pub open spec fn without_owner(d: DirView, k: ConnId) -> DirView {
    if has_owner(d, k) {
        d.remove(owner_index(d, k))
    } else {
        d
    }
}

/// With unique owners, the index that owns `k` is the chosen one.
pub proof fn lemma_owner_index_unique(d: DirView, k: ConnId, i: int)
    requires
        owners_unique(d),
        owns_at(d, k, i),
    ensures
        has_owner(d, k),
        owner_index(d, k) == i,
{
    assert(owns_at(d, k, i));
    let j = owner_index(d, k);
    assert(owns_at(d, k, j));
    if i != j {
        assert(d[i].0 != d[j].0);
    }
}

/// After `close(c)` the connection `c` has no room in the directory and is not
/// in the registry, and closing it a second time changes neither.
pub proof fn lemma_close_forgets(d: DirView, p: PeersView, c: ConnId)
    requires
        owners_unique(d),
        p.no_duplicates(),
    ensures
        !has_owner(without_owner(d, c), c),
        !without_peer(p, c).contains(c),
        without_owner(without_owner(d, c), c) == without_owner(d, c),
        without_peer(without_peer(p, c), c) == without_peer(p, c),
{
    if has_owner(d, c) {
        let i = owner_index(d, c);
        let r = d.remove(i);
        assert forall|j: int| 0 <= j < r.len() implies r[j].0 != c by {
            let j2 = if j < i { j } else { j + 1 };
            assert(r[j] == d[j2]);
            assert(d[i].0 != d[j2].0);
        }
        assert(!has_owner(r, c));
    }
    if p.contains(c) {
        let i = p.index_of(c);
        let r = p.remove(i);
        assert forall|j: int| 0 <= j < r.len() implies r[j] != c by {
            let j2 = if j < i { j } else { j + 1 };
            assert(r[j] == p[j2]);
            assert(p[i] != p[j2]);
        }
        assert(!r.contains(c));
    }
}

/// The rooms of the relay, each keyed by the connection that created it.
/// Lookup by room identifier is a scan in creation order.
pub struct ChatRooms {
    owners: Vec<ConnId>,
    rooms: Vec<Room>,
}

impl View for ChatRooms {
    type V = DirView;

    closed spec fn view(&self) -> DirView {
        Seq::new(self.owners@.len(), |i: int| (self.owners@[i], self.rooms@[i]@))
    }
}

impl ChatRooms {
    pub closed spec fn well_sized(&self) -> bool {
        self.owners@.len() == self.rooms@.len()
    }

    pub open spec fn wf(&self) -> bool {
        self.well_sized() && owners_unique(self@)
    }

    /// An empty directory.
    pub fn new() -> (r: ChatRooms)
        ensures
            r.wf(),
            r@ == Seq::<(ConnId, RoomView)>::empty(),
    {
        let r = ChatRooms { owners: Vec::new(), rooms: Vec::new() };
        assert(r@ =~= Seq::<(ConnId, RoomView)>::empty());
        r
    }

    /// How many rooms the directory holds.
    pub fn len(&self) -> (r: usize)
        requires
            self.wf(),
        ensures
            r == self@.len(),
    {
        self.owners.len()
    }

    /// The creator of the room at `i`.
    pub fn owner_at(&self, i: usize) -> (r: ConnId)
        requires
            self.wf(),
            i < self@.len(),
        ensures
            r == self@[i as int].0,
    {
        self.owners[i]
    }

    /// The room at `i`.
    pub fn room_at(&self, i: usize) -> (r: &Room)
        requires
            self.wf(),
            i < self@.len(),
        ensures
            r@ == self@[i as int].1,
    {
        &self.rooms[i]
    }

    /// Where the room that `k` created stands, if it has one.
    pub fn position(&self, k: ConnId) -> (r: Option<usize>)
        requires
            self.wf(),
        ensures
            r matches Some(i) ==> owns_at(self@, k, i as int) && owner_index(self@, k) == i,
            r is Some <==> has_owner(self@, k),
    {
        let mut i: usize = 0;
        while i < self.owners.len()
            invariant
                self.wf(),
                i <= self@.len(),
                forall|j: int| 0 <= j < i ==> !owns_at(self@, k, j),
            decreases self@.len() - i,
        {
            if self.owners[i] == k {
                proof {
                    lemma_owner_index_unique(self@, k, i as int);
                }
                return Some(i);
            }
            i = i + 1;
        }
        None
    }

    /// The room that `k` created, if it has one.
    pub fn get(&self, k: ConnId) -> (r: Option<&Room>)
        requires
            self.wf(),
        ensures
            r is Some <==> has_owner(self@, k),
            r matches Some(room) ==> room@ == self@[owner_index(self@, k)].1,
    {
        match self.position(k) {
            Some(i) => Some(&self.rooms[i]),
            None => None,
        }
    }

    /// Adds `room`, created by `k`, after every room already there.
    pub fn insert_new(&mut self, k: ConnId, room: Room)
        requires
            old(self).wf(),
            !has_owner(old(self)@, k),
        ensures
            final(self).wf(),
            final(self)@ == old(self)@.push((k, room@)),
    {
        let ghost room_view = room@;
        self.owners.push(k);
        self.rooms.push(room);
        assert(self@ =~= old(self)@.push((k, room_view)));
        assert forall|i: int, j: int|
            0 <= i < self@.len() && 0 <= j < self@.len() && i != j implies
            #[trigger] self@[i].0 != #[trigger] self@[j].0 by {
            if i < old(self)@.len() && j < old(self)@.len() {
                assert(old(self)@[i].0 != old(self)@[j].0);
            } else if i < old(self)@.len() {
                assert(!owns_at(old(self)@, k, i));
            } else {
                assert(!owns_at(old(self)@, k, j));
            }
        }
    }

    /// Replaces the offer of the room at `i`.
    pub fn set_offer(&mut self, i: usize, offer: Offer)
        requires
            old(self).wf(),
            i < old(self)@.len(),
        ensures
            final(self).wf(),
            final(self)@ == old(self)@.update(
                i as int,
                (
                    old(self)@[i as int].0,
                    RoomView { offer: offer@, ..old(self)@[i as int].1 },
                ),
            ),
    {
        let ghost offer_view = offer@;
        let mut room = self.rooms.remove(i);
        room.offer = offer;
        self.rooms.insert(i, room);
        assert(self@ =~= old(self)@.update(
            i as int,
            (old(self)@[i as int].0, RoomView { offer: offer_view, ..old(self)@[i as int].1 }),
        ));
    }

    /// Appends `candidate` to the candidates of the room at `i`.
    pub fn push_candidate(&mut self, i: usize, candidate: Candidate)
        requires
            old(self).wf(),
            i < old(self)@.len(),
        ensures
            final(self).wf(),
            final(self)@ == old(self)@.update(
                i as int,
                (
                    old(self)@[i as int].0,
                    RoomView {
                        candidates: old(self)@[i as int].1.candidates.push(candidate@),
                        ..old(self)@[i as int].1
                    },
                ),
            ),
    {
        let ghost cv = candidate@;
        let mut room = self.rooms.remove(i);
        let ghost before = room.candidates@;
        room.candidates.push(candidate);
        assert(room.candidates@.map_values(|c: Candidate| c@) =~= before.map_values(
            |c: Candidate| c@,
        ).push(cv));
        self.rooms.insert(i, room);
        assert(self@ =~= old(self)@.update(
            i as int,
            (
                old(self)@[i as int].0,
                RoomView {
                    candidates: old(self)@[i as int].1.candidates.push(cv),
                    ..old(self)@[i as int].1
                },
            ),
        ));
    }

    /// Drops the room that `k` created; nothing happens if it has none.
    pub fn remove_owner(&mut self, k: ConnId)
        requires
            old(self).wf(),
        ensures
            final(self).wf(),
            final(self)@ == without_owner(old(self)@, k),
    {
        match self.position(k) {
            Some(i) => {
                self.owners.remove(i);
                self.rooms.remove(i);
                assert(self@ =~= old(self)@.remove(i as int));
            },
            None => {},
        }
    }
}

/// The live connections, in the order in which they were registered.
pub type PeersView = Seq<ConnId>;

/// The registry once `k` is gone from it.
pub open spec fn without_peer(p: PeersView, k: ConnId) -> PeersView {
    if p.contains(k) {
        p.remove(p.index_of(k))
    } else {
        p
    }
}

/// The registry once `k` is in it: a connection registered again keeps its place.
pub open spec fn with_peer(p: PeersView, k: ConnId) -> PeersView {
    if p.contains(k) {
        p
    } else {
        p.push(k)
    }
}

/// The connections that receive broadcasts. Each one is listed once; the
/// outbound channel of each stays with whoever drives the connection.
pub struct PeerMap {
    ids: Vec<ConnId>,
}

impl View for PeerMap {
    type V = PeersView;

    closed spec fn view(&self) -> PeersView {
        self.ids@
    }
}

impl PeerMap {
    pub open spec fn wf(&self) -> bool {
        self@.no_duplicates()
    }

    /// An empty registry.
    pub fn new() -> (r: PeerMap)
        ensures
            r.wf(),
            r@ == Seq::<ConnId>::empty(),
    {
        PeerMap { ids: Vec::new() }
    }

    /// How many connections are registered.
    pub fn len(&self) -> (r: usize)
        ensures
            r == self@.len(),
    {
        self.ids.len()
    }

    /// The connection registered at `i`.
    pub fn id_at(&self, i: usize) -> (r: ConnId)
        requires
            i < self@.len(),
        ensures
            r == self@[i as int],
    {
        self.ids[i]
    }

    /// Where `k` stands in the registry, if it is registered.
    pub fn position(&self, k: ConnId) -> (r: Option<usize>)
        requires
            self.wf(),
        ensures
            r matches Some(i) ==> i < self@.len() && self@[i as int] == k && self@.index_of(k) == i,
            r is Some <==> self@.contains(k),
    {
        let mut i: usize = 0;
        while i < self.ids.len()
            invariant
                self.wf(),
                i <= self@.len(),
                forall|j: int| 0 <= j < i ==> self@[j] != k,
            decreases self@.len() - i,
        {
            if self.ids[i] == k {
                proof {
                    assert(self@[i as int] == k);
                    assert(self@.contains(k));
                    let j = self@.index_of(k);
                    if j != i {
                        assert(self@[i as int] != self@[j]);
                    }
                }
                return Some(i);
            }
            i = i + 1;
        }
        None
    }

    /// Whether `k` is registered.
    pub fn contains(&self, k: ConnId) -> (r: bool)
        requires
            self.wf(),
        ensures
            r == self@.contains(k),
    {
        self.position(k).is_some()
    }

    /// Registers `k`; one already registered keeps its place.
    pub fn register(&mut self, k: ConnId)
        requires
            old(self).wf(),
        ensures
            final(self).wf(),
            final(self)@ == with_peer(old(self)@, k),
    {
        if !self.contains(k) {
            self.ids.push(k);
            proof {
                assert forall|i: int, j: int|
                    0 <= i < self@.len() && 0 <= j < self@.len() && i != j implies
                    self@[i] != self@[j] by {
                    if i == old(self)@.len() as int {
                        assert(old(self)@[j] != k);
                    } else if j == old(self)@.len() as int {
                        assert(old(self)@[i] != k);
                    }
                }
            }
        }
    }

    /// Removes `k`; nothing happens if it is not registered.
    pub fn unregister(&mut self, k: ConnId)
        requires
            old(self).wf(),
        ensures
            final(self).wf(),
            final(self)@ == without_peer(old(self)@, k),
    {
        match self.position(k) {
            Some(i) => {
                self.ids.remove(i);
                proof {
                    assert forall|a: int, b: int|
                        0 <= a < self@.len() && 0 <= b < self@.len() && a != b implies
                        self@[a] != self@[b] by {
                        let a2 = if a < i { a } else { a + 1 };
                        let b2 = if b < i { b } else { b + 1 };
                        assert(old(self)@[a2] != old(self)@[b2]);
                    }
                }
            },
            None => {},
        }
    }
}

} // verus!
