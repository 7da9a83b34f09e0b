use vstd::prelude::*;

use crate::websocket::payload::outbound_json;
use crate::websocket::{
    has_owner, lemma_owner_index_unique, owner_index, owners_unique, owns_at, without_owner,
    without_peer, ChatRooms, ConnId, DirView, PeerMap, PeersView,
};

verus! {

/// A session description as seen by the specifications.
pub struct SessionView {
    pub kind: Seq<char>,
    pub sdp: Seq<char>,
}

/// An ICE candidate as seen by the specifications.
pub struct CandidateView {
    pub candidate: Seq<char>,
    pub sdp_mid: Seq<char>,
    pub sdp_m_line_index: u8,
    pub username_fragment: Seq<char>,
}

/// A room as seen by the specifications.
pub struct RoomView {
    pub room_id: Seq<char>,
    pub offer: SessionView,
    pub candidates: Seq<CandidateView>,
}

/// The session description proposed by the peer that starts a call.
#[derive(Debug, PartialEq, Eq)]
pub struct Offer {
    pub kind: String,
    pub sdp: String,
}

/// The session description returned by the peer that accepts a call.
#[derive(Debug, PartialEq, Eq)]
pub struct Answer {
    pub kind: String,
    pub sdp: String,
}

/// One ICE candidate, kept with the field names of the browser API.
#[allow(non_snake_case)]
#[derive(Debug, PartialEq, Eq)]
pub struct Candidate {
    pub candidate: String,
    pub sdpMid: String,
    pub sdpMLineIndex: u8,
    pub usernameFragment: String,
}

/// A rendezvous record: the stored offer and the candidates in arrival order.
#[derive(Debug)]
pub struct Room {
    pub room_id: String,
    pub offer: Offer,
    pub candidates: Vec<Candidate>,
}

/// One inbound envelope: the union of every payload a message may carry.
#[derive(Debug)]
pub struct StoreRoom {
    pub data_type: String,
    pub room_id: String,
    pub offer: Offer,
    pub answer: Answer,
    pub candidate: Candidate,
}

/// An inbound envelope as seen by the specifications.
pub struct EnvelopeView {
    pub data_type: Seq<char>,
    pub room_id: Seq<char>,
    pub offer: SessionView,
    pub answer: SessionView,
    pub candidate: CandidateView,
}

impl View for StoreRoom {
    type V = EnvelopeView;

    open spec fn view(&self) -> EnvelopeView {
        EnvelopeView {
            data_type: self.data_type@,
            room_id: self.room_id@,
            offer: self.offer@,
            answer: self.answer@,
            candidate: self.candidate@,
        }
    }
}

impl View for Offer {
    type V = SessionView;

    open spec fn view(&self) -> SessionView {
        SessionView { kind: self.kind@, sdp: self.sdp@ }
    }
}

impl View for Answer {
    type V = SessionView;

    open spec fn view(&self) -> SessionView {
        SessionView { kind: self.kind@, sdp: self.sdp@ }
    }
}

impl View for Candidate {
    type V = CandidateView;

    open spec fn view(&self) -> CandidateView {
        CandidateView {
            candidate: self.candidate@,
            sdp_mid: self.sdpMid@,
            sdp_m_line_index: self.sdpMLineIndex,
            username_fragment: self.usernameFragment@,
        }
    }
}

impl View for Room {
    type V = RoomView;

    open spec fn view(&self) -> RoomView {
        RoomView {
            room_id: self.room_id@,
            offer: self.offer@,
            candidates: self.candidates@.map_values(|c: Candidate| c@),
        }
    }
}

pub open spec fn empty_session() -> SessionView {
    SessionView { kind: Seq::empty(), sdp: Seq::empty() }
}

impl Offer {
    /// An offer with both fields empty, as a new room holds it.
    pub fn empty() -> (r: Offer)
        ensures
            r@ == empty_session(),
    {
        Offer { kind: String::new(), sdp: String::new() }
    }
}

impl Clone for Offer {
    fn clone(&self) -> (r: Self)
        ensures
            r@ == self@,
    {
        Offer { kind: self.kind.clone(), sdp: self.sdp.clone() }
    }
}

impl Clone for Answer {
    fn clone(&self) -> (r: Self)
        ensures
            r@ == self@,
    {
        Answer { kind: self.kind.clone(), sdp: self.sdp.clone() }
    }
}

impl Clone for Candidate {
    fn clone(&self) -> (r: Self)
        ensures
            r@ == self@,
    {
        Candidate {
            candidate: self.candidate.clone(),
            sdpMid: self.sdpMid.clone(),
            sdpMLineIndex: self.sdpMLineIndex,
            usernameFragment: self.usernameFragment.clone(),
        }
    }
}

/// Why a signaling operation left the directory as it was.
#[derive(Clone, Copy, Debug, PartialEq, Eq, Structural)]
pub enum SignalError {
    /// A room with that identifier, or a room of that creator, already exists.
    RoomExists,
    /// No room with that identifier exists.
    RoomNotFound,
}

/// A message broadcast to every live connection.
#[derive(Debug)]
pub enum Outbound {
    Offer(Offer),
    Answer(Answer),
    Candidate(Candidate),
}

pub enum OutboundView {
    Offer(SessionView),
    Answer(SessionView),
    Candidate(CandidateView),
}

impl View for Outbound {
    type V = OutboundView;

    open spec fn view(&self) -> OutboundView {
        match self {
            Outbound::Offer(o) => OutboundView::Offer(o@),
            Outbound::Answer(a) => OutboundView::Answer(a@),
            Outbound::Candidate(c) => OutboundView::Candidate(c@),
        }
    }
}

/// The signaling operations. Each takes the result of one lookup by room
/// identifier (the creator of the room found, if any) made for the envelope.
pub struct DataType;

/// A new room: the given identifier, an empty offer and no candidates.
pub open spec fn fresh_room(room_id: Seq<char>) -> RoomView {
    RoomView { room_id, offer: empty_session(), candidates: Seq::empty() }
}

/// `i` is the first room of `d` whose identifier is `room_id`.
pub open spec fn first_with_id(d: DirView, room_id: Seq<char>, i: int) -> bool {
    &&& 0 <= i < d.len()
    &&& d[i].1.room_id == room_id
    &&& forall|j: int| 0 <= j < i ==> d[j].1.room_id != room_id
}

/// Only one index is the first with a given identifier.
pub proof fn lemma_first_with_id_unique(d: DirView, room_id: Seq<char>, i: int)
    requires
        first_with_id(d, room_id, i),
    ensures
        exists|j: int| first_with_id(d, room_id, j),
        (choose|j: int| first_with_id(d, room_id, j)) == i,
{
    let j = choose|j: int| first_with_id(d, room_id, j);
    if j < i {
        assert(d[j].1.room_id != room_id);
    } else if j > i {
        assert(d[i].1.room_id != room_id);
    }
}

/// What a lookup by identifier finds: the creator of the first room, in
/// creation order, whose identifier is `room_id`.
pub open spec fn found_room(d: DirView, room_id: Seq<char>) -> Option<ConnId> {
    if exists|i: int| first_with_id(d, room_id, i) {
        Some(d[choose|i: int| first_with_id(d, room_id, i)].0)
    } else {
        None
    }
}

/// The lookup names a room that is in the directory.
pub open spec fn room_present(d: DirView, room: Option<ConnId>) -> bool {
    room matches Some(k) && has_owner(d, k)
}

pub open spec fn store_room_result(d: DirView, room: Option<ConnId>, addr: ConnId) -> Result<
    (),
    SignalError,
> {
    if room is None && !has_owner(d, addr) {
        Ok(())
    } else {
        Err(SignalError::RoomExists)
    }
}

/// The directory after `store_room`: a fresh room for `addr` only where no room
/// was found and `addr` has none yet.
pub open spec fn stored_room(d: DirView, room: Option<ConnId>, room_id: Seq<char>, addr: ConnId) -> DirView {
    if store_room_result(d, room, addr) is Ok {
        d.push((addr, fresh_room(room_id)))
    } else {
        d
    }
}

/// `Ok` where the room is present, `RoomNotFound` otherwise.
pub open spec fn lookup_result(d: DirView, room: Option<ConnId>) -> Result<(), SignalError> {
    if room_present(d, room) {
        Ok(())
    } else {
        Err(SignalError::RoomNotFound)
    }
}

/// The directory after `store_offer`: the found room holds `offer`.
pub open spec fn stored_offer(d: DirView, room: Option<ConnId>, offer: SessionView) -> DirView {
    if room_present(d, room) {
        let i = owner_index(d, room->0);
        d.update(i, (d[i].0, RoomView { offer, ..d[i].1 }))
    } else {
        d
    }
}

/// The directory after `store_candidate`: `c` follows the found room's candidates.
pub open spec fn stored_candidate(d: DirView, room: Option<ConnId>, c: CandidateView) -> DirView {
    if room_present(d, room) {
        let i = owner_index(d, room->0);
        d.update(i, (d[i].0, RoomView { candidates: d[i].1.candidates.push(c), ..d[i].1 }))
    } else {
        d
    }
}

/// What `join_call` broadcasts for a room: its offer, then each candidate in order.
pub open spec fn replay(r: RoomView) -> Seq<OutboundView> {
    seq![OutboundView::Offer(r.offer)] + r.candidates.map_values(
        |c: CandidateView| OutboundView::Candidate(c),
    )
}

/// The first room of the directory whose identifier is `room_id`, found by a
/// scan in creation order; the result is the creator of that room.
pub fn find_room(rooms: &ChatRooms, room_id: &String) -> (r: Option<ConnId>)
    requires
        rooms.wf(),
    ensures
        r == found_room(rooms@, room_id@),
        r matches Some(k) ==> has_owner(rooms@, k) && first_with_id(rooms@, room_id@, owner_index(rooms@, k)),
        r is None <==> forall|i: int| 0 <= i < rooms@.len() ==> rooms@[i].1.room_id != room_id@,
{
    let mut i: usize = 0;
    while i < rooms.len()
        invariant
            rooms.wf(),
            i <= rooms@.len(),
            forall|j: int| 0 <= j < i ==> rooms@[j].1.room_id != room_id@,
        decreases rooms@.len() - i,
    {
        if rooms.room_at(i).room_id == *room_id {
            let k = rooms.owner_at(i);
            proof {
                lemma_owner_index_unique(rooms@, k, i as int);
                lemma_first_with_id_unique(rooms@, room_id@, i as int);
            }
            return Some(k);
        }
        i = i + 1;
    }
    None
}

impl DataType {
    /// Creates a room for `addr` named by the envelope, unless the lookup found
    /// a room or `addr` has created one already; a room is never overwritten.
    pub fn store_room(rooms: &mut ChatRooms, room: Option<ConnId>, data: &StoreRoom, addr: ConnId) -> (r: Result<(), SignalError>)
        requires
            old(rooms).wf(),
        ensures
            final(rooms).wf(),
            r == store_room_result(old(rooms)@, room, addr),
            final(rooms)@ == stored_room(old(rooms)@, room, data.room_id@, addr),
    {
        match room {
            Some(_) => Err(SignalError::RoomExists),
            None => {
                if rooms.position(addr).is_some() {
                    Err(SignalError::RoomExists)
                } else {
                    let new_room = Room {
                        room_id: data.room_id.clone(),
                        offer: Offer::empty(),
                        candidates: Vec::new(),
                    };
                    assert(new_room@.candidates =~= Seq::<CandidateView>::empty());
                    rooms.insert_new(addr, new_room);
                    Ok(())
                }
            },
        }
    }

    /// Replaces the offer of the room found with the envelope's offer.
    pub fn store_offer(rooms: &mut ChatRooms, room: Option<ConnId>, data: &StoreRoom) -> (r: Result<(), SignalError>)
        requires
            old(rooms).wf(),
        ensures
            final(rooms).wf(),
            r == lookup_result(old(rooms)@, room),
            final(rooms)@ == stored_offer(old(rooms)@, room, data.offer@),
    {
        match room {
            Some(k) => match rooms.position(k) {
                Some(i) => {
                    rooms.set_offer(i, data.offer.clone());
                    Ok(())
                },
                None => Err(SignalError::RoomNotFound),
            },
            None => Err(SignalError::RoomNotFound),
        }
    }

    /// Appends the envelope's candidate to the room found.
    pub fn store_candidate(rooms: &mut ChatRooms, room: Option<ConnId>, data: &StoreRoom) -> (r: Result<(), SignalError>)
        requires
            old(rooms).wf(),
        ensures
            final(rooms).wf(),
            r == lookup_result(old(rooms)@, room),
            final(rooms)@ == stored_candidate(old(rooms)@, room, data.candidate@),
    {
        match room {
            Some(k) => match rooms.position(k) {
                Some(i) => {
                    rooms.push_candidate(i, data.candidate.clone());
                    Ok(())
                },
                None => Err(SignalError::RoomNotFound),
            },
            None => Err(SignalError::RoomNotFound),
        }
    }

    /// Where the room is present, the envelope's answer, to broadcast.
    pub fn send_answer(rooms: &ChatRooms, room: Option<ConnId>, data: &StoreRoom) -> (r: Result<Vec<Outbound>, SignalError>)
        requires
            rooms.wf(),
        ensures
            r is Ok <==> room_present(rooms@, room),
            r matches Ok(v) ==> v@.map_values(|m: Outbound| m@) == seq![OutboundView::Answer(data.answer@)],
            r matches Err(e) ==> e == SignalError::RoomNotFound,
    {
        if Self::present(rooms, room) {
            let mut v: Vec<Outbound> = Vec::new();
            v.push(Outbound::Answer(data.answer.clone()));
            assert(v@.map_values(|m: Outbound| m@) =~= seq![OutboundView::Answer(data.answer@)]);
            Ok(v)
        } else {
            Err(SignalError::RoomNotFound)
        }
    }

    /// Where the room is present, the envelope's candidate, to broadcast.
    pub fn send_candidate(rooms: &ChatRooms, room: Option<ConnId>, data: &StoreRoom) -> (r: Result<Vec<Outbound>, SignalError>)
        requires
            rooms.wf(),
        ensures
            r is Ok <==> room_present(rooms@, room),
            r matches Ok(v) ==> v@.map_values(|m: Outbound| m@) == seq![OutboundView::Candidate(data.candidate@)],
            r matches Err(e) ==> e == SignalError::RoomNotFound,
    {
        if Self::present(rooms, room) {
            let mut v: Vec<Outbound> = Vec::new();
            v.push(Outbound::Candidate(data.candidate.clone()));
            assert(v@.map_values(|m: Outbound| m@) =~= seq![OutboundView::Candidate(data.candidate@)]);
            Ok(v)
        } else {
            Err(SignalError::RoomNotFound)
        }
    }

    /// Where the room is present, its whole negotiation to broadcast: the
    /// stored offer, then every stored candidate in arrival order.
    pub fn join_call(rooms: &ChatRooms, room: Option<ConnId>) -> (r: Result<Vec<Outbound>, SignalError>)
        requires
            rooms.wf(),
        ensures
            r is Ok <==> room_present(rooms@, room),
            r matches Ok(v) ==> v@.map_values(|m: Outbound| m@) == replay(rooms@[owner_index(rooms@, room->0)].1),
            r matches Err(e) ==> e == SignalError::RoomNotFound,
    {
        let k = match room {
            Some(k) => k,
            None => {
                return Err(SignalError::RoomNotFound);
            },
        };
        let i = match rooms.position(k) {
            Some(i) => i,
            None => {
                return Err(SignalError::RoomNotFound);
            },
        };
        let found = rooms.room_at(i);
        let ghost rv = found@;
        let mut v: Vec<Outbound> = Vec::new();
        v.push(Outbound::Offer(found.offer.clone()));
        let mut j: usize = 0;
        while j < found.candidates.len()
            invariant
                found@ == rv,
                j <= rv.candidates.len(),
                v@.map_values(|m: Outbound| m@) =~= seq![OutboundView::Offer(rv.offer)] + rv.candidates.take(j as int).map_values(
                    |c: CandidateView| OutboundView::Candidate(c),
                ),
            decreases rv.candidates.len() - j,
        {
            let ghost before = v@;
            v.push(Outbound::Candidate(found.candidates[j].clone()));
            assert(rv.candidates.take(j + 1) =~= rv.candidates.take(j as int).push(rv.candidates[j as int]));
            assert(v@.map_values(|m: Outbound| m@) =~= before.map_values(|m: Outbound| m@).push(OutboundView::Candidate(rv.candidates[j as int])));
            j = j + 1;
        }
        assert(rv.candidates.take(j as int) =~= rv.candidates);
        Ok(v)
    }

    /// Forgets `addr`: its room leaves the directory and it leaves the registry.
    pub fn close(rooms: &mut ChatRooms, peers: &mut PeerMap, addr: ConnId)
        requires
            old(rooms).wf(),
            old(peers).wf(),
        ensures
            final(rooms).wf(),
            final(peers).wf(),
            final(rooms)@ == without_owner(old(rooms)@, addr),
            final(peers)@ == without_peer(old(peers)@, addr),
    {
        rooms.remove_owner(addr);
        peers.unregister(addr);
    }

    fn present(rooms: &ChatRooms, room: Option<ConnId>) -> (r: bool)
        requires
            rooms.wf(),
        ensures
            r == room_present(rooms@, room),
    {
        match room {
            Some(k) => rooms.position(k).is_some(),
            None => false,
        }
    }
}

/// One message to hand to one connection's outbound channel.
#[derive(Debug)]
pub struct Delivery {
    pub to: ConnId,
    pub text: String,
}

impl View for Delivery {
    type V = (ConnId, Seq<char>);

    open spec fn view(&self) -> (ConnId, Seq<char>) {
        (self.to, self.text@)
    }
}

/// A broadcast of `m`: one delivery to each registered connection, in registry order.
pub open spec fn broadcast_of(p: PeersView, m: OutboundView) -> Seq<(ConnId, Seq<char>)> {
    p.map_values(|k: ConnId| (k, outbound_json(m)))
}

/// The deliveries that carry `msg` to every registered connection, in
/// registry order. They are sent in this order; the first one that fails
/// ends the whole dispatch.
pub fn send_to_all(peers: &PeerMap, msg: &Outbound) -> (r: Vec<Delivery>)
    ensures
        r@.map_values(|d: Delivery| d@) == broadcast_of(peers@, msg@),
{
    let text = msg.to_json();
    let mut out: Vec<Delivery> = Vec::new();
    let mut i: usize = 0;
    while i < peers.len()
        invariant
            i <= peers@.len(),
            text@ == outbound_json(msg@),
            out@.map_values(|d: Delivery| d@) =~= peers@.take(i as int).map_values(
                |k: ConnId| (k, outbound_json(msg@)),
            ),
        decreases peers@.len() - i,
    {
        let ghost before = out@;
        out.push(Delivery { to: peers.id_at(i), text: text.clone() });
        assert(peers@.take(i + 1) =~= peers@.take(i as int).push(peers@[i as int]));
        assert(out@.map_values(|d: Delivery| d@) =~= before.map_values(|d: Delivery| d@).push(
            (peers@[i as int], outbound_json(msg@)),
        ));
        i = i + 1;
    }
    assert(peers@.take(i as int) =~= peers@);
    out
}

/// `store_room` never gives a creator two rooms and never overwrites one: a
/// second call for the same creator, whatever its lookup found, is refused
/// and leaves the directory as the first call left it.
pub proof fn lemma_store_room_twice(
    d: DirView,
    first: Option<ConnId>,
    second: Option<ConnId>,
    first_id: Seq<char>,
    second_id: Seq<char>,
    c: ConnId,
)
    requires
        owners_unique(d),
    ensures
        owners_unique(stored_room(d, first, first_id, c)),
        store_room_result(d, first, c) is Err ==> stored_room(d, first, first_id, c) == d,
        store_room_result(d, first, c) is Ok ==> {
            let d1 = stored_room(d, first, first_id, c);
            &&& store_room_result(d1, second, c) == Err::<(), SignalError>(SignalError::RoomExists)
            &&& stored_room(d1, second, second_id, c) == d1
        },
{
    if store_room_result(d, first, c) is Ok {
        let d1 = d.push((c, fresh_room(first_id)));
        assert(owns_at(d1, c, d.len() as int));
        assert forall|i: int, j: int|
            0 <= i < d1.len() && 0 <= j < d1.len() && i != j implies #[trigger] d1[i].0
            != #[trigger] d1[j].0 by {
            if i < d.len() && j < d.len() {
                assert(d[i].0 != d[j].0);
            } else if i < d.len() {
                assert(!owns_at(d, c, i));
            } else {
                assert(!owns_at(d, c, j));
            }
        }
    }
}

/// The candidates `cs` stored one after another, in that order.
pub open spec fn stored_candidates(d: DirView, room: Option<ConnId>, cs: Seq<CandidateView>) -> DirView
    decreases cs.len(),
{
    if cs.len() == 0 {
        d
    } else {
        stored_candidate(stored_candidates(d, room, cs.drop_last()), room, cs.last())
    }
}

/// Candidates accumulate in arrival order: once `cs` are stored one after
/// another in the room that `k` created, `join_call` replays the room's
/// offer, then its earlier candidates, then `cs` in the order they came.
pub proof fn lemma_candidates_in_order(d: DirView, k: ConnId, cs: Seq<CandidateView>)
    requires
        owners_unique(d),
        has_owner(d, k),
    ensures
        ({
            let d2 = stored_candidates(d, Some(k), cs);
            let before = d[owner_index(d, k)].1;
            &&& owners_unique(d2)
            &&& has_owner(d2, k)
            &&& owner_index(d2, k) == owner_index(d, k)
            &&& d2[owner_index(d2, k)].1.offer == before.offer
            &&& d2[owner_index(d2, k)].1.candidates == before.candidates + cs
            &&& replay(d2[owner_index(d2, k)].1) == seq![OutboundView::Offer(before.offer)]
                + (before.candidates + cs).map_values(|c: CandidateView| OutboundView::Candidate(c))
        }),
    decreases cs.len(),
{
    let i = owner_index(d, k);
    let d2 = stored_candidates(d, Some(k), cs);
    let before = d[i].1;
    if cs.len() == 0 {
        assert(before.candidates + cs =~= before.candidates);
    } else {
        lemma_candidates_in_order(d, k, cs.drop_last());
        let d1 = stored_candidates(d, Some(k), cs.drop_last());
        assert(room_present(d1, Some(k)));
        assert(d2 == d1.update(i, (d1[i].0, RoomView { candidates: d1[i].1.candidates.push(cs.last()), ..d1[i].1 })));
        assert(before.candidates + cs =~= (before.candidates + cs.drop_last()).push(cs.last()));
        assert forall|a: int, b: int|
            0 <= a < d2.len() && 0 <= b < d2.len() && a != b implies #[trigger] d2[a].0
            != #[trigger] d2[b].0 by {
            assert(d1[a].0 != d1[b].0);
        }
        assert(owns_at(d2, k, i));
        lemma_owner_index_unique(d2, k, i);
        assert(d2[i].1.candidates =~= before.candidates + cs);
    }
    assert(d2[i].1.offer == before.offer);
    assert(replay(d2[i].1) =~= seq![OutboundView::Offer(before.offer)] + (before.candidates
        + cs).map_values(|c: CandidateView| OutboundView::Candidate(c)));
}

/// What `store_offer` stores is what `join_call` broadcasts first: the offer
/// read back is the very offer given.
pub proof fn lemma_offer_round_trip(d: DirView, k: ConnId, offer: SessionView)
    requires
        owners_unique(d),
        has_owner(d, k),
    ensures
        ({
            let d1 = stored_offer(d, Some(k), offer);
            &&& room_present(d1, Some(k))
            &&& replay(d1[owner_index(d1, k)].1)[0] == OutboundView::Offer(offer)
        }),
{
    let i = owner_index(d, k);
    let d1 = stored_offer(d, Some(k), offer);
    assert forall|a: int, b: int|
        0 <= a < d1.len() && 0 <= b < d1.len() && a != b implies #[trigger] d1[a].0
        != #[trigger] d1[b].0 by {
        assert(d[a].0 != d[b].0);
    }
    assert(owns_at(d1, k, i));
    lemma_owner_index_unique(d1, k, i);
}

} // verus!
