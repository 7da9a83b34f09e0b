use vstd::prelude::*;

use crate::websocket::data_transfer::{
    broadcast_of, find_room, found_room, lookup_result, replay, send_to_all, store_room_result,
    stored_candidate, stored_offer, stored_room, DataType, Delivery, EnvelopeView, Outbound,
    OutboundView, SignalError, StoreRoom,
};
use crate::websocket::{
    owner_index, without_owner, without_peer, ChatRooms, ConnId, DirView, PeerMap, PeersView,
};

verus! {

/// The operations an envelope can ask for, named by its `data_type`.
#[derive(Clone, Copy, Debug, PartialEq, Eq, Structural)]
pub enum Kind {
    StoreRoom,
    StoreOffer,
    StoreCandidate,
    SendAnswer,
    SendCandidate,
    JoinCall,
}

/// The operation that a `data_type` names, if it names one.
pub open spec fn kind_of(s: Seq<char>) -> Option<Kind> {
    if s == "store_room"@ {
        Some(Kind::StoreRoom)
    } else if s == "store_offer"@ {
        Some(Kind::StoreOffer)
    } else if s == "store_candidate"@ {
        Some(Kind::StoreCandidate)
    } else if s == "send_answer"@ {
        Some(Kind::SendAnswer)
    } else if s == "send_candidate"@ {
        Some(Kind::SendCandidate)
    } else if s == "join_call"@ {
        Some(Kind::JoinCall)
    } else {
        None
    }
}

/// Reads the operation named by `data_type`.
pub fn parse_kind(data_type: &String) -> (r: Option<Kind>)
    ensures
        r == kind_of(data_type@),
{
    if *data_type == "store_room".to_owned() {
        Some(Kind::StoreRoom)
    } else if *data_type == "store_offer".to_owned() {
        Some(Kind::StoreOffer)
    } else if *data_type == "store_candidate".to_owned() {
        Some(Kind::StoreCandidate)
    } else if *data_type == "send_answer".to_owned() {
        Some(Kind::SendAnswer)
    } else if *data_type == "send_candidate".to_owned() {
        Some(Kind::SendCandidate)
    } else if *data_type == "join_call".to_owned() {
        Some(Kind::JoinCall)
    } else {
        None
    }
}

/// What the operator is told about one inbound item. None of it reaches the sender.
#[derive(Clone, Copy, Debug, PartialEq, Eq, Structural)]
pub enum Problem {
    /// A data frame that is not a well-formed envelope; it is dropped.
    Undecodable,
    /// An envelope whose `data_type` names no operation; it is dropped.
    UnknownDataType,
    /// The operation found the directory in a state that forbids it.
    Signal(SignalError),
    /// Reading from the connection failed; the connection is closed.
    TransportFailed,
}

pub open spec fn signal_problem(r: Result<(), SignalError>) -> Result<Seq<OutboundView>, Problem> {
    match r {
        Ok(_) => Ok(Seq::empty()),
        Err(e) => Err(Problem::Signal(e)),
    }
}

/// The broadcasts an operation asks for, or why it asked for none.
pub open spec fn sent_if_present(d: DirView, room: Option<ConnId>, msgs: Seq<OutboundView>) -> Result<
    Seq<OutboundView>,
    Problem,
> {
    match lookup_result(d, room) {
        Ok(_) => Ok(msgs),
        Err(e) => Err(Problem::Signal(e)),
    }
}

/// The directory after one envelope from `addr`: one lookup by the envelope's
/// room identifier, then the operation its `data_type` names.
pub open spec fn dispatched_rooms(d: DirView, e: EnvelopeView, addr: ConnId) -> DirView {
    let room = found_room(d, e.room_id);
    match kind_of(e.data_type) {
        Some(Kind::StoreRoom) => stored_room(d, room, e.room_id, addr),
        Some(Kind::StoreOffer) => stored_offer(d, room, e.offer),
        Some(Kind::StoreCandidate) => stored_candidate(d, room, e.candidate),
        _ => d,
    }
}

/// The broadcasts, in order, that one envelope from `addr` asks for, or why
/// it asked for none.
pub open spec fn dispatched_out(d: DirView, e: EnvelopeView, addr: ConnId) -> Result<
    Seq<OutboundView>,
    Problem,
> {
    let room = found_room(d, e.room_id);
    match kind_of(e.data_type) {
        None => Err(Problem::UnknownDataType),
        Some(Kind::StoreRoom) => signal_problem(store_room_result(d, room, addr)),
        Some(Kind::StoreOffer) => signal_problem(lookup_result(d, room)),
        Some(Kind::StoreCandidate) => signal_problem(lookup_result(d, room)),
        Some(Kind::SendAnswer) => sent_if_present(d, room, seq![OutboundView::Answer(e.answer)]),
        Some(Kind::SendCandidate) => sent_if_present(
            d,
            room,
            seq![OutboundView::Candidate(e.candidate)],
        ),
        Some(Kind::JoinCall) => sent_if_present(
            d,
            room,
            replay(d[owner_index(d, room->0)].1),
        ),
    }
}

/// Every broadcast of `ms`, in order, each to every registered connection.
pub open spec fn fan_out(p: PeersView, ms: Seq<OutboundView>) -> Seq<(ConnId, Seq<char>)>
    decreases ms.len(),
{
    if ms.len() == 0 {
        Seq::empty()
    } else {
        fan_out(p, ms.drop_last()) + broadcast_of(p, ms.last())
    }
}

/// An offer or a candidate for a room that the lookup does not find leaves
/// the directory as it was, broadcasts nothing and is reported as not found.
pub proof fn lemma_missing_room_untouched(d: DirView, e: EnvelopeView, addr: ConnId)
    requires
        found_room(d, e.room_id) is None,
        kind_of(e.data_type) == Some(Kind::StoreOffer) || kind_of(e.data_type) == Some(
            Kind::StoreCandidate,
        ),
    ensures
        dispatched_rooms(d, e, addr) == d,
        dispatched_rooms(d, e, addr).len() == d.len(),
        dispatched_out(d, e, addr) == Err::<Seq<OutboundView>, Problem>(
            Problem::Signal(SignalError::RoomNotFound),
        ),
{
}

/// The outcome of a dispatch as seen by the specifications.
pub open spec fn outcome_view(r: Result<Vec<Outbound>, Problem>) -> Result<Seq<OutboundView>, Problem> {
    match r {
        Ok(v) => Ok(v@.map_values(|m: Outbound| m@)),
        Err(p) => Err(p),
    }
}

/// One item read from a connection, as the transport hands it over.
pub enum Incoming {
    /// A text or binary frame that decoded as an envelope.
    Envelope(StoreRoom),
    /// A text or binary frame that did not decode as an envelope.
    Undecodable,
    /// A ping or pong frame, which carries no envelope.
    Control,
    /// A close frame.
    Close,
    /// The stream ended.
    Ended,
    /// Reading failed.
    Failed,
}

/// What the driver of a connection does after one inbound item: send the
/// deliveries in order (the first that fails ends the sending), report the
/// problem if there is one, and read again only if `keep_reading`.
pub struct Step {
    pub deliveries: Vec<Delivery>,
    pub problem: Option<Problem>,
    pub keep_reading: bool,
}

/// The connection's receive loop, one item at a time.
pub struct WebRTCStreamTransfer;

impl WebRTCStreamTransfer {
    /// Handles one envelope from `addr`: one lookup by its room identifier,
    /// then the operation that its `data_type` names.
    pub fn dispatch(rooms: &mut ChatRooms, data: &StoreRoom, addr: ConnId) -> (r: Result<Vec<Outbound>, Problem>)
        requires
            old(rooms).wf(),
        ensures
            final(rooms).wf(),
            final(rooms)@ == dispatched_rooms(old(rooms)@, data@, addr),
            outcome_view(r) == dispatched_out(old(rooms)@, data@, addr),
    {
        let room = find_room(rooms, &data.room_id);
        let ghost d = rooms@;
        match parse_kind(&data.data_type) {
            None => Err(Problem::UnknownDataType),
            Some(Kind::StoreRoom) => match DataType::store_room(rooms, room, data, addr) {
                Ok(()) => {
                    let v: Vec<Outbound> = Vec::new();
                    assert(v@.map_values(|m: Outbound| m@) =~= Seq::<OutboundView>::empty());
                    Ok(v)
                },
                Err(e) => Err(Problem::Signal(e)),
            },
            Some(Kind::StoreOffer) => match DataType::store_offer(rooms, room, data) {
                Ok(()) => {
                    let v: Vec<Outbound> = Vec::new();
                    assert(v@.map_values(|m: Outbound| m@) =~= Seq::<OutboundView>::empty());
                    Ok(v)
                },
                Err(e) => Err(Problem::Signal(e)),
            },
            Some(Kind::StoreCandidate) => match DataType::store_candidate(rooms, room, data) {
                Ok(()) => {
                    let v: Vec<Outbound> = Vec::new();
                    assert(v@.map_values(|m: Outbound| m@) =~= Seq::<OutboundView>::empty());
                    Ok(v)
                },
                Err(e) => Err(Problem::Signal(e)),
            },
            Some(Kind::SendAnswer) => match DataType::send_answer(rooms, room, data) {
                Ok(v) => Ok(v),
                Err(e) => Err(Problem::Signal(e)),
            },
            Some(Kind::SendCandidate) => match DataType::send_candidate(rooms, room, data) {
                Ok(v) => Ok(v),
                Err(e) => Err(Problem::Signal(e)),
            },
            Some(Kind::JoinCall) => match DataType::join_call(rooms, room) {
                Ok(v) => Ok(v),
                Err(e) => Err(Problem::Signal(e)),
            },
        }
    }

    /// Every broadcast of `msgs`, in order, each to every registered connection.
    pub fn deliveries(peers: &PeerMap, msgs: &Vec<Outbound>) -> (r: Vec<Delivery>)
        ensures
            r@.map_values(|d: Delivery| d@) == fan_out(peers@, msgs@.map_values(|m: Outbound| m@)),
    {
        let ghost ms = msgs@.map_values(|m: Outbound| m@);
        let mut out: Vec<Delivery> = Vec::new();
        let mut i: usize = 0;
        while i < msgs.len()
            invariant
                i <= msgs@.len(),
                ms == msgs@.map_values(|m: Outbound| m@),
                out@.map_values(|d: Delivery| d@) == fan_out(peers@, ms.take(i as int)),
            decreases msgs@.len() - i,
        {
            let ghost before = out@;
            let mut more = send_to_all(peers, &msgs[i]);
            let ghost added = more@;
            out.append(&mut more);
            proof {
                assert(ms.take(i + 1).drop_last() =~= ms.take(i as int));
                assert(ms.take(i + 1).last() == ms[i as int]);
                assert(out@.map_values(|d: Delivery| d@) =~= before.map_values(|d: Delivery| d@)
                    + added.map_values(|d: Delivery| d@));
            }
            i = i + 1;
        }
        assert(ms.take(i as int) =~= ms);
        out
    }

    /// Handles one item read from connection `addr`. An envelope is
    /// dispatched and its broadcasts fanned out to every registered
    /// connection; a close frame, the end of the stream or a read failure
    /// removes `addr` from both registries and ends the loop.
    pub fn response_msg(rooms: &mut ChatRooms, peers: &mut PeerMap, addr: ConnId, item: Incoming) -> (r: Step)
        requires
            old(rooms).wf(),
            old(peers).wf(),
        ensures
            final(rooms).wf(),
            final(peers).wf(),
            item matches Incoming::Envelope(data) ==> {
                &&& final(rooms)@ == dispatched_rooms(old(rooms)@, data@, addr)
                &&& final(peers)@ == old(peers)@
                &&& r.keep_reading
                &&& match dispatched_out(old(rooms)@, data@, addr) {
                    Ok(ms) => r.problem is None && r.deliveries@.map_values(|d: Delivery| d@)
                        == fan_out(old(peers)@, ms),
                    Err(p) => r.problem == Some(p) && r.deliveries@.len() == 0,
                }
            },
            (item is Undecodable || item is Control) ==> {
                &&& final(rooms)@ == old(rooms)@
                &&& final(peers)@ == old(peers)@
                &&& r.keep_reading
                &&& r.deliveries@.len() == 0
                &&& r.problem == (if item is Undecodable { Some(Problem::Undecodable) } else { None })
            },
            (item is Close || item is Ended || item is Failed) ==> {
                &&& final(rooms)@ == without_owner(old(rooms)@, addr)
                &&& final(peers)@ == without_peer(old(peers)@, addr)
                &&& !r.keep_reading
                &&& r.deliveries@.len() == 0
                &&& r.problem == (if item is Failed { Some(Problem::TransportFailed) } else { None })
            },
    {
        match item {
            Incoming::Envelope(data) => match Self::dispatch(rooms, &data, addr) {
                Ok(msgs) => Step {
                    deliveries: Self::deliveries(peers, &msgs),
                    problem: None,
                    keep_reading: true,
                },
                Err(p) => Step { deliveries: Vec::new(), problem: Some(p), keep_reading: true },
            },
            Incoming::Undecodable => Step {
                deliveries: Vec::new(),
                problem: Some(Problem::Undecodable),
                keep_reading: true,
            },
            Incoming::Control => Step { deliveries: Vec::new(), problem: None, keep_reading: true },
            Incoming::Close | Incoming::Ended => {
                DataType::close(rooms, peers, addr);
                Step { deliveries: Vec::new(), problem: None, keep_reading: false }
            },
            Incoming::Failed => {
                DataType::close(rooms, peers, addr);
                Step {
                    deliveries: Vec::new(),
                    problem: Some(Problem::TransportFailed),
                    keep_reading: false,
                }
            },
        }
    }
}

} // verus!
