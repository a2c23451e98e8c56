//! Messages exchanged with clients: requests that a client sends and events
//! that the room registry hands out to sessions.
use vstd::prelude::*;

verus! {

#[verifier::external_type_specification]
#[verifier::external_body]
pub struct ExValue(serde_json::Value);

/// Relies on the derived `Clone` of `serde_json::Value`: the copy is the same
/// JSON value.
pub assume_specification[ <serde_json::Value as Clone>::clone ](v: &serde_json::Value) -> (r:
    serde_json::Value)
    ensures
        r == *v,
;

/// A player's character selection.
#[derive(Clone, Debug, PartialEq, Eq)]
pub struct PlayerChoice {
    /// selected character
    pub c: u8,
}

/// A request to join the room with the given code.
#[derive(Clone, Debug, PartialEq, Eq)]
pub struct Join {
    pub code: String,
}

/// A request for a new room.
#[derive(Clone, Debug, PartialEq, Eq)]
pub struct Create {}

/// A WebRTC session description: its kind (`offer` or `answer`) and its SDP text.
#[derive(Clone, Debug, PartialEq, Eq)]
pub struct SDPOffer {
    pub kind: String,
    pub sdp: String,
}

/// A WebRTC offer or answer, relayed verbatim between peers.
#[derive(Clone, Debug, PartialEq, Eq)]
pub struct Offer {
    pub offer: SDPOffer,
}

/// A WebRTC ICE candidate: arbitrary JSON, relayed verbatim between peers.
#[derive(Clone, Debug, PartialEq)]
pub struct IceCandidate {
    pub candidate: serde_json::Value,
}

/// What a client asks of its session, discriminated by `cmd` on the wire.
#[derive(Clone, Debug, PartialEq)]
pub enum Request {
    PlayerChoice(PlayerChoice),
    Join(Join),
    Create(Create),
    Offer(Offer),
    Answer(Offer),
    IceCandidate(IceCandidate),
}

/// A player as clients see it: id, optional character and optional seat index.
#[derive(Clone, Debug, PartialEq, Eq)]
pub struct Player {
    pub id: String,
    pub c: Option<u8>,
    pub i: Option<usize>,
}

/// A room snapshot: its code and one slot per seat, `None` for a vacant seat.
/// An empty code with no players says that no such room exists.
#[derive(Clone, Debug, PartialEq, Eq)]
pub struct RoomInfo {
    pub code: String,
    pub players: Vec<Option<Player>>,
}

/// A text message.
#[derive(Clone, Debug, PartialEq, Eq)]
pub struct Chat {
    pub msg: String,
}

/// An event delivered to a session and passed on to its client.
#[derive(Clone, Debug, PartialEq)]
pub enum Response {
    RoomInfo(RoomInfo),
    You(Player),
    Player(Player),
    Chat(Chat),
    Alert(Chat),
    Offer(Offer),
    Answer(Offer),
    IceCandidate(IceCandidate),
}

/// The payload of an administrative announcement.
#[derive(Clone, Debug, PartialEq, Eq)]
pub struct Announcement {
    pub message: String,
}

/// The mathematical content of a `Response`: strings as character sequences,
/// the snapshot's slots as a sequence.
pub enum Event {
    RoomInfo { code: Seq<char>, players: Seq<Option<Player>> },
    You(Player),
    Player(Player),
    Chat(Seq<char>),
    Alert(Seq<char>),
    Offer(Offer),
    Answer(Offer),
    IceCandidate(IceCandidate),
}

impl View for Response {
    type V = Event;

    open spec fn view(&self) -> Event {
        match self {
            Response::RoomInfo(r) => Event::RoomInfo { code: r.code@, players: r.players@ },
            Response::You(p) => Event::You(*p),
            Response::Player(p) => Event::Player(*p),
            Response::Chat(c) => Event::Chat(c.msg@),
            Response::Alert(c) => Event::Alert(c.msg@),
            Response::Offer(o) => Event::Offer(*o),
            Response::Answer(o) => Event::Answer(*o),
            Response::IceCandidate(c) => Event::IceCandidate(*c),
        }
    }
}

impl Player {
    /// A copy of this player.
    pub fn duplicate(&self) -> (r: Player)
        ensures
            r == *self,
    {
        Player { id: self.id.clone(), c: self.c, i: self.i }
    }
}

impl Offer {
    /// A copy of this offer.
    pub fn duplicate(&self) -> (r: Offer)
        ensures
            r == *self,
    {
        Offer { offer: SDPOffer { kind: self.offer.kind.clone(), sdp: self.offer.sdp.clone() } }
    }
}

impl RoomInfo {
    /// A copy of this snapshot, slot by slot.
    pub fn duplicate(&self) -> (r: RoomInfo)
        ensures
            r.code == self.code,
            r.players@ == self.players@,
    {
        let mut players: Vec<Option<Player>> = Vec::new();
        let mut j: usize = 0;
        while j < self.players.len()
            invariant
                j <= self.players@.len(),
                players@ == self.players@.take(j as int),
            decreases self.players@.len() - j,
        {
            let slot = match &self.players[j] {
                Some(p) => Some(p.duplicate()),
                None => None,
            };
            players.push(slot);
            j = j + 1;
            assert(players@ =~= self.players@.take(j as int));
        }
        assert(players@ =~= self.players@);
        RoomInfo { code: self.code.clone(), players }
    }
}

impl Response {
    /// A copy of this event, with the same content.
    pub fn duplicate(&self) -> (r: Response)
        ensures
            r@ == self@,
    {
        match self {
            Response::RoomInfo(info) => Response::RoomInfo(info.duplicate()),
            Response::You(p) => Response::You(p.duplicate()),
            Response::Player(p) => Response::Player(p.duplicate()),
            Response::Chat(c) => Response::Chat(Chat { msg: c.msg.clone() }),
            Response::Alert(c) => Response::Alert(Chat { msg: c.msg.clone() }),
            Response::Offer(o) => Response::Offer(o.duplicate()),
            Response::Answer(o) => Response::Answer(o.duplicate()),
            Response::IceCandidate(c) => Response::IceCandidate(
                IceCandidate { candidate: c.candidate.clone() },
            ),
        }
    }
}

} // verus!
