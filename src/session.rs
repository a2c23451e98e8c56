//! The per-connection session: what a client's request asks of the registry,
//! how the registry's events update the session's identity and room, and when
//! a silent connection counts as dead.
//!
//! A session holds its player id and room code only once the registry has
//! confirmed them by a "you" or a "room" event; requests never set them.
use vstd::prelude::*;

use crate::protocol::{Player, Request, Response};
use crate::registry::{Disconnect, ToRoom};

verus! {

/// How often the session pings its client, in milliseconds.
pub const HEARTBEAT_INTERVAL_MS: u64 = 5000;

/// How long a client may stay silent before its connection counts as dead,
/// in milliseconds.
pub const CLIENT_TIMEOUT_MS: u64 = 10000;

/// A line of text for the client, sent as it is.
#[derive(Clone, Debug, PartialEq, Eq)]
pub struct Plain(pub String);

/// The state of one connection.
#[derive(Clone, Debug, PartialEq, Eq)]
pub struct PlayerSession {
    /// player id in the current room, once confirmed
    id: Option<String>,
    /// time of the last heartbeat from the client, in milliseconds
    hb: u64,
    /// code of the current room, once confirmed
    room: Option<String>,
}

/// What a request asks of the registry.
#[derive(Clone, Debug, PartialEq)]
pub enum Command {
    /// create a room for this session
    CreateRoom,
    /// join the room with this code
    JoinRoom(String),
    /// pass an event to the other occupants of a room
    ToRoom(ToRoom),
    /// send this session the snapshot of the room with this code
    Snapshot(String),
    /// nothing
    Ignore,
}

/// What a heartbeat tick asks for.
#[derive(Clone, Debug, PartialEq, Eq)]
pub enum Tick {
    /// the client is alive: ping it
    Ping,
    /// the client is silent for too long: close the connection
    Stop,
}

/// Pass `msg` to the other occupants, on behalf of the player `id` in room
/// `room`, where both are known.
pub open spec fn relay(id: Option<String>, room: Option<String>, msg: Response) -> Command {
    if id is Some && room is Some {
        Command::ToRoom(ToRoom { msg, room: room->Some_0, id: id->Some_0 })
    } else {
        Command::Ignore
    }
}

/// What the request `req` asks of the registry, for a session with player id
/// `id` in room `room`.
pub open spec fn command_for(id: Option<String>, room: Option<String>, req: Request) -> Command {
    match req {
        Request::PlayerChoice(p) => relay(
            id,
            room,
            Response::Player(Player { id: id->Some_0, c: Some(p.c), i: None }),
        ),
        Request::Join(j) => Command::JoinRoom(j.code),
        Request::Create(_) => match room {
            Some(code) => Command::Snapshot(code),
            None => Command::CreateRoom,
        },
        Request::Offer(o) => relay(id, room, Response::Offer(o)),
        Request::Answer(o) => relay(id, room, Response::Answer(o)),
        Request::IceCandidate(c) => relay(id, room, Response::IceCandidate(c)),
    }
}

/// Whether a client last heard from at `hb` is dead at `now`.
pub open spec fn timed_out(hb: u64, now: u64) -> bool {
    now > hb && now - hb > CLIENT_TIMEOUT_MS
}

fn copy_text(s: &Option<String>) -> (r: Option<String>)
    ensures
        r == *s,
{
    match s {
        Some(t) => Some(t.clone()),
        None => None,
    }
}

impl PlayerSession {
    /// The player id, once the registry has confirmed one.
    pub closed spec fn identity(&self) -> Option<String> {
        self.id
    }

    /// The room code, once the registry has confirmed one.
    pub closed spec fn room_code(&self) -> Option<String> {
        self.room
    }

    /// When the client was last heard from.
    pub closed spec fn last_heartbeat(&self) -> u64 {
        self.hb
    }

    /// A new session, in no room, heard from at `now`.
    pub fn new(now: u64) -> (r: PlayerSession)
        ensures
            r.identity() is None,
            r.room_code() is None,
            r.last_heartbeat() == now,
    {
        PlayerSession { id: None, hb: now, room: None }
    }

    /// The player id, once confirmed.
    pub fn id(&self) -> (r: Option<String>)
        ensures
            r == self.identity(),
    {
        copy_text(&self.id)
    }

    /// The room code, once confirmed.
    pub fn room(&self) -> (r: Option<String>)
        ensures
            r == self.room_code(),
    {
        copy_text(&self.room)
    }

    /// When the client was last heard from.
    pub fn heartbeat_at(&self) -> (r: u64)
        ensures
            r == self.last_heartbeat(),
    {
        self.hb
    }

    /// What a request from the client asks of the registry. Creating while
    /// in a room resends that room's snapshot; relaying outside a room does
    /// nothing. The session itself is left as it is.
    pub fn handle_request(&self, req: Request) -> (c: Command)
        ensures
            c == command_for(self.identity(), self.room_code(), req),
    {
        match req {
            Request::PlayerChoice(p) => match (&self.id, &self.room) {
                (Some(id), Some(room)) => Command::ToRoom(
                    ToRoom {
                        msg: Response::Player(Player { id: id.clone(), c: Some(p.c), i: None }),
                        room: room.clone(),
                        id: id.clone(),
                    },
                ),
                _ => Command::Ignore,
            },
            Request::Join(j) => Command::JoinRoom(j.code),
            Request::Create(_) => match &self.room {
                Some(code) => Command::Snapshot(code.clone()),
                None => Command::CreateRoom,
            },
            Request::Offer(o) => self.relay(Response::Offer(o)),
            Request::Answer(o) => self.relay(Response::Answer(o)),
            Request::IceCandidate(c) => self.relay(Response::IceCandidate(c)),
        }
    }

    fn relay(&self, msg: Response) -> (c: Command)
        ensures
            c == relay(self.identity(), self.room_code(), msg),
    {
        match (&self.id, &self.room) {
            (Some(id), Some(room)) => Command::ToRoom(
                ToRoom { msg, room: room.clone(), id: id.clone() },
            ),
            _ => Command::Ignore,
        }
    }

    /// Takes note of an event from the registry before it goes on to the
    /// client: "you" sets the player id, "room" sets the room code (the empty
    /// code of a failed join clears it). No other event changes the session.
    pub fn handle_response(&mut self, msg: &Response)
        ensures
            final(self).identity() == match *msg {
                Response::You(p) => Some(p.id),
                _ => old(self).identity(),
            },
            final(self).room_code() == match *msg {
                Response::RoomInfo(info) => if info.code@.len() == 0 {
                    None
                } else {
                    Some(info.code)
                },
                _ => old(self).room_code(),
            },
            final(self).last_heartbeat() == old(self).last_heartbeat(),
    {
        match msg {
            Response::You(p) => {
                self.id = Some(p.id.clone());
            },
            Response::RoomInfo(info) => {
                if info.code.as_str().is_empty() {
                    self.room = None;
                } else {
                    self.room = Some(info.code.clone());
                }
            },
            _ => {},
        }
    }

    /// The client was heard from at `now`.
    pub fn heartbeat(&mut self, now: u64)
        ensures
            final(self).last_heartbeat() == now,
            final(self).identity() == old(self).identity(),
            final(self).room_code() == old(self).room_code(),
    {
        self.hb = now;
    }

    /// A heartbeat tick at `now`: stop where the client has been silent for
    /// longer than the timeout, else ping it.
    pub fn tick(&self, now: u64) -> (t: Tick)
        ensures
            t == if timed_out(self.last_heartbeat(), now) {
                Tick::Stop
            } else {
                Tick::Ping
            },
    {
        if now > self.hb && now - self.hb > CLIENT_TIMEOUT_MS {
            Tick::Stop
        } else {
            Tick::Ping
        }
    }

    /// What the registry is told when the connection ends: a disconnect of
    /// this session's player from its room, where both are known.
    pub fn stopping(&self) -> (r: Option<Disconnect>)
        ensures
            r == if self.identity() is Some && self.room_code() is Some {
                Some(Disconnect { id: self.identity(), room: self.room_code() })
            } else {
                None
            },
    {
        if self.id.is_some() && self.room.is_some() {
            Some(Disconnect { id: copy_text(&self.id), room: copy_text(&self.room) })
        } else {
            None
        }
    }
}

} // verus!
