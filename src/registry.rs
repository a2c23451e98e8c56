//! The room registry: the single owner of every room, its seats and its
//! players. Each operation takes the registry by reference, so callers that
//! share it must serialise operations; each returns the events it hands out,
//! in the order in which they are to be delivered.
use vstd::prelude::*;

use crate::ids::{generate_player_id, generate_room_code, is_player_id, is_room_code};
use crate::protocol::{Chat, Event, Player, Response, RoomInfo};

verus! {

/// The seat index carried by a "player" event that announces a departure.
pub const VACATED: usize = usize::MAX;

/// A seated player: id (unique within its room), chosen character, and the
/// handle of the session to which its events go.
#[derive(Clone, Debug, PartialEq, Eq)]
pub struct PlayerInfo {
    pub id: String,
    pub c: Option<u8>,
    pub addr: u64,
}

/// A room: its code and its seats in order; `None` marks a vacated seat.
#[derive(Clone, Debug, PartialEq, Eq)]
pub struct Room {
    pub code: String,
    pub seats: Vec<Option<PlayerInfo>>,
}

/// An event addressed to one session.
#[derive(Clone, Debug, PartialEq)]
pub struct Delivery {
    pub to: u64,
    pub msg: Response,
}

/// A session has gone: its player id and room code, where it had them.
#[derive(Clone, Debug, PartialEq, Eq)]
pub struct Disconnect {
    pub id: Option<String>,
    pub room: Option<String>,
}

/// A session asks to join the room with the given code.
#[derive(Clone, Debug, PartialEq, Eq)]
pub struct JoinRoom {
    pub addr: u64,
    pub code: String,
}

/// A session asks for a new room.
#[derive(Clone, Debug, PartialEq, Eq)]
pub struct CreateRoom {
    pub addr: u64,
}

/// An event to pass to every occupant of `room` but the player `id`.
#[derive(Clone, Debug, PartialEq)]
pub struct ToRoom {
    pub msg: Response,
    pub room: String,
    pub id: String,
}

/// An announcement to every occupant of one room, or of every room.
#[derive(Clone, Debug, PartialEq, Eq)]
pub struct Broadcast {
    pub room: Option<String>,
    pub text: String,
}

impl Broadcast {
    /// An announcement to everyone.
    pub fn all(msg: String) -> (r: Broadcast)
        ensures
            r.room is None,
            r.text == msg,
    {
        Broadcast { room: None, text: msg }
    }

    /// An announcement to the occupants of one room.
    pub fn room(room: String, msg: String) -> (r: Broadcast)
        ensures
            r.room == Some(room),
            r.text == msg,
    {
        Broadcast { room: Some(room), text: msg }
    }
}

/// The registry of rooms, keyed by code.
pub struct RoomServer {
    rooms: Vec<Room>,
}

/// What a delivery means: its recipient and its event.
pub open spec fn events(out: Seq<Delivery>) -> Seq<(u64, Event)> {
    out.map_values(|d: Delivery| (d.to, d.msg@))
}

pub open spec fn opt_view(o: Option<String>) -> Option<Seq<char>> {
    match o {
        Some(s) => Some(s@),
        None => None,
    }
}

/// Whether a seat holds the player `id`.
pub open spec fn holds(slot: Option<PlayerInfo>, id: Seq<char>) -> bool {
    match slot {
        Some(p) => p.id@ == id,
        None => false,
    }
}

/// Whether a seat holds a player that is to receive an event which skips
/// the player `skip`.
pub open spec fn receives(slot: Option<PlayerInfo>, skip: Option<Seq<char>>) -> bool {
    match slot {
        Some(p) => skip != Some(p.id@),
        None => false,
    }
}

/// One delivery of `e` to each occupant in seat order, except the player
/// `skip`.
pub open spec fn fan_out(seats: Seq<Option<PlayerInfo>>, skip: Option<Seq<char>>, e: Event) -> Seq<
    (u64, Event),
>
    decreases seats.len(),
{
    if seats.len() == 0 {
        seq![]
    } else {
        let rest = fan_out(seats.drop_last(), skip, e);
        if receives(seats.last(), skip) {
            rest.push((seats.last()->Some_0.addr, e))
        } else {
            rest
        }
    }
}

/// The seat that a joiner takes: the lowest vacated one, or the next one
/// past the end where none is vacated.
pub open spec fn vacant_seat(seats: Seq<Option<PlayerInfo>>) -> int
    decreases seats.len(),
{
    if seats.len() == 0 {
        0
    } else {
        let v = vacant_seat(seats.drop_last());
        if v < seats.len() - 1 {
            v
        } else if seats.last() is None {
            seats.len() - 1
        } else {
            seats.len() as int
        }
    }
}

/// The seats once `p` sits at `pos`: in place, or appended at the end.
pub open spec fn seated(seats: Seq<Option<PlayerInfo>>, pos: int, p: PlayerInfo) -> Seq<
    Option<PlayerInfo>,
> {
    if pos < seats.len() {
        seats.update(pos, Some(p))
    } else {
        seats.push(Some(p))
    }
}

/// The seats once the player `id` has left: each seat it held is vacated.
pub open spec fn vacate(seats: Seq<Option<PlayerInfo>>, id: Seq<char>) -> Seq<Option<PlayerInfo>> {
    Seq::new(seats.len(), |j: int| if holds(seats[j], id) { None } else { seats[j] })
}

/// How a seat appears in a snapshot.
pub open spec fn seat_view(slot: Option<PlayerInfo>, j: int) -> Option<Player> {
    match slot {
        Some(p) => Some(Player { id: p.id, c: p.c, i: Some(j as usize) }),
        None => None,
    }
}

/// A room as clients see it: one slot per seat.
pub open spec fn snapshot(seats: Seq<Option<PlayerInfo>>) -> Seq<Option<Player>> {
    Seq::new(seats.len(), |j: int| seat_view(seats[j], j))
}

/// The "no such room" answer.
pub open spec fn no_room() -> Event {
    Event::RoomInfo { code: seq![], players: seq![] }
}

/// What creating room `code` for the session `addr`, with player id `pid`,
/// does to the rooms and hands out.
pub open spec fn created(
    old: Map<Seq<char>, Seq<Option<PlayerInfo>>>,
    new: Map<Seq<char>, Seq<Option<PlayerInfo>>>,
    addr: u64,
    code: Seq<char>,
    pid: String,
    out: Seq<(u64, Event)>,
) -> bool {
    let seats = seq![Some(PlayerInfo { id: pid, c: None, addr })];
    let me = Player { id: pid, c: None, i: Some(0usize) };
    &&& new == old.insert(code, seats)
    &&& out == seq![(addr, Event::You(me)), (addr, Event::RoomInfo { code, players: snapshot(seats) })]
}

/// What the session `addr` joining room `code` as player `pid` does to the
/// rooms and hands out.
pub open spec fn joined(
    old: Map<Seq<char>, Seq<Option<PlayerInfo>>>,
    new: Map<Seq<char>, Seq<Option<PlayerInfo>>>,
    addr: u64,
    code: Seq<char>,
    pid: String,
    out: Seq<(u64, Event)>,
) -> bool {
    if old.contains_key(code) {
        let seats = old[code];
        let pos = vacant_seat(seats);
        let me = Player { id: pid, c: None, i: Some(pos as usize) };
        let after = seated(seats, pos, PlayerInfo { id: pid, c: None, addr });
        &&& new == old.insert(code, after)
        &&& out == seq![(addr, Event::You(me))] + fan_out(seats, None, Event::Player(me)) + seq![
            (addr, Event::RoomInfo { code, players: snapshot(after) }),
        ]
    } else {
        &&& new == old
        &&& out == seq![(addr, no_room())]
    }
}

/// Whether some seat holds the player `id`.
pub open spec fn occupies(seats: Seq<Option<PlayerInfo>>, id: Seq<char>) -> bool {
    exists|j: int| 0 <= j < seats.len() && holds(#[trigger] seats[j], id)
}

/// The "player left" event for the player `id`.
pub open spec fn departure(id: String) -> Event {
    Event::Player(Player { id, c: None, i: Some(VACATED) })
}

/// What a disconnect of the player `id` from room `room` does to the rooms
/// and hands out. Without both, or where the room or the player is absent,
/// nothing happens.
pub open spec fn left(
    old: Map<Seq<char>, Seq<Option<PlayerInfo>>>,
    new: Map<Seq<char>, Seq<Option<PlayerInfo>>>,
    id: Option<String>,
    room: Option<String>,
    out: Seq<(u64, Event)>,
) -> bool {
    if room is Some && id is Some && old.contains_key(room->Some_0@) && occupies(
        old[room->Some_0@],
        id->Some_0@,
    ) {
        let code = room->Some_0@;
        let after = vacate(old[code], id->Some_0@);
        &&& new == old.insert(code, after)
        &&& out == fan_out(after, None, departure(id->Some_0))
    } else {
        &&& new == old
        &&& out == Seq::<(u64, Event)>::empty()
    }
}

/// One delivery of `e` to each occupant of each room, room by room in the
/// order of `codes`.
pub open spec fn fan_out_all(
    rooms: Map<Seq<char>, Seq<Option<PlayerInfo>>>,
    codes: Seq<Seq<char>>,
    e: Event,
) -> Seq<(u64, Event)>
    decreases codes.len(),
{
    if codes.len() == 0 {
        seq![]
    } else {
        fan_out_all(rooms, codes.drop_last(), e) + fan_out(rooms[codes.last()], None, e)
    }
}

/// Appends to `out` one copy of `msg` for each occupant of `seats` but the
/// player `skip`.
fn fan_out_into(
    out: &mut Vec<Delivery>,
    seats: &Vec<Option<PlayerInfo>>,
    skip: &Option<String>,
    msg: &Response,
)
    ensures
        events(final(out)@) == events(old(out)@) + fan_out(seats@, opt_view(*skip), msg@),
{
    let ghost start = events(out@);
    assert(events(out@) =~= start + fan_out(seats@.take(0), opt_view(*skip), msg@));
    let mut j: usize = 0;
    while j < seats.len()
        invariant
            j <= seats@.len(),
            events(out@) == start + fan_out(seats@.take(j as int), opt_view(*skip), msg@),
        decreases seats@.len() - j,
    {
        assert(seats@.take(j + 1).drop_last() =~= seats@.take(j as int));
        assert(seats@.take(j + 1).last() == seats@[j as int]);
        if let Some(p) = &seats[j] {
            let skipped = match skip {
                Some(s) => p.id == *s,
                None => false,
            };
            if !skipped {
                let ghost before = out@;
                out.push(Delivery { to: p.addr, msg: msg.duplicate() });
                assert(events(out@) =~= events(before).push((p.addr, msg@)));
            }
        }
        j = j + 1;
    }
    assert(seats@.take(j as int) =~= seats@);
}

/// The seat that a joiner takes.
fn vacant_index(seats: &Vec<Option<PlayerInfo>>) -> (r: usize)
    ensures
        r as int == vacant_seat(seats@),
{
    let mut pos: usize = 0;
    let mut j: usize = 0;
    while j < seats.len()
        invariant
            j <= seats@.len(),
            pos <= j,
            pos as int == vacant_seat(seats@.take(j as int)),
        decreases seats@.len() - j,
    {
        assert(seats@.take(j + 1).drop_last() =~= seats@.take(j as int));
        if pos == j && seats[j].is_some() {
            pos = j + 1;
        }
        j = j + 1;
    }
    assert(seats@.take(j as int) =~= seats@);
    pos
}

/// The snapshot of `seats` that clients see.
fn snapshot_of(seats: &Vec<Option<PlayerInfo>>) -> (r: Vec<Option<Player>>)
    ensures
        r@ == snapshot(seats@),
{
    let mut r: Vec<Option<Player>> = Vec::new();
    let mut j: usize = 0;
    while j < seats.len()
        invariant
            j <= seats@.len(),
            r@ == snapshot(seats@).take(j as int),
        decreases seats@.len() - j,
    {
        let slot = match &seats[j] {
            Some(p) => Some(Player { id: p.id.clone(), c: p.c, i: Some(j) }),
            None => None,
        };
        r.push(slot);
        j = j + 1;
        assert(r@ =~= snapshot(seats@).take(j as int));
    }
    assert(r@ =~= snapshot(seats@));
    r
}

/// The "no such room" answer.
fn no_room_info() -> (r: Response)
    ensures
        r@ == no_room(),
{
    let r = Response::RoomInfo(RoomInfo { code: String::new(), players: Vec::new() });
    assert(r@ =~= no_room());
    r
}

impl View for RoomServer {
    type V = Map<Seq<char>, Seq<Option<PlayerInfo>>>;

    closed spec fn view(&self) -> Map<Seq<char>, Seq<Option<PlayerInfo>>> {
        Map::new(
            |k: Seq<char>| exists|i: int| 0 <= i < self.rooms@.len() && self.rooms@[i].code@ == k,
            |k: Seq<char>|
                self.rooms@[choose|i: int| 0 <= i < self.rooms@.len() && self.rooms@[i].code@ == k].seats@,
        )
    }
}

impl RoomServer {
    /// No two rooms share a code.
    pub closed spec fn wf(&self) -> bool {
        forall|i: int, j: int|
            0 <= i < self.rooms@.len() && 0 <= j < self.rooms@.len() && i != j
                ==> self.rooms@[i].code@ != self.rooms@[j].code@
    }

    /// The codes of the rooms, in the order in which they were first created.
    pub closed spec fn codes(&self) -> Seq<Seq<char>> {
        self.rooms@.map_values(|r: Room| r.code@)
    }

    proof fn lemma_view_at(&self, i: int)
        requires
            self.wf(),
            0 <= i < self.rooms@.len(),
        ensures
            self@.contains_key(self.rooms@[i].code@),
            self@[self.rooms@[i].code@] == self.rooms@[i].seats@,
    {
        let k = self.rooms@[i].code@;
        let j = choose|j: int| 0 <= j < self.rooms@.len() && self.rooms@[j].code@ == k;
        assert(0 <= j < self.rooms@.len() && self.rooms@[j].code@ == k);
    }

    /// Replacing room `i` by a room with the same code replaces its seats.
    proof fn lemma_replace(old: &RoomServer, new: &RoomServer, i: int)
        requires
            old.wf(),
            0 <= i < old.rooms@.len(),
            new.rooms@.len() == old.rooms@.len(),
            new.rooms@[i].code@ == old.rooms@[i].code@,
            forall|j: int| 0 <= j < old.rooms@.len() && j != i ==> new.rooms@[j] == old.rooms@[j],
        ensures
            new.wf(),
            new@ == old@.insert(old.rooms@[i].code@, new.rooms@[i].seats@),
            new.codes() == old.codes(),
    {
        assert forall|a: int, b: int|
            0 <= a < new.rooms@.len() && 0 <= b < new.rooms@.len() && a != b implies new.rooms@[a].code@
                != new.rooms@[b].code@ by {
            assert(new.rooms@[a].code@ == old.rooms@[a].code@);
            assert(new.rooms@[b].code@ == old.rooms@[b].code@);
        }
        let k = old.rooms@[i].code@;
        assert forall|c: Seq<char>| #[trigger] new@.contains_key(c) == old@.insert(k, new.rooms@[i].seats@).contains_key(c) by {
            if old@.contains_key(c) {
                let j = choose|j: int| 0 <= j < old.rooms@.len() && old.rooms@[j].code@ == c;
                assert(new.rooms@[j].code@ == c);
            }
            if new@.contains_key(c) {
                let j = choose|j: int| 0 <= j < new.rooms@.len() && new.rooms@[j].code@ == c;
                assert(old.rooms@[j].code@ == c);
            }
        }
        assert forall|c: Seq<char>| #[trigger] new@.contains_key(c) implies new@[c] == old@.insert(k, new.rooms@[i].seats@)[c] by {
            let j = choose|j: int| 0 <= j < new.rooms@.len() && new.rooms@[j].code@ == c;
            new.lemma_view_at(j);
            if j != i {
                old.lemma_view_at(j);
            }
        }
        assert(new@ =~= old@.insert(k, new.rooms@[i].seats@));
        assert(new.codes() =~= old.codes());
    }

    /// Appending a room with a fresh code adds it to the map.
    proof fn lemma_append(old: &RoomServer, new: &RoomServer)
        requires
            old.wf(),
            new.rooms@.len() == old.rooms@.len() + 1,
            forall|j: int| 0 <= j < old.rooms@.len() ==> new.rooms@[j] == old.rooms@[j],
            !old@.contains_key(new.rooms@.last().code@),
        ensures
            new.wf(),
            new@ == old@.insert(new.rooms@.last().code@, new.rooms@.last().seats@),
            new.codes() == old.codes().push(new.rooms@.last().code@),
    {
        let n = old.rooms@.len() as int;
        let k = new.rooms@[n].code@;
        assert forall|j: int| 0 <= j < n implies old.rooms@[j].code@ != k by {
            old.lemma_view_at(j);
        }
        assert forall|c: Seq<char>| #[trigger] new@.contains_key(c) == old@.insert(k, new.rooms@[n].seats@).contains_key(c) by {
            if old@.contains_key(c) {
                let j = choose|j: int| 0 <= j < old.rooms@.len() && old.rooms@[j].code@ == c;
                assert(new.rooms@[j].code@ == c);
            }
            if new@.contains_key(c) {
                let j = choose|j: int| 0 <= j < new.rooms@.len() && new.rooms@[j].code@ == c;
                if j < n {
                    assert(old.rooms@[j].code@ == c);
                }
            }
        }
        assert forall|c: Seq<char>| #[trigger] new@.contains_key(c) implies new@[c] == old@.insert(k, new.rooms@[n].seats@)[c] by {
            let j = choose|j: int| 0 <= j < new.rooms@.len() && new.rooms@[j].code@ == c;
            new.lemma_view_at(j);
            if j != n {
                old.lemma_view_at(j);
            }
        }
        assert(new@ =~= old@.insert(k, new.rooms@[n].seats@));
        assert(new.codes() =~= old.codes().push(k));
    }

    /// An empty registry.
    pub fn new() -> (r: RoomServer)
        ensures
            r.wf(),
            r@ == Map::<Seq<char>, Seq<Option<PlayerInfo>>>::empty(),
            r.codes() == Seq::<Seq<char>>::empty(),
    {
        let r = RoomServer { rooms: Vec::new() };
        assert(r@ =~= Map::<Seq<char>, Seq<Option<PlayerInfo>>>::empty());
        assert(r.codes() =~= Seq::<Seq<char>>::empty());
        r
    }

    /// The index of the room with the given code.
    fn find(&self, code: &String) -> (r: Option<usize>)
        requires
            self.wf(),
        ensures
            match r {
                Some(i) => {
                    &&& i < self.rooms@.len()
                    &&& self.rooms@[i as int].code@ == code@
                    &&& self@.contains_key(code@)
                    &&& self@[code@] == self.rooms@[i as int].seats@
                },
                None => !self@.contains_key(code@),
            },
    {
        let mut i: usize = 0;
        while i < self.rooms.len()
            invariant
                self.wf(),
                i <= self.rooms@.len(),
                forall|j: int| 0 <= j < i ==> self.rooms@[j].code@ != code@,
            decreases self.rooms@.len() - i,
        {
            if self.rooms[i].code == *code {
                proof {
                    self.lemma_view_at(i as int);
                }
                return Some(i);
            }
            i = i + 1;
        }
        None
    }

    /// Whether a room with the given code exists.
    pub fn contains(&self, code: &String) -> (r: bool)
        requires
            self.wf(),
        ensures
            r == self@.contains_key(code@),
    {
        self.find(code).is_some()
    }

    /// Creates room `code` holding only the session `addr`, as player `pid`
    /// at seat 0, and tells that session. A room that already has the code
    /// is replaced.
    pub fn create_room_with(&mut self, addr: u64, code: String, pid: String) -> (out: Vec<Delivery>)
        requires
            old(self).wf(),
        ensures
            final(self).wf(),
            created(old(self)@, final(self)@, addr, code@, pid, events(out@)),
            final(self).codes() == if old(self)@.contains_key(code@) {
                old(self).codes()
            } else {
                old(self).codes().push(code@)
            },
    {
        let me = Player { id: pid.clone(), c: None, i: Some(0) };
        let mut seats: Vec<Option<PlayerInfo>> = Vec::new();
        seats.push(Some(PlayerInfo { id: pid, c: None, addr }));
        let info = RoomInfo { code: code.clone(), players: vec![Some(me.duplicate())] };
        let ghost old_server = *self;
        let ghost seats_view = seats@;
        match self.find(&code) {
            Some(i) => {
                self.rooms.set(i, Room { code: code.clone(), seats });
                proof {
                    RoomServer::lemma_replace(&old_server, self, i as int);
                }
            },
            None => {
                self.rooms.push(Room { code: code.clone(), seats });
                proof {
                    RoomServer::lemma_append(&old_server, self);
                }
            },
        }
        let mut out: Vec<Delivery> = Vec::new();
        out.push(Delivery { to: addr, msg: Response::You(me) });
        out.push(Delivery { to: addr, msg: Response::RoomInfo(info) });
        proof {
            assert(snapshot(seats_view) =~= info.players@);
            assert(events(out@) =~= seq![
                (addr, Event::You(me)),
                (addr, Event::RoomInfo { code: code@, players: snapshot(seats_view) }),
            ]);
        }
        out
    }

    /// Creates a room under a fresh random code for the session `msg.addr`,
    /// with a fresh random player id.
    pub fn create_room(&mut self, msg: CreateRoom) -> (out: Vec<Delivery>)
        requires
            old(self).wf(),
        ensures
            final(self).wf(),
            exists|code: Seq<char>, pid: String|
                {
                    &&& is_room_code(code)
                    &&& is_player_id(pid@)
                    &&& created(old(self)@, final(self)@, msg.addr, code, pid, events(out@))
                },
    {
        let code = generate_room_code();
        let pid = generate_player_id();
        let ghost c = code@;
        let out = self.create_room_with(msg.addr, code, pid);
        assert(created(old(self)@, self@, msg.addr, c, pid, events(out@)));
        out
    }
    /// The session `addr` joins room `code` as player `pid`: it takes the
    /// lowest vacated seat, or the next seat past the end. It is told its
    /// seat, then every earlier occupant hears of it, then it receives the
    /// room's snapshot. Without such a room it receives the empty snapshot
    /// and nothing changes.
    pub fn join_room_with(&mut self, addr: u64, code: String, pid: String) -> (out: Vec<Delivery>)
        requires
            old(self).wf(),
        ensures
            final(self).wf(),
            final(self).codes() == old(self).codes(),
            joined(old(self)@, final(self)@, addr, code@, pid, events(out@)),
    {
        let mut out: Vec<Delivery> = Vec::new();
        match self.find(&code) {
            None => {
                out.push(Delivery { to: addr, msg: no_room_info() });
                assert(events(out@) =~= seq![(addr, no_room())]);
            },
            Some(i) => {
                let ghost old_server = *self;
                let ghost seats = self.rooms@[i as int].seats@;
                let pos = vacant_index(&self.rooms[i].seats);
                let me = Player { id: pid.clone(), c: None, i: Some(pos) };
                out.push(Delivery { to: addr, msg: Response::You(me.duplicate()) });
                let ghost head = events(out@);
                assert(head =~= seq![(addr, Event::You(me))]);
                fan_out_into(&mut out, &self.rooms[i].seats, &None, &Response::Player(me));
                let p = PlayerInfo { id: pid, c: None, addr };
                if pos < self.rooms[i].seats.len() {
                    self.rooms[i].seats.set(pos, Some(p));
                } else {
                    self.rooms[i].seats.push(Some(p));
                }
                proof {
                    RoomServer::lemma_replace(&old_server, self, i as int);
                    assert(self.rooms@[i as int].seats@ =~= seated(seats, pos as int, p));
                }
                let info = RoomInfo { code: code.clone(), players: snapshot_of(&self.rooms[i].seats) };
                let ghost mid = events(out@);
                out.push(Delivery { to: addr, msg: Response::RoomInfo(info) });
                assert(events(out@) =~= mid.push((addr, Response::RoomInfo(info)@)));
                assert(events(out@) =~= seq![(addr, Event::You(me))] + fan_out(
                    seats,
                    None,
                    Event::Player(me),
                ) + seq![
                    (
                        addr,
                        Event::RoomInfo {
                            code: code@,
                            players: snapshot(seated(seats, pos as int, p)),
                        },
                    ),
                ]);
            },
        }
        out
    }

    /// The session `msg.addr` joins room `msg.code` under a fresh random
    /// player id.
    pub fn join_room(&mut self, msg: JoinRoom) -> (out: Vec<Delivery>)
        requires
            old(self).wf(),
        ensures
            final(self).wf(),
            final(self).codes() == old(self).codes(),
            exists|pid: String|
                {
                    &&& old(self)@.contains_key(msg.code@) ==> is_player_id(pid@)
                    &&& joined(old(self)@, final(self)@, msg.addr, msg.code@, pid, events(out@))
                },
    {
        let pid = if self.contains(&msg.code) {
            generate_player_id()
        } else {
            String::new()
        };
        let ghost id = pid;
        let out = self.join_room_with(msg.addr, msg.code, pid);
        assert(joined(old(self)@, self@, msg.addr, msg.code@, id, events(out@)));
        out
    }

    /// The player `msg.id` leaves room `msg.room`: each seat it held is
    /// vacated, not removed, and every remaining occupant hears of it. Where
    /// either is missing or absent, nothing happens.
    pub fn disconnect(&mut self, msg: Disconnect) -> (out: Vec<Delivery>)
        requires
            old(self).wf(),
        ensures
            final(self).wf(),
            final(self).codes() == old(self).codes(),
            left(old(self)@, final(self)@, msg.id, msg.room, events(out@)),
    {
        let mut out: Vec<Delivery> = Vec::new();
        let (code, id) = match (msg.room, msg.id) {
            (Some(code), Some(id)) => (code, id),
            _ => {
                assert(events(out@) =~= Seq::<(u64, Event)>::empty());
                return out;
            },
        };
        let i = match self.find(&code) {
            Some(i) => i,
            None => {
                assert(events(out@) =~= Seq::<(u64, Event)>::empty());
                return out;
            },
        };
        let ghost old_server = *self;
        let ghost seats = self.rooms@[i as int].seats@;
        let mut found = false;
        let mut j: usize = 0;
        while j < self.rooms[i].seats.len()
            invariant
                old_server.wf(),
                i < old_server.rooms@.len(),
                seats == old_server.rooms@[i as int].seats@,
                self.rooms@.len() == old_server.rooms@.len(),
                self.rooms@[i as int].code == old_server.rooms@[i as int].code,
                forall|k: int| 0 <= k < self.rooms@.len() && k != i ==> self.rooms@[k] == old_server.rooms@[k],
                self.rooms@[i as int].seats@.len() == seats.len(),
                j <= seats.len(),
                forall|k: int| 0 <= k < j ==> self.rooms@[i as int].seats@[k] == vacate(seats, id@)[k],
                forall|k: int| j <= k < seats.len() ==> self.rooms@[i as int].seats@[k] == seats[k],
                found == exists|k: int| 0 <= k < j && holds(#[trigger] seats[k], id@),
            decreases seats.len() - j,
        {
            let here = match &self.rooms[i].seats[j] {
                Some(p) => p.id == id,
                None => false,
            };
            assert(here == holds(seats[j as int], id@));
            if here {
                self.rooms[i].seats.set(j, None);
                found = true;
            }
            j = j + 1;
        }
        proof {
            RoomServer::lemma_replace(&old_server, self, i as int);
            assert(self.rooms@[i as int].seats@ =~= vacate(seats, id@));
        }
        if !found {
            proof {
                assert(vacate(seats, id@) =~= seats);
                assert(self@ =~= old_server@);
            }
            assert(events(out@) =~= Seq::<(u64, Event)>::empty());
            return out;
        }
        let gone = Response::Player(Player { id: id.clone(), c: None, i: Some(VACATED) });
        fan_out_into(&mut out, &self.rooms[i].seats, &None, &gone);
        assert(events(out@) =~= fan_out(vacate(seats, id@), None, departure(id)));
        out
    }

    /// Passes `msg.msg` to every occupant of room `msg.room` but the player
    /// `msg.id`; nothing where there is no such room.
    pub fn to_room(&self, msg: &ToRoom) -> (out: Vec<Delivery>)
        requires
            self.wf(),
        ensures
            events(out@) == if self@.contains_key(msg.room@) {
                fan_out(self@[msg.room@], Some(msg.id@), msg.msg@)
            } else {
                Seq::<(u64, Event)>::empty()
            },
    {
        let mut out: Vec<Delivery> = Vec::new();
        assert(events(out@) =~= Seq::<(u64, Event)>::empty());
        if let Some(i) = self.find(&msg.room) {
            fan_out_into(&mut out, &self.rooms[i].seats, &Some(msg.id.clone()), &msg.msg);
        }
        out
    }

    /// Sends `msg.text` as an alert to every occupant of room `msg.room`, or
    /// of every room, room by room in order of creation.
    pub fn broadcast(&self, msg: &Broadcast) -> (out: Vec<Delivery>)
        requires
            self.wf(),
        ensures
            events(out@) == match msg.room {
                Some(code) => if self@.contains_key(code@) {
                    fan_out(self@[code@], None, Event::Alert(msg.text@))
                } else {
                    Seq::<(u64, Event)>::empty()
                },
                None => fan_out_all(self@, self.codes(), Event::Alert(msg.text@)),
            },
    {
        let alert = Response::Alert(Chat { msg: msg.text.clone() });
        let mut out: Vec<Delivery> = Vec::new();
        assert(events(out@) =~= Seq::<(u64, Event)>::empty());
        match &msg.room {
            Some(code) => {
                if let Some(i) = self.find(code) {
                    fan_out_into(&mut out, &self.rooms[i].seats, &None, &alert);
                }
            },
            None => {
                let mut i: usize = 0;
                while i < self.rooms.len()
                    invariant
                        self.wf(),
                        i <= self.rooms@.len(),
                        alert@ == Event::Alert(msg.text@),
                        events(out@) == fan_out_all(self@, self.codes().take(i as int), alert@),
                    decreases self.rooms@.len() - i,
                {
                    proof {
                        self.lemma_view_at(i as int);
                        assert(self.codes().take(i + 1).drop_last() =~= self.codes().take(i as int));
                    }
                    fan_out_into(&mut out, &self.rooms[i].seats, &None, &alert);
                    i = i + 1;
                }
                assert(self.codes().take(i as int) =~= self.codes());
            },
        }
        out
    }

    /// Sends the session `addr` the snapshot of room `code`, or the empty
    /// snapshot where there is no such room.
    pub fn room_snapshot(&self, addr: u64, code: &String) -> (out: Vec<Delivery>)
        requires
            self.wf(),
        ensures
            events(out@) == seq![
                (
                    addr,
                    if self@.contains_key(code@) {
                        Event::RoomInfo { code: code@, players: snapshot(self@[code@]) }
                    } else {
                        no_room()
                    },
                ),
            ],
    {
        let msg = match self.find(code) {
            Some(i) => Response::RoomInfo(
                RoomInfo { code: code.clone(), players: snapshot_of(&self.rooms[i].seats) },
            ),
            None => no_room_info(),
        };
        let mut out: Vec<Delivery> = Vec::new();
        out.push(Delivery { to: addr, msg });
        assert(events(out@) =~= seq![(addr, msg@)]);
        out
    }
}

} // verus!
