//! Guarantees of the registry, proved over the spec functions with which its
//! operations are specified.
use vstd::prelude::*;

use crate::protocol::{Event, Player};
use crate::registry::{
    departure, fan_out, holds, joined, left, occupies, receives, seated, snapshot, vacant_seat,
    vacate, PlayerInfo,
};

verus! {

/// A change to one room's seats: a player joins, or a player leaves.
pub enum SeatChange {
    Join { id: String, addr: u64 },
    Leave { id: Seq<char> },
}

/// The seats after one change, as `join_room_with` and `disconnect` make it.
pub open spec fn apply_change(seats: Seq<Option<PlayerInfo>>, ch: SeatChange) -> Seq<
    Option<PlayerInfo>,
> {
    match ch {
        SeatChange::Join { id, addr } => seated(
            seats,
            vacant_seat(seats),
            PlayerInfo { id, c: None, addr },
        ),
        SeatChange::Leave { id } => vacate(seats, id),
    }
}

/// The seats after a sequence of changes, in order.
pub open spec fn apply_changes(seats: Seq<Option<PlayerInfo>>, changes: Seq<SeatChange>) -> Seq<
    Option<PlayerInfo>,
>
    decreases changes.len(),
{
    if changes.len() == 0 {
        seats
    } else {
        apply_change(apply_changes(seats, changes.drop_last()), changes.last())
    }
}

/// No player id sits in two seats.
pub open spec fn distinct_ids(seats: Seq<Option<PlayerInfo>>) -> bool {
    forall|i: int, j: int|
        0 <= i < seats.len() && 0 <= j < seats.len() && i != j && seats[i] is Some && seats[j] is Some
            ==> #[trigger] seats[i]->Some_0.id@ != #[trigger] seats[j]->Some_0.id@
}

/// Each join in `changes` brings an id that no seat holds at that moment.
pub open spec fn fresh_joins(seats: Seq<Option<PlayerInfo>>, changes: Seq<SeatChange>) -> bool {
    forall|k: int|
        0 <= k < changes.len() && (#[trigger] changes[k]) is Join ==> !occupies(
            apply_changes(seats, changes.take(k)),
            changes[k]->Join_id@,
        )
}

/// The number of occupied seats.
pub open spec fn occupied(seats: Seq<Option<PlayerInfo>>) -> nat
    decreases seats.len(),
{
    if seats.len() == 0 {
        0
    } else {
        occupied(seats.drop_last()) + if seats.last() is Some {
            1nat
        } else {
            0nat
        }
    }
}

/// The number of occupants with session `a` that an event skipping `skip`
/// goes to.
pub open spec fn receivers_at(seats: Seq<Option<PlayerInfo>>, skip: Option<Seq<char>>, a: u64) -> nat
    decreases seats.len(),
{
    if seats.len() == 0 {
        0
    } else {
        receivers_at(seats.drop_last(), skip, a) + if receives(seats.last(), skip)
            && seats.last()->Some_0.addr == a {
            1nat
        } else {
            0nat
        }
    }
}

/// The number of deliveries to session `a` whose event satisfies `f`.
pub open spec fn count_to(out: Seq<(u64, Event)>, a: u64, f: spec_fn(Event) -> bool) -> nat
    decreases out.len(),
{
    if out.len() == 0 {
        0
    } else {
        count_to(out.drop_last(), a, f) + if out.last().0 == a && f(out.last().1) {
            1nat
        } else {
            0nat
        }
    }
}

pub open spec fn you_kind() -> spec_fn(Event) -> bool {
    |e: Event| e is You
}

pub open spec fn player_kind() -> spec_fn(Event) -> bool {
    |e: Event| e is Player
}

pub open spec fn room_kind() -> spec_fn(Event) -> bool {
    |e: Event| e is RoomInfo
}

pub open spec fn any_kind() -> spec_fn(Event) -> bool {
    |x: Event| true
}

/// The number of deliveries of exactly `e` to session `a`.
pub open spec fn count_of(out: Seq<(u64, Event)>, a: u64, e: Event) -> nat
    decreases out.len(),
{
    if out.len() == 0 {
        0
    } else {
        count_of(out.drop_last(), a, e) + if out.last() == (a, e) {
            1nat
        } else {
            0nat
        }
    }
}

proof fn lemma_count_of_fan_out(seats: Seq<Option<PlayerInfo>>, skip: Option<Seq<char>>, e: Event, a: u64)
    ensures
        count_of(fan_out(seats, skip, e), a, e) == receivers_at(seats, skip, a),
        count_of(fan_out(seats, skip, e), a, e) == count_to(fan_out(seats, skip, e), a, any_kind()),
    decreases seats.len(),
{
    if seats.len() > 0 {
        lemma_count_of_fan_out(seats.drop_last(), skip, e, a);
        let rest = fan_out(seats.drop_last(), skip, e);
        if receives(seats.last(), skip) {
            assert(rest.push((seats.last()->Some_0.addr, e)).drop_last() =~= rest);
        }
    }
}

proof fn lemma_count_single(x: (u64, Event), a: u64, f: spec_fn(Event) -> bool)
    ensures
        count_to(seq![x], a, f) == if x.0 == a && f(x.1) {
            1nat
        } else {
            0nat
        },
{
    let one = seq![x];
    assert(one.drop_last() =~= Seq::<(u64, Event)>::empty());
    assert(one.last() == x);
    assert(count_to(one.drop_last(), a, f) == 0);
    assert(count_to(one, a, f) == count_to(one.drop_last(), a, f) + if x.0 == a && f(x.1) {
        1nat
    } else {
        0nat
    });
}

/// The deliveries of a join: "you", then the fan-out, then "room".
proof fn lemma_count_join(
    you: (u64, Event),
    fan: Seq<(u64, Event)>,
    room: (u64, Event),
    a: u64,
    f: spec_fn(Event) -> bool,
)
    ensures
        count_to(seq![you] + fan + seq![room], a, f) == count_to(seq![you], a, f) + count_to(fan, a, f)
            + count_to(seq![room], a, f),
{
    lemma_count_concat(seq![you] + fan, seq![room], a, f);
    lemma_count_concat(seq![you], fan, a, f);
}

proof fn lemma_count_concat(x: Seq<(u64, Event)>, y: Seq<(u64, Event)>, a: u64, f: spec_fn(Event) -> bool)
    ensures
        count_to(x + y, a, f) == count_to(x, a, f) + count_to(y, a, f),
    decreases y.len(),
{
    if y.len() == 0 {
        assert(x + y =~= x);
    } else {
        assert((x + y).drop_last() =~= x + y.drop_last());
        lemma_count_concat(x, y.drop_last(), a, f);
    }
}

proof fn lemma_count_fan_out(
    seats: Seq<Option<PlayerInfo>>,
    skip: Option<Seq<char>>,
    e: Event,
    a: u64,
    f: spec_fn(Event) -> bool,
)
    ensures
        count_to(fan_out(seats, skip, e), a, f) == if f(e) {
            receivers_at(seats, skip, a)
        } else {
            0
        },
    decreases seats.len(),
{
    if seats.len() > 0 {
        lemma_count_fan_out(seats.drop_last(), skip, e, a, f);
        let rest = fan_out(seats.drop_last(), skip, e);
        if receives(seats.last(), skip) {
            assert(rest.push((seats.last()->Some_0.addr, e)).drop_last() =~= rest);
        }
    }
}

proof fn lemma_vacant_seat(seats: Seq<Option<PlayerInfo>>)
    ensures
        0 <= vacant_seat(seats) <= seats.len(),
        vacant_seat(seats) < seats.len() ==> seats[vacant_seat(seats)] is None,
        forall|k: int| 0 <= k < vacant_seat(seats) ==> seats[k] is Some,
    decreases seats.len(),
{
    if seats.len() > 0 {
        lemma_vacant_seat(seats.drop_last());
        assert forall|k: int| 0 <= k < seats.len() - 1 implies seats.drop_last()[k] == seats[k] by {}
    }
}

proof fn lemma_occupied_bounds(seats: Seq<Option<PlayerInfo>>)
    ensures
        occupied(seats) <= seats.len(),
        occupied(seats) == seats.len() ==> forall|k: int| 0 <= k < seats.len() ==> seats[k] is Some,
    decreases seats.len(),
{
    if seats.len() > 0 {
        lemma_occupied_bounds(seats.drop_last());
        if occupied(seats) == seats.len() {
            assert forall|k: int| 0 <= k < seats.len() implies seats[k] is Some by {
                if k < seats.len() - 1 {
                    assert(seats.drop_last()[k] == seats[k]);
                }
            }
        }
    }
}

proof fn lemma_change_keeps_length(seats: Seq<Option<PlayerInfo>>, ch: SeatChange)
    ensures
        apply_change(seats, ch).len() >= seats.len(),
{
    lemma_vacant_seat(seats);
}

/// Seats are never removed: along any sequence of joins and departures on
/// one room, the number of seats never decreases.
pub proof fn lemma_seats_never_shrink(seats: Seq<Option<PlayerInfo>>, changes: Seq<SeatChange>)
    ensures
        forall|a: int, b: int|
            0 <= a <= b <= changes.len() ==> #[trigger] apply_changes(seats, changes.take(a)).len()
                <= #[trigger] apply_changes(seats, changes.take(b)).len(),
    decreases changes.len(),
{
    if changes.len() > 0 {
        let n = changes.len() as int;
        let prefix = changes.drop_last();
        lemma_seats_never_shrink(seats, prefix);
        assert forall|a: int| 0 <= a <= n - 1 implies #[trigger] changes.take(a) == prefix.take(a) by {
            assert(changes.take(a) =~= prefix.take(a));
        }
        assert(changes.take(n) =~= changes);
        assert(prefix.take(n - 1) =~= prefix);
        lemma_change_keeps_length(apply_changes(seats, prefix), changes.last());
        assert forall|a: int, b: int|
            0 <= a <= b <= changes.len() implies #[trigger] apply_changes(seats, changes.take(a)).len()
                <= #[trigger] apply_changes(seats, changes.take(b)).len() by {
            if b < n {
                assert(changes.take(a) == prefix.take(a));
                assert(changes.take(b) == prefix.take(b));
            } else if a < n {
                assert(changes.take(a) == prefix.take(a));
                assert(apply_changes(seats, prefix.take(a)).len() <= apply_changes(
                    seats,
                    prefix.take(n - 1),
                ).len());
            }
        }
    } else {
        assert forall|a: int, b: int|
            0 <= a <= b <= changes.len() implies #[trigger] apply_changes(seats, changes.take(a)).len()
                <= #[trigger] apply_changes(seats, changes.take(b)).len() by {
            assert(changes.take(a) =~= changes.take(b));
        }
    }
}

proof fn lemma_change_keeps_ids_distinct(seats: Seq<Option<PlayerInfo>>, ch: SeatChange)
    requires
        distinct_ids(seats),
        ch is Join ==> !occupies(seats, ch->Join_id@),
    ensures
        distinct_ids(apply_change(seats, ch)),
{
    let after = apply_change(seats, ch);
    match ch {
        SeatChange::Join { id, addr } => {
            lemma_vacant_seat(seats);
            let pos = vacant_seat(seats);
            assert forall|i: int, j: int|
                0 <= i < after.len() && 0 <= j < after.len() && i != j && after[i] is Some
                    && after[j] is Some implies #[trigger] after[i]->Some_0.id@
                    != #[trigger] after[j]->Some_0.id@ by {
                if i == pos {
                    assert(!holds(seats[j], id@));
                } else if j == pos {
                    assert(!holds(seats[i], id@));
                }
            }
        },
        SeatChange::Leave { id } => {},
    }
}

/// Where every join brings an id that no seat holds at that moment, no
/// player id ever sits in two seats. (Ids are drawn at random and a clash is
/// not ruled out; that is the one way in which the statement can fail.)
pub proof fn lemma_ids_stay_distinct(seats: Seq<Option<PlayerInfo>>, changes: Seq<SeatChange>)
    requires
        distinct_ids(seats),
        fresh_joins(seats, changes),
    ensures
        distinct_ids(apply_changes(seats, changes)),
    decreases changes.len(),
{
    if changes.len() > 0 {
        let n = changes.len() - 1;
        let prefix = changes.drop_last();
        assert forall|k: int| 0 <= k < prefix.len() && (#[trigger] prefix[k]) is Join implies !occupies(
            apply_changes(seats, prefix.take(k)),
            prefix[k]->Join_id@,
        ) by {
            assert(prefix.take(k) =~= changes.take(k));
            assert(changes[k] == prefix[k]);
        }
        lemma_ids_stay_distinct(seats, prefix);
        assert(changes.take(n) =~= prefix);
        if changes[n] is Join {
            assert(!occupies(apply_changes(seats, changes.take(n)), changes[n]->Join_id@));
        }
        lemma_change_keeps_ids_distinct(apply_changes(seats, prefix), changes.last());
    }
}

/// Joining a room with N occupants hands each occupant one "player" event
/// (one per seat that a session holds), and the joiner one "you" event and,
/// after it, one "room" event. That snapshot has N + 1 slots where the room
/// had at most one vacated seat; with more, a vacated seat stays in it.
pub proof fn lemma_join_announces(
    old: Map<Seq<char>, Seq<Option<PlayerInfo>>>,
    new: Map<Seq<char>, Seq<Option<PlayerInfo>>>,
    addr: u64,
    code: Seq<char>,
    pid: String,
    out: Seq<(u64, Event)>,
)
    requires
        joined(old, new, addr, code, pid, out),
        old.contains_key(code),
    ensures
        forall|a: u64| #[trigger] count_to(out, a, player_kind()) == receivers_at(old[code], None, a),
        count_to(out, addr, you_kind()) == 1,
        count_to(out, addr, room_kind()) == 1,
        out[0] == (addr, out[0].1) && out[0].1 is You,
        out.last() == (addr, out.last().1) && out.last().1 is RoomInfo,
        old[code].len() <= occupied(old[code]) + 1 ==> out.last().1->RoomInfo_players.len()
            == occupied(old[code]) + 1,
{
    let seats = old[code];
    let pos = vacant_seat(seats);
    let me = Player { id: pid, c: None, i: Some(pos as usize) };
    let after = seated(seats, pos, PlayerInfo { id: pid, c: None, addr });
    let you = (addr, Event::You(me));
    let fan = fan_out(seats, None, Event::Player(me));
    let room = (addr, Event::RoomInfo { code, players: snapshot(after) });
    assert(out == seq![you] + fan + seq![room]);
    assert forall|a: u64| #[trigger] count_to(out, a, player_kind()) == receivers_at(seats, None, a) by {
        lemma_count_join(you, fan, room, a, player_kind());
        lemma_count_single(you, a, player_kind());
        lemma_count_single(room, a, player_kind());
        lemma_count_fan_out(seats, None, Event::Player(me), a, player_kind());
    }
    lemma_count_join(you, fan, room, addr, you_kind());
    lemma_count_single(you, addr, you_kind());
    lemma_count_single(room, addr, you_kind());
    lemma_count_fan_out(seats, None, Event::Player(me), addr, you_kind());
    lemma_count_join(you, fan, room, addr, room_kind());
    lemma_count_single(you, addr, room_kind());
    lemma_count_single(room, addr, room_kind());
    lemma_count_fan_out(seats, None, Event::Player(me), addr, room_kind());
    assert((seq![you] + fan + seq![room])[0] == you);
    lemma_vacant_seat(seats);
    lemma_occupied_bounds(seats);
    if seats.len() <= occupied(seats) + 1 {
        if occupied(seats) < seats.len() {
            if pos == seats.len() {
                lemma_some_vacant(seats);
            }
        }
    }
}

proof fn lemma_some_vacant(seats: Seq<Option<PlayerInfo>>)
    requires
        occupied(seats) < seats.len(),
    ensures
        exists|k: int| 0 <= k < seats.len() && seats[k] is None,
    decreases seats.len(),
{
    if seats.last() is Some {
        lemma_some_vacant(seats.drop_last());
        let k = choose|k: int| 0 <= k < seats.drop_last().len() && seats.drop_last()[k] is None;
        assert(seats[k] is None);
    } else {
        assert(seats[seats.len() - 1] is None);
    }
}

/// A departure removes the player from the room, keeps every seat (its own
/// ones show as vacant in the next snapshot), and hands one "player left"
/// event to each remaining occupant.
pub proof fn lemma_departure_vacates(
    old: Map<Seq<char>, Seq<Option<PlayerInfo>>>,
    new: Map<Seq<char>, Seq<Option<PlayerInfo>>>,
    id: String,
    room: String,
    out: Seq<(u64, Event)>,
)
    requires
        left(old, new, Some(id), Some(room), out),
        old.contains_key(room@),
        occupies(old[room@], id@),
    ensures
        new.contains_key(room@),
        !occupies(new[room@], id@),
        new[room@].len() == old[room@].len(),
        forall|j: int|
            0 <= j < old[room@].len() && holds(old[room@][j], id@) ==> #[trigger] snapshot(
                new[room@],
            )[j] is None,
        forall|a: u64| #[trigger] count_of(out, a, departure(id)) == receivers_at(new[room@], None, a),
        forall|a: u64| #[trigger] count_to(out, a, any_kind()) == count_of(out, a, departure(id)),
{
    let after = vacate(old[room@], id@);
    assert(new[room@] == after);
    assert forall|a: u64| #[trigger] count_of(out, a, departure(id)) == receivers_at(after, None, a) by {
        lemma_count_of_fan_out(after, None, departure(id), a);
    }
    assert forall|a: u64| #[trigger] count_to(out, a, any_kind()) == count_of(out, a, departure(id)) by {
        lemma_count_of_fan_out(after, None, departure(id), a);
    }
}

/// A relay never reaches the sender: each other occupant receives the
/// payload exactly once (a session receives it once for each seat that it
/// holds other than the sender's), and a session whose seats are all the
/// sender's receives nothing.
pub proof fn lemma_relay_skips_sender(
    seats: Seq<Option<PlayerInfo>>,
    sender: Seq<char>,
    e: Event,
    a: u64,
)
    ensures
        count_of(fan_out(seats, Some(sender), e), a, e) == receivers_at(seats, Some(sender), a),
        count_to(fan_out(seats, Some(sender), e), a, any_kind()) == count_of(fan_out(seats, Some(sender), e), a, e),
        (forall|j: int|
            0 <= j < seats.len() && seats[j] is Some && (#[trigger] seats[j])->Some_0.addr == a
                ==> seats[j]->Some_0.id@ == sender) ==> count_to(fan_out(seats, Some(sender), e), a, any_kind()) == 0,
    decreases seats.len(),
{
    lemma_count_of_fan_out(seats, Some(sender), e, a);
    lemma_count_fan_out(seats, Some(sender), e, a, any_kind());
    if forall|j: int|
        0 <= j < seats.len() && seats[j] is Some && (#[trigger] seats[j])->Some_0.addr == a
            ==> seats[j]->Some_0.id@ == sender {
        lemma_no_receivers(seats, sender, a);
    }
}

proof fn lemma_no_receivers(seats: Seq<Option<PlayerInfo>>, sender: Seq<char>, a: u64)
    requires
        forall|j: int|
            0 <= j < seats.len() && seats[j] is Some && (#[trigger] seats[j])->Some_0.addr == a
                ==> seats[j]->Some_0.id@ == sender,
    ensures
        receivers_at(seats, Some(sender), a) == 0,
    decreases seats.len(),
{
    if seats.len() > 0 {
        assert forall|j: int|
            0 <= j < seats.drop_last().len() && seats.drop_last()[j] is Some && (#[trigger] seats.drop_last()[j])->Some_0.addr == a
                implies seats.drop_last()[j]->Some_0.id@ == sender by {
            assert(seats.drop_last()[j] == seats[j]);
        }
        lemma_no_receivers(seats.drop_last(), sender, a);
        assert(seats.last() == seats[seats.len() - 1]);
    }
}

} // verus!
