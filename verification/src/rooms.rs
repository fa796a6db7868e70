//! The rooms that have been entered since the service started, and what is played in each.

use tokio::sync::broadcast::{Receiver, Sender};
use vstd::prelude::*;

use crate::channel;
use crate::channel::{sender_of, slots};
use crate::string_map::StringMap;
use crate::tracks::{copy_tracks, tracks_view, Track, TrackView};

verus! {

/// How many messages the channel of a room is made for.
pub const CHANNEL_CAPACITY: usize = 100;

/// A room: its channel, and the track of each listener by display name.
pub struct Room {
    tx: Sender<String>,
    tracks: StringMap<Track>,
    users: StringMap<()>,
}

/// A room as its channel, its tracks and its users.
#[verifier::ext_equal]
pub struct RoomView {
    pub tx: Sender<String>,
    pub tracks: Map<Seq<char>, TrackView>,
    pub users: Set<Seq<char>>,
}

impl View for Room {
    type V = RoomView;

    closed spec fn view(&self) -> RoomView {
        RoomView { tx: self.tx, tracks: tracks_view(self.tracks@), users: self.users@.dom() }
    }
}

impl Room {
    pub closed spec fn wf(&self) -> bool {
        self.tracks.wf() && self.users.wf()
    }

    /// A room in which nobody plays anything.
    pub fn new(tx: Sender<String>) -> (room: Self)
        ensures
            room.wf(),
            room@ == empty_room(tx),
    {
        let room = Room { tx, tracks: StringMap::new(), users: StringMap::new() };
        assert(room@.tracks =~= empty_room(tx).tracks);
        assert(room@.users =~= empty_room(tx).users);
        room
    }
}

/// The room with the channel `tx` in which nobody plays anything.
pub open spec fn empty_room(tx: Sender<String>) -> RoomView {
    RoomView { tx, tracks: Map::empty(), users: Set::empty() }
}

/// The rooms by their identifiers.
pub type Rooms = Map<Seq<char>, RoomView>;

/// The rooms before any has been entered.
pub open spec fn no_rooms() -> Rooms {
    Map::empty()
}

/// The rooms that have been entered, by identifier.
pub struct ConnectedRooms {
    rooms: StringMap<Room>,
}

impl View for ConnectedRooms {
    type V = Rooms;

    closed spec fn view(&self) -> Rooms {
        self.rooms@.map_values(|room: Room| room@)
    }
}

/// What entering a room makes of the rooms: nothing if it is known, else it is added, empty and
/// with a channel that holds 128 messages and that no other room has.
pub open spec fn entered(before: Rooms, room_id: Seq<char>, after: Rooms) -> bool {
    if before.contains_key(room_id) {
        after == before
    } else {
        exists|tx: Sender<String>|
            {
                &&& slots(tx) == 128
                &&& has_no_room(before, tx)
                &&& after == before.insert(room_id, #[trigger] empty_room(tx))
            }
    }
}

/// Whether no room has the channel.
pub open spec fn has_no_room(rooms: Rooms, tx: Sender<String>) -> bool {
    forall|k: Seq<char>| rooms.contains_key(k) ==> (#[trigger] rooms[k]).tx != tx
}

/// Whether every room has a channel of its own.
pub open spec fn channels_apart(rooms: Rooms) -> bool {
    forall|j: Seq<char>, k: Seq<char>|
        rooms.contains_key(j) && rooms.contains_key(k) && j != k ==> (#[trigger] rooms[j]).tx != (
        #[trigger] rooms[k]).tx
}

/// The rooms once a listener in `room_id` plays a track.
pub open spec fn with_track(
    rooms: Rooms,
    room_id: Seq<char>,
    display_name: Seq<char>,
    track: TrackView,
) -> Rooms {
    let room = rooms[room_id];
    rooms.insert(room_id, RoomView { tracks: room.tracks.insert(display_name, track), ..room })
}

/// The rooms once a listener in `room_id` plays nothing.
pub open spec fn without_track(rooms: Rooms, room_id: Seq<char>, display_name: Seq<char>) -> Rooms {
    let room = rooms[room_id];
    rooms.insert(room_id, RoomView { tracks: room.tracks.remove(display_name), ..room })
}

/// The only power of two that a capacity of a hundred is rounded up to.
proof fn lemma_slots_of_room(n: nat)
    requires
        channel::rounded_up(CHANNEL_CAPACITY as nat, n),
    ensures
        n == 128,
{
    reveal_with_fuel(vstd::arithmetic::power2::is_pow2, 10);
}

impl ConnectedRooms {
    pub closed spec fn wf(&self) -> bool {
        &&& self.rooms.wf()
        &&& forall|room_id: Seq<char>|
            self.rooms@.contains_key(room_id) ==> (#[trigger] self.rooms@[room_id]).wf()
        &&& channels_apart(self@)
    }

    /// No room has been entered.
    pub fn new() -> (connected: Self)
        ensures
            connected.wf(),
            connected@ == no_rooms(),
    {
        let connected = ConnectedRooms { rooms: StringMap::new() };
        assert(connected@ =~= no_rooms());
        connected
    }

    /// Whether the room has been entered.
    pub fn contains(&self, room_id: &str) -> (r: bool)
        requires
            self.wf(),
        ensures
            r == self@.contains_key(room_id@),
    {
        self.rooms.contains_key(room_id)
    }
}

/// Enters a room: adds it with a channel of its own, unless it is known.
pub fn insert_pool(connected: &mut ConnectedRooms, room_id: &str)
    requires
        old(connected).wf(),
    ensures
        final(connected).wf(),
        entered(old(connected)@, room_id@, final(connected)@),
{
    if !connected.rooms.contains_key(room_id) {
        let (tx, _rx) = channel::new_channel(CHANNEL_CAPACITY, connected);
        proof {
            lemma_slots_of_room(slots(tx));
        }
        let new_pool = Room::new(tx);
        connected.rooms.insert(room_id.to_owned(), new_pool);
        assert(connected@ =~= old(connected)@.insert(room_id@, empty_room(tx)));
        proof {
            law_entering_keeps_channels_apart(old(connected)@, connected@, room_id@);
        }
    }
}

/// Whether a receiver hears what is sent in a room.
pub open spec fn listens(rooms: Rooms, room_id: Seq<char>, rx: Receiver<String>) -> bool {
    sender_of(rx) == rooms[room_id].tx
}

/// Whether a sender sends to a room.
pub open spec fn speaks(rooms: Rooms, room_id: Seq<char>, tx: Sender<String>) -> bool {
    tx == rooms[room_id].tx
}

/// A receiver of what will be sent in a room.
pub fn get_receiver(connected: &ConnectedRooms, room_id: &str) -> (rx: Receiver<String>)
    requires
        connected.wf(),
        connected@.contains_key(room_id@),
    ensures
        listens(connected@, room_id@, rx),
{
    let room = connected.rooms.get(room_id).unwrap();
    channel::subscribe(&room.tx)
}

/// A sender to the listeners in a room.
pub fn get_sender(connected: &ConnectedRooms, room_id: &str) -> (tx: Sender<String>)
    requires
        connected.wf(),
        connected@.contains_key(room_id@),
    ensures
        speaks(connected@, room_id@, tx),
{
    let room = connected.rooms.get(room_id).unwrap();
    channel::clone_sender(&room.tx)
}

/// Takes down that a listener in a room plays a track.
pub fn update_room(connected: &mut ConnectedRooms, room_id: &str, display_name: &str, track: &Track)
    requires
        old(connected).wf(),
        old(connected)@.contains_key(room_id@),
    ensures
        final(connected).wf(),
        final(connected)@ == with_track(old(connected)@, room_id@, display_name@, track@),
{
    let copy = track.clone();
    let name = display_name.to_owned();
    let room = connected.rooms.get_mut(room_id).unwrap();
    room.tracks.insert(name, copy);
    proof {
        let before = old(connected).rooms@[room_id@];
        let after = connected.rooms@[room_id@];
        assert(after@.tracks =~= before@.tracks.insert(display_name@, track@));
        assert(connected@ =~= with_track(old(connected)@, room_id@, display_name@, track@));
        law_playing_keeps_channels_apart(old(connected)@, room_id@, display_name@, track@);
    }
}

/// Takes down that a listener in a room plays nothing any more.
pub fn remove_user_from_room(connected: &mut ConnectedRooms, room_id: &str, display_name: &str)
    requires
        old(connected).wf(),
        old(connected)@.contains_key(room_id@),
    ensures
        final(connected).wf(),
        final(connected)@ == without_track(old(connected)@, room_id@, display_name@),
{
    let room = connected.rooms.get_mut(room_id).unwrap();
    room.tracks.remove(display_name);
    proof {
        let before = old(connected).rooms@[room_id@];
        let after = connected.rooms@[room_id@];
        assert(after@.tracks =~= before@.tracks.remove(display_name@));
        assert(connected@ =~= without_track(old(connected)@, room_id@, display_name@));
        law_leaving_keeps_channels_apart(old(connected)@, room_id@, display_name@);
    }
}

/// What is played in a room, by the display name of the listener.
pub fn get_room(connected: &ConnectedRooms, room_id: &str) -> (tracks: StringMap<Track>)
    requires
        connected.wf(),
        connected@.contains_key(room_id@),
    ensures
        tracks.wf(),
        tracks_view(tracks@) == connected@[room_id@].tracks,
{
    let room = connected.rooms.get(room_id).unwrap();
    copy_tracks(&room.tracks)
}

/// Entering a room a second time changes nothing.
pub proof fn law_entering_twice(a: Rooms, b: Rooms, c: Rooms, room_id: Seq<char>)
    requires
        entered(a, room_id, b),
        entered(b, room_id, c),
    ensures
        c == b,
        b.contains_key(room_id),
{
}

/// Entering a room leaves every other room as it was, and a known room too: its listeners keep
/// their channel and their tracks.
pub proof fn law_entering_keeps_rooms(before: Rooms, after: Rooms, room_id: Seq<char>, k: Seq<char>)
    requires
        entered(before, room_id, after),
        before.contains_key(k),
    ensures
        after.contains_key(k),
        after[k] == before[k],
{
}

/// Entering a room leaves every room with a channel of its own.
pub proof fn law_entering_keeps_channels_apart(before: Rooms, after: Rooms, room_id: Seq<char>)
    requires
        channels_apart(before),
        entered(before, room_id, after),
    ensures
        channels_apart(after),
{
}

/// Playing leaves every room with a channel of its own.
pub proof fn law_playing_keeps_channels_apart(
    rooms: Rooms,
    room_id: Seq<char>,
    display_name: Seq<char>,
    track: TrackView,
)
    requires
        channels_apart(rooms),
        rooms.contains_key(room_id),
    ensures
        channels_apart(with_track(rooms, room_id, display_name, track)),
{
}

/// Leaving leaves every room with a channel of its own.
pub proof fn law_leaving_keeps_channels_apart(
    rooms: Rooms,
    room_id: Seq<char>,
    display_name: Seq<char>,
)
    requires
        channels_apart(rooms),
        rooms.contains_key(room_id),
    ensures
        channels_apart(without_track(rooms, room_id, display_name)),
{
}

/// The rooms that have been entered have a channel each.
pub proof fn law_rooms_have_their_own_channels(connected: ConnectedRooms)
    requires
        connected.wf(),
    ensures
        channels_apart(connected@),
{
}

/// A receiver of one room and a sender of another are ends of the same channel if and only if the
/// rooms are the same.
pub proof fn law_rooms_hear_themselves_only(
    connected: ConnectedRooms,
    heard: Seq<char>,
    sent: Seq<char>,
    rx: Receiver<String>,
    tx: Sender<String>,
)
    requires
        connected.wf(),
        connected@.contains_key(heard),
        connected@.contains_key(sent),
        listens(connected@, heard, rx),
        speaks(connected@, sent, tx),
    ensures
        sender_of(rx) == tx <==> heard == sent,
{
}

/// A room shows what a listener plays last, and what everybody else played before.
pub proof fn law_track_read_back(
    rooms: Rooms,
    room_id: Seq<char>,
    display_name: Seq<char>,
    track: TrackView,
    k: Seq<char>,
)
    requires
        rooms.contains_key(room_id),
    ensures
        with_track(rooms, room_id, display_name, track)[room_id].tracks.contains_key(display_name),
        with_track(rooms, room_id, display_name, track)[room_id].tracks[display_name] == track,
        k != display_name ==> with_track(
            rooms,
            room_id,
            display_name,
            track,
        )[room_id].tracks.contains_key(k) == rooms[room_id].tracks.contains_key(k),
        k != display_name && rooms[room_id].tracks.contains_key(k) ==> with_track(
            rooms,
            room_id,
            display_name,
            track,
        )[room_id].tracks[k] == rooms[room_id].tracks[k],
{
}

/// A listener leaves no trace: once they play nothing any more, the rooms are as if they had
/// never played.
pub proof fn law_leaving_undoes_playing(
    rooms: Rooms,
    room_id: Seq<char>,
    display_name: Seq<char>,
    track: TrackView,
)
    requires
        rooms.contains_key(room_id),
    ensures
        without_track(with_track(rooms, room_id, display_name, track), room_id, display_name)
            == without_track(rooms, room_id, display_name),
        !rooms[room_id].tracks.contains_key(display_name) ==> without_track(
            with_track(rooms, room_id, display_name, track),
            room_id,
            display_name,
        ) == rooms,
{
    let played = with_track(rooms, room_id, display_name, track);
    let left = without_track(played, room_id, display_name);
    let never = without_track(rooms, room_id, display_name);
    assert(left[room_id].tracks =~= never[room_id].tracks);
    assert(left =~= never);
    if !rooms[room_id].tracks.contains_key(display_name) {
        assert(never[room_id].tracks =~= rooms[room_id].tracks);
        assert(never =~= rooms);
    }
}

/// Playing and leaving touch one room only: which rooms there are, the channel and the users of
/// each, and everything in the other rooms stay as they were.
pub proof fn law_rooms_apart(
    rooms: Rooms,
    room_id: Seq<char>,
    display_name: Seq<char>,
    track: TrackView,
    k: Seq<char>,
)
    requires
        rooms.contains_key(room_id),
        rooms.contains_key(k),
    ensures
        with_track(rooms, room_id, display_name, track).dom() == rooms.dom(),
        without_track(rooms, room_id, display_name).dom() == rooms.dom(),
        with_track(rooms, room_id, display_name, track)[k].tx == rooms[k].tx,
        without_track(rooms, room_id, display_name)[k].tx == rooms[k].tx,
        with_track(rooms, room_id, display_name, track)[k].users == rooms[k].users,
        without_track(rooms, room_id, display_name)[k].users == rooms[k].users,
        k != room_id ==> with_track(rooms, room_id, display_name, track)[k] == rooms[k],
        k != room_id ==> without_track(rooms, room_id, display_name)[k] == rooms[k],
{
    assert(with_track(rooms, room_id, display_name, track).dom() =~= rooms.dom());
    assert(without_track(rooms, room_id, display_name).dom() =~= rooms.dom());
}

/// A room that was not known before it was entered is empty: nobody plays anything in it, whatever is
/// played in other rooms. It is the only room that is new.
pub proof fn law_entered_room_is_empty(
    before: Rooms,
    room_id: Seq<char>,
    after: Rooms,
    display_name: Seq<char>,
)
    requires
        entered(before, room_id, after),
        !before.contains_key(room_id),
    ensures
        after.dom() == before.dom().insert(room_id),
        slots(after[room_id].tx) == 128,
        forall|k: Seq<char>|
            before.contains_key(k) ==> (#[trigger] before[k]).tx != after[room_id].tx,
        !after[room_id].tracks.contains_key(display_name),
        after[room_id].tracks == Map::<Seq<char>, TrackView>::empty(),
        after[room_id].users == Set::<Seq<char>>::empty(),
{
    assert(after.dom() =~= before.dom().insert(room_id));
}

} // verus!
